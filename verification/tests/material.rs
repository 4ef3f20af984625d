use ray_rust::material::{RenderColor, RenderMaterial, RenderPattern};
use ray_rust::scalar::Scalar;
use ray_rust::vec3::Vec3;

fn s(v: f32) -> Scalar {
    Scalar::from_bits(v.to_bits())
}

fn color(r: f32, g: f32, b: f32) -> RenderColor {
    RenderColor::new(s(r), s(g), s(b))
}

fn sample() -> RenderMaterial {
    RenderMaterial::new("brick".to_string(), color(0.8, 0.3, 0.1), color(0.5, 0.5, 0.5), 24, s(0.25), s(1.5))
}

#[test]
fn a_colour_holds_its_three_channels() {
    let c = color(0.1, 0.2, 0.3);
    assert_eq!(c.r, s(0.1));
    assert_eq!(c.g, s(0.2));
    assert_eq!(c.b, s(0.3));
    assert_eq!(RenderColor::zero(), color(0.0, 0.0, 0.0));
}

#[test]
fn a_vector_holds_its_three_coordinates() {
    let v = Vec3::new(s(1.0), s(-2.0), s(3.5));
    assert_eq!(v.x, s(1.0));
    assert_eq!(v.y, s(-2.0));
    assert_eq!(v.z, s(3.5));
    assert_eq!(Vec3::zero(), Vec3::new(s(0.0), s(0.0), s(0.0)));
}

#[test]
fn a_new_material_is_solid_without_glow() {
    let m = sample();
    assert_eq!(m.get_name(), "brick");
    assert_eq!(m.get_diffuse(), color(0.8, 0.3, 0.1));
    assert_eq!(m.get_specular(), color(0.5, 0.5, 0.5));
    assert_eq!(m.get_phong_number(), 24);
    assert_eq!(m.get_transparency(), s(0.25));
    assert_eq!(m.get_refraction_index(), s(1.5));
    assert_eq!(m.get_glow_dist(), s(0.0));
    assert_eq!(m.get_frac(), color(1.0, 1.0, 1.0));
    assert_eq!(m.get_pattern(), RenderPattern::Solid);
    assert_eq!(m.get_pattern_scale(), s(1.0));
}

#[test]
fn each_builder_sets_its_own_field_and_no_other() {
    let m = sample()
        .glow_dist(s(5.0))
        .frac(color(1.4, 1.5, 1.6))
        .pattern(RenderPattern::Checkerboard)
        .pattern_scale(s(300.0));
    assert_eq!(m.get_glow_dist(), s(5.0));
    assert_eq!(m.get_frac(), color(1.4, 1.5, 1.6));
    assert_eq!(m.get_pattern(), RenderPattern::Checkerboard);
    assert_eq!(m.get_pattern_scale(), s(300.0));
    assert_eq!(m.get_name(), "brick");
    assert_eq!(m.get_diffuse(), color(0.8, 0.3, 0.1));
    assert_eq!(m.get_specular(), color(0.5, 0.5, 0.5));
    assert_eq!(m.get_phong_number(), 24);
    assert_eq!(m.get_transparency(), s(0.25));
    assert_eq!(m.get_refraction_index(), s(1.5));
}

#[test]
fn a_clone_has_every_field_of_the_material() {
    let m = sample().glow_dist(s(2.0)).pattern(RenderPattern::RepeatedGradation);
    let c = m.clone();
    assert_eq!(c.get_name(), m.get_name());
    assert_eq!(c.get_diffuse(), m.get_diffuse());
    assert_eq!(c.get_specular(), m.get_specular());
    assert_eq!(c.get_phong_number(), m.get_phong_number());
    assert_eq!(c.get_transparency(), m.get_transparency());
    assert_eq!(c.get_refraction_index(), m.get_refraction_index());
    assert_eq!(c.get_glow_dist(), m.get_glow_dist());
    assert_eq!(c.get_frac(), m.get_frac());
    assert_eq!(c.get_pattern(), m.get_pattern());
    assert_eq!(c.get_pattern_scale(), m.get_pattern_scale());
}

#[test]
fn is_named_compares_the_whole_name() {
    let m = sample();
    assert!(m.is_named(&"brick".to_string()));
    assert!(!m.is_named(&"bric".to_string()));
    assert!(!m.is_named(&"bricks".to_string()));
    assert!(!m.is_named(&"".to_string()));
}

#[test]
fn out_of_range_transparency_is_taken_as_it_is() {
    let m = RenderMaterial::new("odd".to_string(), color(0., 0., 0.), color(0., 0., 0.), 0, s(-3.0), s(-1.0));
    assert_eq!(m.get_transparency(), s(-3.0));
    assert_eq!(m.get_refraction_index(), s(-1.0));
    assert!(!m.is_transparent());
}

#[test]
fn a_material_is_transparent_above_zero_only() {
    let with = |t: f32| RenderMaterial::new("m".to_string(), color(0., 0., 0.), color(0., 0., 0.), 0, s(t), s(1.0));
    assert!(with(1.0).is_transparent());
    assert!(with(1.0e-30).is_transparent());
    assert!(with(f32::INFINITY).is_transparent());
    assert!(!with(0.0).is_transparent());
    assert!(!with(-0.0).is_transparent());
    assert!(!with(-1.0).is_transparent());
    assert!(!with(f32::NAN).is_transparent());
}

#[test]
fn a_material_has_a_highlight_unless_its_exponent_is_zero() {
    let with = |pn: i32| RenderMaterial::new("m".to_string(), color(0., 0., 0.), color(0., 0., 0.), pn, s(0.), s(1.0));
    assert!(with(24).has_highlight());
    assert!(with(1).has_highlight());
    assert!(with(-1).has_highlight());
    assert!(!with(0).has_highlight());
}

#[test]
fn a_solid_texture_is_the_diffuse_colour_everywhere() {
    let m = sample();
    assert_eq!(m.lookup_texture(0, 0, s(0.7), s(0.9)), color(0.8, 0.3, 0.1));
    assert_eq!(m.lookup_texture(3, 4, s(0.7), s(0.9)), color(0.8, 0.3, 0.1));
    assert_eq!(m.lookup_texture(-3, 4, s(f32::NAN), s(0.9)), color(0.8, 0.3, 0.1));
}

#[test]
fn a_checkerboard_is_black_on_even_cells() {
    let m = sample().pattern(RenderPattern::Checkerboard);
    let black = color(0.0, 0.0, 0.0);
    let diffuse = color(0.8, 0.3, 0.1);
    assert_eq!(m.lookup_texture(0, 0, s(0.7), s(0.9)), black);
    assert_eq!(m.lookup_texture(1, 1, s(0.7), s(0.9)), black);
    assert_eq!(m.lookup_texture(2, 0, s(0.7), s(0.9)), black);
    assert_eq!(m.lookup_texture(-1, 1, s(0.7), s(0.9)), black);
    assert_eq!(m.lookup_texture(-3, -5, s(0.7), s(0.9)), black);
    assert_eq!(m.lookup_texture(1, 0, s(0.7), s(0.9)), diffuse);
    assert_eq!(m.lookup_texture(0, 1, s(0.7), s(0.9)), diffuse);
    assert_eq!(m.lookup_texture(-1, 0, s(0.7), s(0.9)), diffuse);
    assert_eq!(m.lookup_texture(-2, 5, s(0.7), s(0.9)), diffuse);
    assert_eq!(m.lookup_texture(0, -7, s(0.7), s(0.9)), diffuse);
}

#[test]
fn a_checkerboard_holds_at_the_ends_of_the_integers() {
    let m = sample().pattern(RenderPattern::Checkerboard);
    let black = color(0.0, 0.0, 0.0);
    let diffuse = color(0.8, 0.3, 0.1);
    // MAX is odd and MIN is even.
    assert_eq!(m.lookup_texture(i32::MAX, i32::MAX, s(0.), s(0.)), black);
    assert_eq!(m.lookup_texture(i32::MIN, i32::MIN, s(0.), s(0.)), black);
    assert_eq!(m.lookup_texture(i32::MAX, i32::MIN, s(0.), s(0.)), diffuse);
    assert_eq!(m.lookup_texture(i32::MAX, 1, s(0.), s(0.)), black);
    assert_eq!(m.lookup_texture(i32::MIN, -1, s(0.), s(0.)), diffuse);
}

#[test]
fn a_repeated_gradation_takes_red_and_green_from_the_caller() {
    let m = sample().pattern(RenderPattern::RepeatedGradation);
    assert_eq!(m.lookup_texture(0, 0, s(0.7), s(0.9)), color(0.7, 0.9, 0.1));
    assert_eq!(m.lookup_texture(5, 8, s(0.25), s(0.5)), color(0.25, 0.5, 0.1));
}
