use ray_rust::march::{
    dim, distance_estimate, glow_applies, least_of, on_surface, walk, March, MAX_ITER,
};
use ray_rust::scalar::Scalar;

fn s(v: f32) -> Scalar {
    Scalar::from_bits(v.to_bits())
}

fn f(v: Scalar) -> f32 {
    f32::from_bits(v.to_bits())
}

const INF: f32 = f32::INFINITY;

fn estimate(fields: &[(f32, f32)], ig: Option<usize>) -> (f32, usize, f32) {
    let fields: Vec<(Scalar, Scalar)> = fields.iter().map(|&(d, g)| (s(d), s(g))).collect();
    let (d, idx, g) = distance_estimate(&fields, ig);
    (f(d), idx, f(g))
}

#[test]
fn the_estimate_is_the_least_distance_and_the_least_glow() {
    assert_eq!(estimate(&[(5.0, 0.0), (3.0, 15.0), (7.0, 7.0)], None), (3.0, 1, 7.0));
    assert_eq!(estimate(&[(5.0, 2.5), (3.0, 15.0), (7.0, 7.0)], None), (3.0, 1, 2.5));
}

#[test]
fn the_estimate_passes_over_the_ignored_object() {
    assert_eq!(estimate(&[(5.0, 2.5), (3.0, 1.0), (7.0, 7.0)], Some(1)), (5.0, 0, 2.5));
    assert_eq!(estimate(&[(5.0, 2.5)], Some(0)), (INF, 0, INF));
}

#[test]
fn a_glow_of_zero_does_not_count() {
    assert_eq!(estimate(&[(5.0, 0.0), (3.0, 0.0)], None), (3.0, 1, INF));
    assert_eq!(estimate(&[(5.0, -1.0), (3.0, f32::NAN)], None), (3.0, 1, INF));
    assert_eq!(estimate(&[(0.0, 0.0), (3.0, 4.0)], None), (0.0, 0, 4.0));
}

#[test]
fn an_empty_scene_is_infinitely_far() {
    assert_eq!(estimate(&[], None), (INF, 0, INF));
}

#[test]
fn dim_takes_the_lesser_glow_above_zero() {
    assert_eq!(dim(s(INF), s(4.0)), s(4.0));
    assert_eq!(dim(s(4.0), s(5.0)), s(4.0));
    assert_eq!(dim(s(4.0), s(3.0)), s(3.0));
    assert_eq!(dim(s(4.0), s(0.0)), s(4.0));
    assert_eq!(dim(s(4.0), s(-2.0)), s(4.0));
}

#[test]
fn a_march_starts_without_a_step() {
    assert_eq!(March::start(), March { iter: 0, min_dist: s(INF) });
}

#[test]
fn a_step_counts_and_keeps_the_least_glow() {
    let (m, ends) = March::start().advance(s(10.0), s(4.0));
    assert_eq!(m, March { iter: 1, min_dist: s(4.0) });
    assert!(!ends);
    let (m, ends) = m.advance(s(10.0), s(6.0));
    assert_eq!(m, March { iter: 2, min_dist: s(4.0) });
    assert!(!ends);
    let (m, ends) = m.advance(s(10.0), s(1.0));
    assert_eq!(m, March { iter: 3, min_dist: s(1.0) });
    assert!(!ends);
}

#[test]
fn a_march_ends_on_a_surface() {
    assert!(March::start().advance(s(0.0009), s(INF)).1);
    assert!(March::start().advance(s(0.0), s(INF)).1);
    assert!(!March::start().advance(s(0.001), s(INF)).1);
    assert!(!March::start().advance(s(0.0011), s(INF)).1);
}

#[test]
fn a_march_ends_far_away() {
    assert!(March::start().advance(s(10000.5), s(INF)).1);
    assert!(March::start().advance(s(INF), s(INF)).1);
    assert!(!March::start().advance(s(10000.0), s(INF)).1);
    assert!(!March::start().advance(s(9999.0), s(INF)).1);
}

#[test]
fn a_step_of_no_length_goes_on() {
    assert!(!March::start().advance(s(f32::NAN), s(INF)).1);
}

#[test]
fn a_march_that_does_not_converge_ends_after_the_step_limit() {
    let mut m = March::start();
    let mut steps = 0usize;
    loop {
        let (next, ends) = m.advance(s(1.0), s(INF));
        steps += 1;
        m = next;
        if ends {
            break;
        }
        assert!(steps <= MAX_ITER + 1, "the march does not end");
    }
    assert_eq!(steps, MAX_ITER + 1);
    assert_eq!(m.iter, 10001);
    // Its last step was neither on a surface nor far away: it is a miss.
    assert!(!on_surface(s(1.0)));
}

#[test]
fn the_last_allowed_step_does_not_end_the_march_by_itself() {
    let m = March { iter: MAX_ITER - 1, min_dist: s(INF) };
    let (m, ends) = m.advance(s(1.0), s(INF));
    assert!(!ends);
    assert_eq!(m.iter, MAX_ITER);
    assert!(m.advance(s(1.0), s(INF)).1);
}

#[test]
fn a_march_is_on_a_surface_below_the_nearness() {
    assert!(on_surface(s(0.0)));
    assert!(on_surface(s(0.00099)));
    assert!(!on_surface(s(0.001)));
    assert!(!on_surface(s(1.0)));
    assert!(!on_surface(s(INF)));
    assert!(!on_surface(s(f32::NAN)));
}

#[test]
fn least_of_takes_the_lesser() {
    assert_eq!(least_of(s(INF), s(3.0)), s(3.0));
    assert_eq!(least_of(s(3.0), s(INF)), s(3.0));
    assert_eq!(least_of(s(3.0), s(2.0)), s(2.0));
    assert_eq!(least_of(s(3.0), s(f32::NAN)), s(3.0));
}

#[test]
fn the_glow_applies_when_switched_on_and_something_glowed() {
    assert!(glow_applies(true, s(3.0)));
    assert!(glow_applies(true, s(0.0)));
    assert!(!glow_applies(true, s(INF)));
    assert!(!glow_applies(false, s(3.0)));
    assert!(!glow_applies(false, s(INF)));
    assert!(glow_applies(true, s(f32::NAN)));
}

#[test]
fn a_walk_ends_on_a_surface() {
    // Each step halves the distance left to a wall a hundred away.
    let step = |left: f32| -> (f32, Scalar, Scalar) { (left / 2.0, s(left / 2.0), s(INF)) };
    let (left, march, last) = walk(100.0f32, &step);
    assert!(left < 0.001);
    assert_eq!(f(last), left);
    assert_eq!(march.iter, 17);
    assert_eq!(march.min_dist, s(INF));
}

#[test]
fn a_walk_ends_far_away() {
    let step = |pos: f32| -> (f32, Scalar, Scalar) { (pos * 10.0, s(pos * 10.0), s(pos)) };
    let (pos, march, last) = walk(3.0f32, &step);
    assert_eq!(pos, 30000.0);
    assert_eq!(f(last), 30000.0);
    assert_eq!(march.iter, 4);
    // The least glow met is that of the first step.
    assert_eq!(march.min_dist, s(3.0));
}

#[test]
fn a_walk_that_does_not_converge_ends_after_the_step_limit() {
    let step = |steps: usize| -> (usize, Scalar, Scalar) { (steps + 1, s(10.0), s(INF)) };
    let (steps, march, last) = walk(0usize, &step);
    assert_eq!(steps, MAX_ITER + 1);
    assert_eq!(march.iter, MAX_ITER + 1);
    assert_eq!(f(last), 10.0);
    assert!(!on_surface(last));
}

#[test]
fn a_walk_takes_at_least_one_step() {
    let step = |steps: usize| -> (usize, Scalar, Scalar) { (steps + 1, s(0.0), s(2.0)) };
    let (steps, march, last) = walk(0usize, &step);
    assert_eq!(steps, 1);
    assert_eq!(march, March { iter: 1, min_dist: s(2.0) });
    assert_eq!(f(last), 0.0);
}
