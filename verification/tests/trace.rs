use ray_rust::flags::{BIGNORE, INONLY, OUTONLY, RIGNORE};
use ray_rust::scalar::Scalar;
use ray_rust::trace::{
    consider, follow, is_hit, raycast, Bounce, Event, Step, BACKGROUND_OBJECT, MAX_REFLECTIONS,
    MAX_REFRACTIONS,
};

fn s(v: f32) -> Scalar {
    Scalar::from_bits(v.to_bits())
}

const INF: f32 = f32::INFINITY;

fn cast(ts: &[f32], ig: Option<usize>) -> (f32, usize) {
    let ts: Vec<Scalar> = ts.iter().map(|&t| s(t)).collect();
    let (t, idx) = raycast(&ts, ig);
    (f32::from_bits(t.to_bits()), idx)
}

#[test]
fn the_limits_are_three_bounces_and_ten_refractions() {
    assert_eq!(MAX_REFLECTIONS, 3);
    assert_eq!(MAX_REFRACTIONS, 10);
    assert_eq!(BACKGROUND_OBJECT, 0);
}

#[test]
fn the_nearest_object_is_hit() {
    assert_eq!(cast(&[5.0, 3.0, 7.0], None), (3.0, 1));
    assert_eq!(cast(&[INF, INF, 7.0], None), (7.0, 2));
    assert_eq!(cast(&[0.0, 3.0], None), (0.0, 0));
}

#[test]
fn of_two_objects_as_near_the_first_is_hit() {
    assert_eq!(cast(&[5.0, 3.0, 3.0, 9.0], None), (3.0, 1));
    assert_eq!(cast(&[2.0, 2.0], None), (2.0, 0));
}

#[test]
fn the_ignored_object_is_passed_over() {
    assert_eq!(cast(&[5.0, 3.0, 7.0], Some(1)), (5.0, 0));
    assert_eq!(cast(&[5.0, 3.0, 7.0], Some(0)), (3.0, 1));
    assert_eq!(cast(&[5.0, 3.0, 7.0], Some(9)), (3.0, 1));
    assert_eq!(cast(&[5.0], Some(0)), (INF, 0));
}

#[test]
fn a_ray_that_meets_nothing_goes_to_infinity_at_object_zero() {
    assert_eq!(cast(&[], None), (INF, 0));
    assert_eq!(cast(&[INF, INF, INF], None), (INF, 0));
    assert_eq!(cast(&[f32::NAN, INF], None), (INF, 0));
}

#[test]
fn a_distance_that_is_no_number_is_no_hit() {
    assert_eq!(cast(&[f32::NAN, 4.0, f32::NAN], None), (4.0, 1));
    assert_eq!(cast(&[4.0, f32::NAN], None), (4.0, 0));
}

#[test]
fn consider_takes_the_nearer_hit() {
    assert_eq!(consider((s(INF), 0), 3, s(5.0)), (s(5.0), 3));
    assert_eq!(consider((s(5.0), 3), 4, s(6.0)), (s(5.0), 3));
    assert_eq!(consider((s(5.0), 3), 4, s(5.0)), (s(5.0), 3));
    assert_eq!(consider((s(5.0), 3), 4, s(4.5)), (s(4.5), 4));
    assert_eq!(consider((s(5.0), 3), 4, s(f32::NAN)), (s(5.0), 3));
}

#[test]
fn a_ray_hit_something_if_it_stopped_short_of_infinity() {
    assert!(is_hit(s(0.0)));
    assert!(is_hit(s(1.0e30)));
    assert!(is_hit(s(f32::MAX)));
    assert!(!is_hit(s(INF)));
    assert!(!is_hit(s(f32::NAN)));
}

#[test]
fn the_primary_ray_is_at_depth_one_without_flags() {
    assert_eq!(Bounce::primary(), Bounce { lev: 1, flags: 0, ignore: None });
    assert_eq!(Bounce::enter(0, None, 0), Bounce::primary());
}

#[test]
fn entering_a_path_goes_one_level_deeper() {
    assert_eq!(Bounce::enter(4, Some(2), OUTONLY), Bounce { lev: 5, flags: OUTONLY, ignore: Some(2) });
    assert_eq!(Bounce::enter(-7, None, INONLY), Bounce { lev: -6, flags: INONLY, ignore: None });
}

#[test]
fn a_miss_ends_the_path() {
    assert_eq!(Bounce::primary().after_miss(), Step::Stop);
    assert_eq!(Bounce::primary().step(Event::Miss), Step::Stop);
    assert_eq!(Bounce { lev: 2, flags: OUTONLY, ignore: Some(1) }.after_miss(), Step::Stop);
}

#[test]
fn a_hit_is_followed_one_level_deeper_past_the_object_hit() {
    let b = Bounce::primary();
    assert_eq!(
        b.after_hit(2, s(3.0), s(-0.5)),
        Step::Continue(Bounce { lev: 2, flags: OUTONLY, ignore: Some(2) })
    );
    assert_eq!(
        b.after_hit(2, s(3.0), s(0.5)),
        Step::Continue(Bounce { lev: 2, flags: INONLY, ignore: Some(2) })
    );
    assert_eq!(
        b.after_hit(2, s(3.0), s(0.0)),
        Step::Continue(Bounce { lev: 2, flags: INONLY, ignore: Some(2) })
    );
    assert_eq!(
        b.step(Event::Hit { idx: 2, energy: s(3.0), facing: s(-0.5) }),
        b.after_hit(2, s(3.0), s(-0.5))
    );
}

#[test]
fn a_bounce_keeps_the_channel_flags_and_replaces_the_side() {
    let b = Bounce { lev: 1, flags: INONLY | RIGNORE | BIGNORE, ignore: Some(4) };
    assert_eq!(
        b.after_hit(1, s(1.0), s(-1.0)),
        Step::Continue(Bounce { lev: 2, flags: OUTONLY | RIGNORE | BIGNORE, ignore: Some(1) })
    );
    let b = Bounce { lev: 1, flags: OUTONLY | RIGNORE, ignore: Some(4) };
    assert_eq!(
        b.after_hit(1, s(1.0), s(1.0)),
        Step::Continue(Bounce { lev: 2, flags: INONLY | RIGNORE, ignore: Some(1) })
    );
}

#[test]
fn the_background_object_ends_the_path() {
    assert_eq!(Bounce::primary().after_hit(0, s(3.0), s(-0.5)), Step::Stop);
}

#[test]
fn a_path_with_little_energy_ends() {
    let b = Bounce::primary();
    assert_eq!(b.after_hit(1, s(0.1), s(-0.5)), Step::Stop);
    assert_eq!(b.after_hit(1, s(0.0), s(-0.5)), Step::Stop);
    assert_eq!(b.after_hit(1, s(-1.0), s(-0.5)), Step::Stop);
    assert!(matches!(b.after_hit(1, s(0.10000001), s(-0.5)), Step::Continue(_)));
    assert!(matches!(b.after_hit(1, s(f32::NAN), s(-0.5)), Step::Continue(_)));
}

#[test]
fn a_path_at_the_depth_limit_ends() {
    let at = |lev: i32| Bounce { lev, flags: 0, ignore: None };
    assert!(matches!(at(1).after_hit(1, s(3.0), s(-0.5)), Step::Continue(_)));
    assert!(matches!(at(2).after_hit(1, s(3.0), s(-0.5)), Step::Continue(_)));
    assert_eq!(at(3).after_hit(1, s(3.0), s(-0.5)), Step::Stop);
    assert_eq!(at(4).after_hit(1, s(3.0), s(-0.5)), Step::Stop);
    assert_eq!(at(i32::MAX).after_hit(1, s(3.0), s(-0.5)), Step::Stop);
}

/// Follows a path between two mirrors that face each other: every ray hits
/// the other mirror, and loses nothing.
fn rays_between_mirrors(start: Bounce) -> usize {
    let mut bounce = start;
    let mut rays = 0;
    let mut mirror = 1;
    loop {
        rays += 1;
        assert!(rays <= 100, "the path does not end");
        match bounce.after_hit(mirror, s(3.0), s(-1.0)) {
            Step::Continue(next) => {
                assert_eq!(next.ignore, Some(mirror));
                bounce = next;
                mirror = 3 - mirror;
            }
            Step::Stop => return rays,
        }
    }
}

#[test]
fn two_mirrors_that_face_each_other_end_a_path_within_the_limit() {
    assert_eq!(rays_between_mirrors(Bounce::primary()), 3);
    assert_eq!(rays_between_mirrors(Bounce::enter(1, Some(1), OUTONLY)), 2);
    assert_eq!(rays_between_mirrors(Bounce::enter(2, Some(1), OUTONLY)), 1);
    assert_eq!(rays_between_mirrors(Bounce::enter(9, Some(1), INONLY)), 1);
}

/// Follows a path whose rays fare as `script` says, and returns the
/// standing of each ray that was cast.
fn standings(start: Bounce, script: Vec<Event>) -> Vec<Bounce> {
    let cast = |mut seen: Vec<Bounce>, bounce: Bounce| -> (Vec<Bounce>, Event) {
        let event = script[seen.len().min(script.len() - 1)];
        seen.push(bounce);
        (seen, event)
    };
    follow(start, Vec::new(), &cast)
}

fn hit(idx: usize, energy: f32, facing: f32) -> Event {
    Event::Hit { idx, energy: s(energy), facing: s(facing) }
}

#[test]
fn a_path_that_misses_casts_one_ray() {
    assert_eq!(standings(Bounce::primary(), vec![Event::Miss]), vec![Bounce::primary()]);
}

#[test]
fn a_path_is_followed_from_hit_to_hit_until_it_misses() {
    assert_eq!(
        standings(Bounce::primary(), vec![hit(2, 3.0, -1.0), Event::Miss]),
        vec![Bounce::primary(), Bounce { lev: 2, flags: OUTONLY, ignore: Some(2) }]
    );
}

#[test]
fn a_path_between_mirrors_is_followed_for_three_rays() {
    assert_eq!(
        standings(Bounce::primary(), vec![hit(1, 3.0, -1.0), hit(2, 3.0, 1.0), hit(1, 3.0, -1.0)]),
        vec![
            Bounce::primary(),
            Bounce { lev: 2, flags: OUTONLY, ignore: Some(1) },
            Bounce { lev: 3, flags: INONLY, ignore: Some(2) },
        ]
    );
    // However long the mirrors go on, the path does not.
    assert_eq!(standings(Bounce::primary(), vec![hit(1, 3.0, -1.0)]).len(), 3);
    assert_eq!(standings(Bounce::enter(5, None, 0), vec![hit(1, 3.0, -1.0)]).len(), 1);
}

#[test]
fn a_path_ends_at_the_background_object_and_when_it_is_dim() {
    assert_eq!(standings(Bounce::primary(), vec![hit(0, 3.0, -1.0)]).len(), 1);
    assert_eq!(standings(Bounce::primary(), vec![hit(1, 3.0, -1.0), hit(0, 3.0, -1.0)]).len(), 2);
    assert_eq!(standings(Bounce::primary(), vec![hit(1, 0.05, -1.0)]).len(), 1);
}

#[test]
fn follow_hands_the_state_from_ray_to_ray() {
    let cast = |sum: u32, bounce: Bounce| -> (u32, Event) {
        (sum * 10 + bounce.lev as u32, hit(1, 3.0, -1.0))
    };
    assert_eq!(follow(Bounce::primary(), 0u32, &cast), 123);
    assert_eq!(follow(Bounce::enter(1, None, 0), 7u32, &cast), 723);
}
