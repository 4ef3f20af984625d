//! The ray tracer's control: which object a ray meets first, and whether a
//! ray that met one is followed further.
//!
//! A path is a chain of rays. Each ray is cast, and either misses every
//! object, which ends the path with the background, or meets one, is shaded,
//! and is mirrored into the next ray unless the path ends there. The
//! geometry of each ray is the caller's; the decisions are made here.

use vstd::prelude::*;
use crate::flags::{set_side, with_side};
use crate::object::{floor_hit, sphere_hit};
use crate::scalar::Scalar;

verus! {

/// A path casts no more rays once its depth has reached this.
pub const MAX_REFLECTIONS: i32 = 3;

/// A surface at this depth or deeper refracts no ray.
pub const MAX_REFRACTIONS: i32 = 10;

/// The object that ends every path that meets it: the ground of the scene.
pub const BACKGROUND_OBJECT: usize = 0;

/// Pattern of `0.1`: a path whose three attenuation factors sum to this or
/// less carries too little light to be followed.
pub const LOW_ENERGY_BITS: u32 = 0x3dcc_cccd;

/// The nearest hit so far when the object `idx` is met at distance `t`:
/// the new one if it is nearer, the old one if not.
pub open spec fn nearer(best: (Scalar, usize), idx: usize, t: Scalar) -> (Scalar, usize) {
    if t.less(best.0) {
        (t, idx)
    } else {
        best
    }
}

/// The nearest hit among the candidates `ts`, one for each object in order,
/// leaving out the object `ignore`. With no candidate nearer than infinity
/// it is infinity, at object 0.
pub open spec fn nearest(ts: Seq<Scalar>, ignore: Option<usize>) -> (Scalar, usize)
    decreases ts.len(),
{
    if ts.len() == 0 {
        (Scalar::infinity(), 0)
    } else {
        let best = nearest(ts.drop_last(), ignore);
        let idx = (ts.len() - 1) as usize;
        if ignore == Some(idx) {
            best
        } else {
            nearer(best, idx, ts.last())
        }
    }
}

/// Object `i` is a candidate: it is not the one left out.
pub open spec fn candidate(ts: Seq<Scalar>, ignore: Option<usize>, i: int) -> bool {
    0 <= i < ts.len() && ignore != Some(i as usize)
}

/// The nearest hit is nearer than infinity or is infinity; no candidate is
/// nearer than it; and if it is nearer than infinity it is the distance of a
/// candidate, the first of those that are as near.
pub proof fn lemma_nearest(ts: Seq<Scalar>, ignore: Option<usize>)
    requires
        ts.len() <= usize::MAX,
    ensures
        ({
            let best = nearest(ts, ignore);
            &&& !best.0.nan()
            &&& forall|i: int| candidate(ts, ignore, i) ==> !(#[trigger] ts[i]).less(best.0)
            &&& if best.0.less(Scalar::infinity()) {
                &&& candidate(ts, ignore, best.1 as int)
                &&& ts[best.1 as int] == best.0
                &&& forall|i: int|
                    candidate(ts, ignore, i) && i < best.1 ==> !(#[trigger] ts[i]).at_most(best.0)
            } else {
                best == (Scalar::infinity(), 0usize)
            }
        }),
    decreases ts.len(),
{
    if ts.len() > 0 {
        let front = ts.drop_last();
        lemma_nearest(front, ignore);
        assert(forall|i: int| 0 <= i < front.len() ==> front[i] == ts[i]);
        let before = nearest(front, ignore);
        let best = nearest(ts, ignore);
        assert forall|i: int| candidate(ts, ignore, i) implies !(#[trigger] ts[i]).less(best.0) by {
            if i < front.len() {
                assert(candidate(front, ignore, i));
                assert(!front[i].less(before.0));
            }
        }
        if best.0.less(Scalar::infinity()) {
            assert forall|i: int| candidate(ts, ignore, i) && i < best.1 implies !(
            #[trigger] ts[i]).at_most(best.0) by {
                assert(candidate(front, ignore, i));
                assert(!front[i].less(before.0));
                if before.0.less(Scalar::infinity()) && i < before.1 {
                    assert(!front[i].at_most(before.0));
                }
            }
        }
    }
}

/// Takes the nearer of the nearest hit so far and a hit of object `idx` at `t`.
pub fn consider(best: (Scalar, usize), idx: usize, t: Scalar) -> (r: (Scalar, usize))
    ensures
        r == nearer(best, idx, t),
{
    if t.lt(best.0) {
        (t, idx)
    } else {
        best
    }
}

/// Finds the first object that a ray meets.
///
/// `ts` holds, for each object of the scene in order, the distance at which
/// the ray meets it, or infinity. The object `ig`, the surface that the ray
/// has just left, is passed over. The result is the least distance and the
/// object that has it, the first if several do; without a hit it is
/// infinity and object 0.
pub fn raycast(ts: &Vec<Scalar>, ig: Option<usize>) -> (r: (Scalar, usize))
    ensures
        r == nearest(ts@, ig),
        !r.0.nan(),
        forall|i: int| candidate(ts@, ig, i) ==> !(#[trigger] ts@[i]).less(r.0),
        r.0.less(Scalar::infinity()) ==> candidate(ts@, ig, r.1 as int) && ts@[r.1 as int] == r.0,
        r.0.less(Scalar::infinity()) ==> forall|i: int|
            candidate(ts@, ig, i) && i < r.1 ==> !(#[trigger] ts@[i]).at_most(r.0),
        !r.0.less(Scalar::infinity()) ==> r == (Scalar::infinity(), 0usize),
{
    let count: usize = ts.len();
    proof {
        lemma_nearest(ts@, ig);
    }
    let mut best: (Scalar, usize) = (Scalar::infinity(), 0);
    let mut idx: usize = 0;
    while idx < count
        invariant
            count == ts@.len(),
            idx <= count,
            best == nearest(ts@.take(idx as int), ig),
        decreases ts@.len() - idx,
    {
        proof {
            assert(ts@.take(idx + 1).drop_last() =~= ts@.take(idx as int));
            assert(ts@.take(idx + 1).last() == ts@[idx as int]);
        }
        let skip: bool = match ig {
            Some(g) => g == idx,
            None => false,
        };
        if !skip {
            best = consider(best, idx, ts[idx]);
        }
        idx = idx + 1;
    }
    proof {
        assert(ts@.take(ts@.len() as int) =~= ts@);
    }
    best
}

/// Tells whether a cast ray met an object: its distance is short of infinity.
pub fn is_hit(t: Scalar) -> (r: bool)
    ensures
        r == t.less(Scalar::infinity()),
{
    t.lt(Scalar::infinity())
}

/// A sphere may be asked for a hit nearer than the nearest so far, or for
/// any hit at all: the nearest hit after it is the same. The roots are in
/// order, as a root and the same root plus a square root are.
pub proof fn lemma_sphere_cut(
    best: (Scalar, usize),
    idx: usize,
    d2: Scalar,
    t0: Scalar,
    t1: Scalar,
    flags: u32,
)
    requires
        !best.0.nan(),
        t0.at_most(t1) || t0.nan() || t1.nan(),
    ensures
        nearer(best, idx, sphere_hit(d2, t0, t1, best.0, flags)) == nearer(
            best,
            idx,
            sphere_hit(d2, t0, t1, Scalar::infinity(), flags),
        ),
{
}

/// A floor may be asked for a hit nearer than the nearest so far, or for any
/// hit at all: the nearest hit after it is the same.
pub proof fn lemma_floor_cut(best: (Scalar, usize), idx: usize, w: Scalar, t0: Scalar)
    requires
        !best.0.nan(),
    ensures
        nearer(best, idx, floor_hit(w, t0, best.0)) == nearer(
            best,
            idx,
            floor_hit(w, t0, Scalar::infinity()),
        ),
{
}

/// Where a path stands when it casts a ray.
#[derive(Clone, Copy, Debug, PartialEq, Eq, Structural)]
pub struct Bounce {
    /// Depth: 1 for the ray from the camera, one more for each ray after it.
    pub lev: i32,
    /// The flags of the ray.
    pub flags: u32,
    /// The object that the ray has just left, which it cannot meet.
    pub ignore: Option<usize>,
}

/// What a path does after a ray.
#[derive(Clone, Copy, Debug, PartialEq, Eq, Structural)]
pub enum Step {
    /// The path casts another ray, as given.
    Continue(Bounce),
    /// The path has ended.
    Stop,
}

/// What became of a cast ray.
#[derive(Clone, Copy, Debug, PartialEq, Eq, Structural)]
pub enum Event {
    /// The ray met no object.
    Miss,
    /// The ray met the object `idx`. `energy` is the sum of the three
    /// attenuation factors after the surface has taken its share, and
    /// `facing` the cosine between the surface normal and the mirrored ray.
    Hit { idx: usize, energy: Scalar, facing: Scalar },
}

impl Bounce {
    /// The ray that follows a hit, or none.
    ///
    /// The path ends at the background object, when it carries too little
    /// light, and at the depth limit. Otherwise the next ray is one level
    /// deeper, passes over the object it leaves, and takes the near root no
    /// more if it points out of the surface, the far root no more if it
    /// points in.
    pub open spec fn next_after_hit(self, idx: usize, energy: Scalar, facing: Scalar) -> Step {
        if idx == BACKGROUND_OBJECT || energy.at_most(Scalar { bits: LOW_ENERGY_BITS }) || self.lev
            >= MAX_REFLECTIONS {
            Step::Stop
        } else {
            Step::Continue(
                Bounce {
                    lev: (self.lev + 1) as i32,
                    flags: with_side(self.flags, facing.less(Scalar::zero())),
                    ignore: Some(idx),
                },
            )
        }
    }

    /// What the path does after the event.
    pub open spec fn react(self, event: Event) -> Step {
        match event {
            Event::Miss => Step::Stop,
            Event::Hit { idx, energy, facing } => self.next_after_hit(idx, energy, facing),
        }
    }

    /// The first ray of a path that starts at depth `lev`, passes over
    /// `ignore` and has the flags `flags`.
    pub fn enter(lev: i32, ignore: Option<usize>, flags: u32) -> (b: Bounce)
        requires
            lev < i32::MAX,
        ensures
            b == (Bounce { lev: (lev + 1) as i32, flags, ignore }),
    {
        Bounce { lev: lev + 1, flags, ignore }
    }

    /// The ray from the camera: depth 1, no flag, no object passed over.
    pub fn primary() -> (b: Bounce)
        ensures
            b == (Bounce { lev: 1, flags: 0, ignore: None }),
    {
        Bounce { lev: 1, flags: 0, ignore: None }
    }

    /// Decides what follows a hit of object `idx`.
    pub fn after_hit(&self, idx: usize, energy: Scalar, facing: Scalar) -> (step: Step)
        ensures
            step == self.next_after_hit(idx, energy, facing),
            step matches Step::Continue(next) ==> next.lev == self.lev + 1 && next.lev
                <= MAX_REFLECTIONS,
    {
        if idx == BACKGROUND_OBJECT || energy.le(Scalar::from_bits(LOW_ENERGY_BITS)) || self.lev
            >= MAX_REFLECTIONS {
            Step::Stop
        } else {
            Step::Continue(
                Bounce {
                    lev: self.lev + 1,
                    flags: set_side(self.flags, facing.lt(Scalar::zero())),
                    ignore: Some(idx),
                },
            )
        }
    }

    /// Decides what follows a miss: the path ends, with the background.
    pub fn after_miss(&self) -> (step: Step)
        ensures
            step == Step::Stop,
    {
        Step::Stop
    }

    /// Decides what follows a ray.
    pub fn step(&self, event: Event) -> (step: Step)
        ensures
            step == self.react(event),
    {
        match event {
            Event::Miss => self.after_miss(),
            Event::Hit { idx, energy, facing } => self.after_hit(idx, energy, facing),
        }
    }
}

/// The number of rays that a path casts when its rays fare as `events` say,
/// one event for each ray in turn, from the ray `b` on.
pub open spec fn rays_cast(b: Bounce, events: Seq<Event>) -> nat
    decreases events.len(),
{
    if events.len() == 0 {
        0
    } else {
        match b.react(events[0]) {
            Step::Stop => 1,
            Step::Continue(next) => 1 + rays_cast(next, events.drop_first()),
        }
    }
}

/// The number of hits that a path shades when its rays fare as `events` say.
pub open spec fn surfaces_shaded(b: Bounce, events: Seq<Event>) -> nat
    decreases events.len(),
{
    if events.len() == 0 {
        0
    } else {
        match events[0] {
            Event::Miss => 0,
            Event::Hit { .. } => match b.react(events[0]) {
                Step::Stop => 1,
                Step::Continue(next) => 1 + surfaces_shaded(next, events.drop_first()),
            },
        }
    }
}

/// The bounce limit: however its rays fare, a path that is at depth `lev`
/// casts at most `MAX_REFLECTIONS - lev + 1` rays, and at least one ray is
/// all it casts once it has reached the limit. Two mirrors that face each
/// other end a path like any other scene.
pub proof fn lemma_bounce_limit(b: Bounce, events: Seq<Event>)
    ensures
        rays_cast(b, events) <= if b.lev >= MAX_REFLECTIONS {
            1int
        } else {
            MAX_REFLECTIONS - b.lev + 1
        },
    decreases events.len(),
{
    if events.len() > 0 {
        match b.react(events[0]) {
            Step::Stop => {},
            Step::Continue(next) => {
                lemma_bounce_limit(next, events.drop_first());
            },
        }
    }
}

/// A path from the camera casts at most `MAX_REFLECTIONS` rays.
pub proof fn lemma_primary_limit(events: Seq<Event>)
    ensures
        rays_cast(Bounce { lev: 1, flags: 0, ignore: None }, events) <= MAX_REFLECTIONS,
{
    lemma_bounce_limit(Bounce { lev: 1, flags: 0, ignore: None }, events);
}

/// A path whose first ray misses casts that one ray and shades no surface:
/// what it returns is the background alone.
pub proof fn lemma_miss_is_background(b: Bounce, events: Seq<Event>)
    requires
        events.len() > 0,
        events[0] == Event::Miss,
    ensures
        rays_cast(b, events) == 1,
        surfaces_shaded(b, events) == 0,
{
}

/// The `k`-th ray of a course was cast by `cast`: from the state before it
/// and its standing came the state after it and its event.
pub open spec fn ray_was_cast<S, F: Fn(S, Bounce) -> (S, Event)>(
    cast: F,
    states: Seq<S>,
    bounces: Seq<Bounce>,
    events: Seq<Event>,
    k: int,
) -> bool {
    call_ensures(cast, (states[k], bounces[k]), (states[k + 1], events[k]))
}

/// The `k`-th ray of a course was followed by the next.
pub open spec fn ray_was_followed(bounces: Seq<Bounce>, events: Seq<Event>, k: int) -> bool {
    bounces[k].react(events[k]) == Step::Continue(bounces[k + 1])
}

/// The course of a path that `cast` has followed from `start` and `init`:
/// the state before each ray and after the last, the standing of each ray,
/// and what became of it. Each ray was cast by `cast`, each but the last
/// was followed by the next, and the last ended the path.
pub open spec fn is_course<S, F: Fn(S, Bounce) -> (S, Event)>(
    cast: F,
    start: Bounce,
    init: S,
    states: Seq<S>,
    bounces: Seq<Bounce>,
    events: Seq<Event>,
) -> bool {
    &&& events.len() >= 1
    &&& bounces.len() == events.len()
    &&& states.len() == events.len() + 1
    &&& states[0] == init
    &&& bounces[0] == start
    &&& forall|k: int|
        0 <= k < events.len() ==> #[trigger] ray_was_cast(cast, states, bounces, events, k)
    &&& forall|k: int| 0 <= k < events.len() - 1 ==> #[trigger] ray_was_followed(bounces, events, k)
    &&& bounces.last().react(events.last()) == Step::Stop
}

/// The most rays that a path casts from the ray `b` on.
pub open spec fn ray_limit(b: Bounce) -> int {
    if b.lev >= MAX_REFLECTIONS {
        1
    } else {
        MAX_REFLECTIONS - b.lev + 1
    }
}

/// In a course each ray is one level deeper than the one before it.
pub proof fn lemma_course_depths<S, F: Fn(S, Bounce) -> (S, Event)>(
    cast: F,
    start: Bounce,
    init: S,
    states: Seq<S>,
    bounces: Seq<Bounce>,
    events: Seq<Event>,
    k: int,
)
    requires
        is_course(cast, start, init, states, bounces, events),
        0 <= k < events.len(),
    ensures
        bounces[k].lev == start.lev + k,
    decreases k,
{
    if k > 0 {
        lemma_course_depths(cast, start, init, states, bounces, events, k - 1);
        assert(ray_was_followed(bounces, events, k - 1));
    }
}

/// The bounce limit holds of every course: it has no more rays than the
/// limit allows from its start, whatever became of them.
pub proof fn lemma_course_limit<S, F: Fn(S, Bounce) -> (S, Event)>(
    cast: F,
    start: Bounce,
    init: S,
    states: Seq<S>,
    bounces: Seq<Bounce>,
    events: Seq<Event>,
)
    requires
        is_course(cast, start, init, states, bounces, events),
    ensures
        events.len() <= ray_limit(start),
{
    let n = events.len() as int;
    if n >= 2 {
        lemma_course_depths(cast, start, init, states, bounces, events, n - 2);
        assert(ray_was_followed(bounces, events, n - 2));
    }
}

/// A course whose first ray misses has that one ray: the path returns the
/// background, and no surface adds to it.
pub proof fn lemma_course_after_miss<S, F: Fn(S, Bounce) -> (S, Event)>(
    cast: F,
    start: Bounce,
    init: S,
    states: Seq<S>,
    bounces: Seq<Bounce>,
    events: Seq<Event>,
)
    requires
        is_course(cast, start, init, states, bounces, events),
        events[0] == Event::Miss,
    ensures
        events.len() == 1,
        states.len() == 2,
        call_ensures(cast, (init, start), (states[1], Event::Miss)),
{
    if events.len() > 1 {
        assert(ray_was_followed(bounces, events, 0));
    }
    assert(ray_was_cast(cast, states, bounces, events, 0));
}

/// Follows a path to its end.
///
/// `cast` casts one ray: from the state of the path and the ray's standing
/// it gives the state after the ray, and what became of the ray. The path
/// starts in `init` with the ray `start`, goes on as long as its rays are
/// followed, and ends within the bounce limit whatever `cast` returns. The
/// result is the state after the last ray.
pub fn follow<S, F: Fn(S, Bounce) -> (S, Event)>(start: Bounce, init: S, cast: F) -> (out: S)
    requires
        forall|s: S, b: Bounce| call_requires(cast, (s, b)),
    ensures
        exists|states: Seq<S>, bounces: Seq<Bounce>, events: Seq<Event>|
            #[trigger] is_course(cast, start, init, states, bounces, events) && states.last()
                == out && events.len() <= ray_limit(start),
{
    let mut state: S = init;
    let mut bounce: Bounce = start;
    let ghost mut states: Seq<S> = seq![init];
    let ghost mut bounces: Seq<Bounce> = Seq::empty();
    let ghost mut events: Seq<Event> = Seq::empty();
    loop
        invariant_except_break
            bounces.len() == events.len(),
            states.len() == events.len() + 1,
            states[0] == init,
            states.last() == state,
            events.len() == 0 ==> bounce == start,
            events.len() > 0 ==> bounces[0] == start && bounces.last().react(events.last())
                == Step::Continue(bounce),
            forall|k: int|
                0 <= k < events.len() ==> #[trigger] ray_was_cast(cast, states, bounces, events, k),
            forall|k: int|
                0 <= k < events.len() - 1 ==> #[trigger] ray_was_followed(bounces, events, k),
            events.len() + ray_limit(bounce) <= ray_limit(start),
        invariant
            forall|s: S, b: Bounce| call_requires(cast, (s, b)),
        ensures
            is_course(cast, start, init, states, bounces, events),
            states.last() == state,
            events.len() <= ray_limit(start),
        decreases ray_limit(bounce),
    {
        let ghost states0 = states;
        let ghost bounces0 = bounces;
        let ghost events0 = events;
        let ghost state0 = state;
        let (next_state, event) = cast(state, bounce);
        state = next_state;
        let step: Step = bounce.step(event);
        proof {
            let n = events0.len() as int;
            states = states0.push(state);
            bounces = bounces0.push(bounce);
            events = events0.push(event);
            assert forall|k: int| 0 <= k < events.len() implies #[trigger] ray_was_cast(
                cast,
                states,
                bounces,
                events,
                k,
            ) by {
                if k < n {
                    assert(ray_was_cast(cast, states0, bounces0, events0, k));
                }
            }
            assert forall|k: int| 0 <= k < events.len() - 1 implies #[trigger] ray_was_followed(
                bounces,
                events,
                k,
            ) by {
                if k < n - 1 {
                    assert(ray_was_followed(bounces0, events0, k));
                }
            }
        }
        match step {
            Step::Continue(next) => {
                bounce = next;
            },
            Step::Stop => {
                break;
            },
        }
    }
    state
}

} // verus!
