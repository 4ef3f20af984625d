//! The ray marcher's control: how far a step may go, when a march ends, and
//! what its end means.
//!
//! A march walks along a ray. Each step is as long as the least distance
//! from the point reached to any object, so that no step goes through a
//! surface. The march ends on a surface, far away, or after too many steps;
//! the last is a way out of fields that do not converge, and counts as a
//! miss.

use vstd::prelude::*;
use crate::scalar::Scalar;
use crate::trace::{consider, lemma_nearest, nearest};

verus! {

/// Pattern of `1e-3`: a point nearer than this to an object is on it.
pub const RAYMARCH_EPS_BITS: u32 = 0x3a83_126f;

/// Pattern of `1e4`: a step longer than this leaves the scene.
pub const FAR_AWAY_BITS: u32 = 0x461c_4000;

/// A march takes no more steps than this and one.
pub const MAX_ITER: usize = 10000;

/// The nearness below which a point is on a surface.
pub open spec fn eps() -> Scalar {
    Scalar { bits: RAYMARCH_EPS_BITS }
}

/// The distance beyond which a march has left the scene.
pub open spec fn far_away() -> Scalar {
    Scalar { bits: FAR_AWAY_BITS }
}

/// The least glow so far when an object glows at `glow`: the new one if it
/// is above zero and below the old one, the old one if not.
pub open spec fn dimmer(least: Scalar, glow: Scalar) -> Scalar {
    if Scalar::zero().less(glow) && glow.less(least) {
        glow
    } else {
        least
    }
}

/// The least glow above zero among `glows`, one for each object in order,
/// leaving out the object `ignore`; infinity if there is none.
pub open spec fn least_glow(glows: Seq<Scalar>, ignore: Option<usize>) -> Scalar
    decreases glows.len(),
{
    if glows.len() == 0 {
        Scalar::infinity()
    } else {
        let least = least_glow(glows.drop_last(), ignore);
        if ignore == Some((glows.len() - 1) as usize) {
            least
        } else {
            dimmer(least, glows.last())
        }
    }
}

/// The distances of the pairs.
pub open spec fn distances(fields: Seq<(Scalar, Scalar)>) -> Seq<Scalar> {
    Seq::new(fields.len(), |i: int| fields[i].0)
}

/// The glows of the pairs.
pub open spec fn glows(fields: Seq<(Scalar, Scalar)>) -> Seq<Scalar> {
    Seq::new(fields.len(), |i: int| fields[i].1)
}

/// The least glow is above zero, and no candidate's glow is above zero and
/// below it.
pub proof fn lemma_least_glow(glows: Seq<Scalar>, ignore: Option<usize>)
    ensures
        Scalar::zero().less(least_glow(glows, ignore)),
        forall|i: int|
            0 <= i < glows.len() && ignore != Some(i as usize) && Scalar::zero().less(
                #[trigger] glows[i],
            ) ==> !glows[i].less(least_glow(glows, ignore)),
    decreases glows.len(),
{
    if glows.len() > 0 {
        let front = glows.drop_last();
        lemma_least_glow(front, ignore);
        assert(forall|i: int| 0 <= i < front.len() ==> front[i] == glows[i]);
    }
}

/// Takes the lesser of the least glow so far and a glow, if that is above zero.
pub fn dim(least: Scalar, glow: Scalar) -> (r: Scalar)
    ensures
        r == dimmer(least, glow),
{
    if Scalar::zero().lt(glow) && glow.lt(least) {
        glow
    } else {
        least
    }
}

/// Estimates how far a point is from the scene.
///
/// `fields` holds, for each object in order, its distance from the point
/// and its glow there, the distance times the glow factor of its material.
/// The object `ig` is passed over. The result is the least distance, the
/// object that has it (the first if several do; object 0 and infinity if
/// none is nearer than infinity), and the least glow above zero.
pub fn distance_estimate(fields: &Vec<(Scalar, Scalar)>, ig: Option<usize>) -> (r: (
    Scalar,
    usize,
    Scalar,
))
    ensures
        (r.0, r.1) == nearest(distances(fields@), ig),
        r.2 == least_glow(glows(fields@), ig),
        forall|i: int|
            0 <= i < fields@.len() && ig != Some(i as usize) ==> !(#[trigger] fields@[i]).0.less(
                r.0,
            ),
        r.0.less(Scalar::infinity()) ==> r.1 < fields@.len() && ig != Some(r.1) && fields@[r.1 as int].0
            == r.0,
        !r.0.less(Scalar::infinity()) ==> r.0 == Scalar::infinity() && r.1 == 0,
        Scalar::zero().less(r.2),
        forall|i: int|
            0 <= i < fields@.len() && ig != Some(i as usize) && Scalar::zero().less(
                (#[trigger] fields@[i]).1,
            ) ==> !fields@[i].1.less(r.2),
{
    let count: usize = fields.len();
    proof {
        lemma_nearest(distances(fields@), ig);
        lemma_least_glow(glows(fields@), ig);
        assert forall|i: int|
            0 <= i < fields@.len() && ig != Some(i as usize) implies !(#[trigger] fields@[i]).0.less(
            nearest(distances(fields@), ig).0,
        ) by {
            assert(crate::trace::candidate(distances(fields@), ig, i));
            assert(distances(fields@)[i] == fields@[i].0);
        }
        assert forall|i: int|
            0 <= i < fields@.len() && ig != Some(i as usize) && Scalar::zero().less(
                (#[trigger] fields@[i]).1,
            ) implies !fields@[i].1.less(least_glow(glows(fields@), ig)) by {
            assert(glows(fields@)[i] == fields@[i].1);
        }
    }
    let ghost ds = distances(fields@);
    let ghost gs = glows(fields@);
    let mut closest: (Scalar, usize) = (Scalar::infinity(), 0);
    let mut glowing: Scalar = Scalar::infinity();
    let mut idx: usize = 0;
    while idx < count
        invariant
            count == fields@.len(),
            idx <= count,
            ds == distances(fields@),
            gs == glows(fields@),
            closest == nearest(ds.take(idx as int), ig),
            glowing == least_glow(gs.take(idx as int), ig),
        decreases fields@.len() - idx,
    {
        proof {
            assert(ds.take(idx + 1).drop_last() =~= ds.take(idx as int));
            assert(ds.take(idx + 1).last() == fields@[idx as int].0);
            assert(gs.take(idx + 1).drop_last() =~= gs.take(idx as int));
            assert(gs.take(idx + 1).last() == fields@[idx as int].1);
        }
        let skip: bool = match ig {
            Some(g) => g == idx,
            None => false,
        };
        if !skip {
            let field: (Scalar, Scalar) = fields[idx];
            closest = consider(closest, idx, field.0);
            glowing = dim(glowing, field.1);
        }
        idx = idx + 1;
    }
    proof {
        assert(ds.take(ds.len() as int) =~= ds);
        assert(gs.take(gs.len() as int) =~= gs);
    }
    (closest.0, closest.1, glowing)
}

/// A march ends after a step of length `dist`, its `iter`-th, if the point
/// reached is on a surface, if the step left the scene, or if the steps
/// have run out.
pub open spec fn march_ends(dist: Scalar, iter: int) -> bool {
    dist.less(eps()) || far_away().less(dist) || MAX_ITER < iter
}

/// Where a march stands.
#[derive(Clone, Copy, Debug, PartialEq, Eq, Structural)]
pub struct March {
    /// Steps taken.
    pub iter: usize,
    /// The least glow met on the way.
    pub min_dist: Scalar,
}

impl March {
    /// The march after a step of length `dist` from a point where the least
    /// glow was `glowing`.
    pub open spec fn stepped(self, glowing: Scalar) -> March {
        March {
            iter: (self.iter + 1) as usize,
            min_dist: if glowing.less(self.min_dist) {
                glowing
            } else {
                self.min_dist
            },
        }
    }

    /// A march that has taken no step and met no glow.
    pub fn start() -> (m: March)
        ensures
            m == (March { iter: 0, min_dist: Scalar::infinity() }),
    {
        March { iter: 0, min_dist: Scalar::infinity() }
    }

    /// Records a step and tells whether the march ends with it.
    pub fn advance(self, dist: Scalar, glowing: Scalar) -> (r: (March, bool))
        requires
            self.iter < usize::MAX,
        ensures
            r.0 == self.stepped(glowing),
            r.1 == march_ends(dist, self.iter + 1),
            !r.1 ==> r.0.iter <= MAX_ITER,
    {
        let iter: usize = self.iter + 1;
        let min_dist: Scalar = if glowing.lt(self.min_dist) {
            glowing
        } else {
            self.min_dist
        };
        let ends: bool = dist.lt(Scalar::from_bits(RAYMARCH_EPS_BITS)) || Scalar::from_bits(
            FAR_AWAY_BITS,
        ).lt(dist) || MAX_ITER < iter;
        (March { iter, min_dist }, ends)
    }
}

/// Tells whether a march ended on a surface: its last step was shorter than
/// the nearness that counts as touching. Every other end is a miss.
pub fn on_surface(final_dist: Scalar) -> (r: bool)
    ensures
        r == final_dist.less(eps()),
{
    final_dist.lt(Scalar::from_bits(RAYMARCH_EPS_BITS))
}

/// The lesser of the least glow of a path so far and that of its last march.
pub fn least_of(so_far: Scalar, seen: Scalar) -> (r: Scalar)
    ensures
        r == if seen.less(so_far) {
            seen
        } else {
            so_far
        },
{
    if seen.lt(so_far) {
        seen
    } else {
        so_far
    }
}

/// Tells whether the glow brightens a pixel: the effect is switched on and
/// the path has come near something that glows.
pub fn glow_applies(use_glow_effect: bool, min_dist: Scalar) -> (r: bool)
    ensures
        r == (use_glow_effect && !min_dist.equal_value(Scalar::infinity())),
{
    use_glow_effect && !min_dist.same_value(Scalar::infinity())
}

/// The number of steps that a march takes after its first `iter` when the
/// steps that follow are as long as `dists` say, one for each in turn.
pub open spec fn steps_taken(iter: nat, dists: Seq<Scalar>) -> nat
    decreases dists.len(),
{
    if dists.len() == 0 {
        0
    } else if march_ends(dists[0], iter + 1int) {
        1
    } else {
        1 + steps_taken(iter + 1, dists.drop_first())
    }
}

/// The step limit: whatever the field, a march takes at most `MAX_ITER + 1`
/// steps in all.
pub proof fn lemma_step_limit(iter: nat, dists: Seq<Scalar>)
    requires
        iter <= MAX_ITER,
    ensures
        iter + steps_taken(iter, dists) <= MAX_ITER + 1,
    decreases dists.len(),
{
    if dists.len() > 0 && !march_ends(dists[0], iter + 1int) {
        lemma_step_limit(iter + 1, dists.drop_first());
    }
}

/// The `k`-th step of a march was taken by `step`: from the state before
/// it came the state after it, its length, and the least glow where it
/// started.
pub open spec fn step_was_taken<S, F: Fn(S) -> (S, Scalar, Scalar)>(
    step: F,
    states: Seq<S>,
    dists: Seq<Scalar>,
    glows: Seq<Scalar>,
    k: int,
) -> bool {
    call_ensures(step, (states[k],), (states[k + 1], dists[k], glows[k]))
}

/// The `k`-th step of a march did not end it.
pub open spec fn step_went_on(dists: Seq<Scalar>, k: int) -> bool {
    !march_ends(dists[k], k + 1)
}

/// The least of the glows met, one for each step in turn; infinity if none
/// is below infinity.
pub open spec fn least_seen(glows: Seq<Scalar>) -> Scalar
    decreases glows.len(),
{
    if glows.len() == 0 {
        Scalar::infinity()
    } else {
        let before = least_seen(glows.drop_last());
        if glows.last().less(before) {
            glows.last()
        } else {
            before
        }
    }
}

/// The course of a march that `step` has taken from `init`: the state
/// before each step and after the last, the length of each step, and the
/// glow met at each. Every step was taken by `step`, none but the last
/// ended the march, and the last did.
pub open spec fn is_march<S, F: Fn(S) -> (S, Scalar, Scalar)>(
    step: F,
    init: S,
    states: Seq<S>,
    dists: Seq<Scalar>,
    glows: Seq<Scalar>,
) -> bool {
    &&& dists.len() >= 1
    &&& glows.len() == dists.len()
    &&& states.len() == dists.len() + 1
    &&& states[0] == init
    &&& forall|k: int|
        0 <= k < dists.len() ==> #[trigger] step_was_taken(step, states, dists, glows, k)
    &&& forall|k: int| 0 <= k < dists.len() - 1 ==> #[trigger] step_went_on(dists, k)
    &&& march_ends(dists.last(), dists.len() as int)
}

/// The step limit holds of every march: it has at most `MAX_ITER + 1`
/// steps, whatever their lengths.
pub proof fn lemma_march_limit<S, F: Fn(S) -> (S, Scalar, Scalar)>(
    step: F,
    init: S,
    states: Seq<S>,
    dists: Seq<Scalar>,
    glows: Seq<Scalar>,
)
    requires
        is_march(step, init, states, dists, glows),
    ensures
        dists.len() <= MAX_ITER + 1,
{
    let n = dists.len() as int;
    if n >= 2 {
        assert(step_went_on(dists, n - 2));
    }
}

/// Marches to the end.
///
/// `step` takes one step: from the state of the march it gives the state
/// after the step, the length of the step, and the least glow at the point
/// where the step started. The march starts in `init` and ends on a
/// surface, far away, or when the steps have run out, which they do after
/// `MAX_ITER + 1` of them whatever `step` returns. The result is the state
/// after the last step, the count of the steps with the least glow met, and
/// the length of the last step.
pub fn walk<S, F: Fn(S) -> (S, Scalar, Scalar)>(init: S, step: F) -> (out: (S, March, Scalar))
    requires
        forall|s: S| call_requires(step, (s,)),
    ensures
        exists|states: Seq<S>, dists: Seq<Scalar>, glows: Seq<Scalar>|
            #[trigger] is_march(step, init, states, dists, glows) && states.last() == out.0
                && out.1 == (March { iter: dists.len() as usize, min_dist: least_seen(glows) })
                && dists.last() == out.2 && dists.len() <= MAX_ITER + 1,
{
    let mut state: S = init;
    let mut march: March = March::start();
    let mut last: Scalar = Scalar::zero();
    let ghost mut states: Seq<S> = seq![init];
    let ghost mut dists: Seq<Scalar> = Seq::empty();
    let ghost mut glows: Seq<Scalar> = Seq::empty();
    loop
        invariant_except_break
            glows.len() == dists.len(),
            states.len() == dists.len() + 1,
            states[0] == init,
            states.last() == state,
            march == (March { iter: dists.len() as usize, min_dist: least_seen(glows) }),
            dists.len() <= MAX_ITER,
            forall|k: int|
                0 <= k < dists.len() ==> #[trigger] step_was_taken(step, states, dists, glows, k),
            forall|k: int| 0 <= k < dists.len() ==> #[trigger] step_went_on(dists, k),
        invariant
            forall|s: S| call_requires(step, (s,)),
        ensures
            is_march(step, init, states, dists, glows),
            states.last() == state,
            march == (March { iter: dists.len() as usize, min_dist: least_seen(glows) }),
            dists.last() == last,
            dists.len() <= MAX_ITER + 1,
        decreases MAX_ITER + 1 - dists.len(),
    {
        let ghost states0 = states;
        let ghost dists0 = dists;
        let ghost glows0 = glows;
        let (next_state, dist, glowing) = step(state);
        state = next_state;
        let (next_march, ends) = march.advance(dist, glowing);
        march = next_march;
        last = dist;
        proof {
            let n = dists0.len() as int;
            states = states0.push(state);
            dists = dists0.push(dist);
            glows = glows0.push(glowing);
            assert(glows.drop_last() =~= glows0);
            assert forall|k: int| 0 <= k < dists.len() implies #[trigger] step_was_taken(
                step,
                states,
                dists,
                glows,
                k,
            ) by {
                if k < n {
                    assert(step_was_taken(step, states0, dists0, glows0, k));
                }
            }
            assert forall|k: int| 0 <= k < dists.len() - 1 implies #[trigger] step_went_on(
                dists,
                k,
            ) by {
                assert(step_went_on(dists0, k));
            }
            if !ends {
                assert(step_went_on(dists, n));
            }
        }
        if ends {
            break;
        }
    }
    (state, march, last)
}

} // verus!
