//! The shading rules: what reaches a surface point from the light, from the
//! surface's own texture, and from behind it.

use vstd::prelude::*;
use crate::env::RenderEnv;
use crate::flags::{INONLY, OUTONLY};
use crate::march::{far_away, FAR_AWAY_BITS, MAX_ITER};
use crate::material::{texture, RenderColor, RenderMaterial};
use crate::scalar::Scalar;
use crate::trace::{Bounce, MAX_REFRACTIONS};

verus! {

/// Pattern of `0.2`: the light that reaches a point in shadow.
pub const AMBIENT_BITS: u32 = 0x3e4c_cccd;

/// The light that reaches every point, lit or not.
pub fn ambient() -> (k: Scalar)
    ensures
        k.bits == AMBIENT_BITS,
{
    Scalar::from_bits(AMBIENT_BITS)
}

/// The material of object `idx` lets light through.
pub open spec fn transparent_at(env: &RenderEnv, idx: int) -> bool {
    Scalar::zero().less(env.materials@[env.objects@[idx].handle()].t)
}

/// A point is lit when the ray from it to the light `t` far meets nothing,
/// or meets an object that lets light through.
pub open spec fn lit_when_traced(env: &RenderEnv, t: Scalar, blocker: int) -> bool {
    Scalar::infinity().at_most(t) || transparent_at(env, blocker)
}

/// A point is lit when the march from it to the light left the scene, ran
/// out of steps, or ended on an object that lets light through.
pub open spec fn lit_when_marched(env: &RenderEnv, travel_dist: Scalar, iter: int, blocker: int)
    -> bool {
    far_away().at_most(travel_dist) || MAX_ITER <= iter || transparent_at(env, blocker)
}

/// The ray that a surface refracts, if it refracts one.
///
/// A surface refracts if it is shallower than `MAX_REFRACTIONS` and its
/// material lets light through. The refracted ray starts a path one level
/// deeper that passes over the surface. `sp` is the cosine between the
/// incoming ray and the normal: a ray that comes against the normal goes on
/// `OUTONLY`, any other `INONLY`.
pub open spec fn refracted(env: &RenderEnv, idx: usize, nest: i32, sp: Scalar) -> Option<Bounce> {
    if nest < MAX_REFRACTIONS && transparent_at(env, idx as int) {
        Some(
            Bounce {
                lev: (nest + 1) as i32,
                flags: if sp.less(Scalar::zero()) {
                    OUTONLY
                } else {
                    INONLY
                },
                ignore: Some(idx),
            },
        )
    } else {
        None
    }
}

/// Tells whether the highlight of the light shows at a point: the material
/// has one, and the mirrored light comes towards the eye.
pub fn highlight_shows(material: &RenderMaterial, reflection_incidence: Scalar) -> (r: bool)
    ensures
        r == (material@.pn != 0 && Scalar::zero().less(reflection_incidence)),
{
    material.has_highlight() && Scalar::zero().lt(reflection_incidence)
}

/// Decides whether a point is lit, from the ray cast towards the light:
/// `t` is how far it went and `blocker` what it met.
pub fn lit_traced(env: &RenderEnv, t: Scalar, blocker: usize) -> (r: bool)
    requires
        env.handles_resolve(),
        blocker < env.objects@.len() || Scalar::infinity().at_most(t),
    ensures
        r == lit_when_traced(env, t, blocker as int),
{
    Scalar::infinity().le(t) || env.material_of(blocker).is_transparent()
}

/// Decides whether a point is lit, from the march towards the light:
/// `travel_dist` is how far it went, `iter` how many steps it took and
/// `blocker` the object nearest to its end.
pub fn lit_marched(env: &RenderEnv, travel_dist: Scalar, iter: usize, blocker: usize) -> (r: bool)
    requires
        env.handles_resolve(),
        blocker < env.objects@.len() || far_away().at_most(travel_dist) || MAX_ITER <= iter,
    ensures
        r == lit_when_marched(env, travel_dist, iter as int, blocker as int),
{
    Scalar::from_bits(FAR_AWAY_BITS).le(travel_dist) || MAX_ITER <= iter || env.material_of(
        blocker,
    ).is_transparent()
}

/// Decides whether the surface of object `idx` refracts a ray at depth
/// `nest`, and how that ray starts.
pub fn refraction(env: &RenderEnv, idx: usize, nest: i32, sp: Scalar) -> (r: Option<Bounce>)
    requires
        env.handles_resolve(),
        idx < env.objects@.len(),
    ensures
        r == refracted(env, idx, nest, sp),
        r matches Some(b) ==> nest < b.lev <= MAX_REFRACTIONS,
{
    if nest < MAX_REFRACTIONS && env.material_of(idx).is_transparent() {
        let flags: u32 = if sp.lt(Scalar::zero()) {
            OUTONLY
        } else {
            INONLY
        };
        Some(Bounce::enter(nest, Some(idx), flags))
    } else {
        None
    }
}

/// Tells whether a ray enters the surface it meets: it runs along the
/// normal. The index of refraction applies as it is to a ray that enters,
/// and inverted to one that leaves.
pub fn enters(sp: Scalar) -> (r: bool)
    ensures
        r == Scalar::zero().less(sp),
{
    Scalar::zero().lt(sp)
}

/// The diffuse colour of object `idx` at a point, through the texture of
/// its material.
pub fn diffuse_at(
    env: &RenderEnv,
    idx: usize,
    ix: i32,
    iy: i32,
    gradation_r: Scalar,
    gradation_g: Scalar,
) -> (c: RenderColor)
    requires
        env.handles_resolve(),
        idx < env.objects@.len(),
    ensures
        c == texture(
            env.materials@[env.objects@[idx as int].handle()],
            ix as int,
            iy as int,
            gradation_r,
            gradation_g,
        ),
{
    env.material_of(idx).lookup_texture(ix, iy, gradation_r, gradation_g)
}

/// The specular colour of object `idx`: that of its material, the same at
/// every point.
pub fn specular_of(env: &RenderEnv, idx: usize) -> (c: RenderColor)
    requires
        env.handles_resolve(),
        idx < env.objects@.len(),
    ensures
        c == env.materials@[env.objects@[idx as int].handle()].specular,
{
    env.material_of(idx).get_specular()
}

/// The depth of refraction is bounded: a refracted ray is deeper than the
/// surface that refracts it, and no surface at `MAX_REFRACTIONS` or deeper
/// refracts.
pub proof fn lemma_refraction_depth(env: &RenderEnv, idx: usize, nest: i32, sp: Scalar)
    ensures
        refracted(env, idx, nest, sp) matches Some(b) ==> nest < b.lev <= MAX_REFRACTIONS,
        nest >= MAX_REFRACTIONS ==> refracted(env, idx, nest, sp).is_none(),
{
}

} // verus!
