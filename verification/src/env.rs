//! The scene environment: camera, light, materials and objects, with the
//! stored form of a scene and the way to and from it.

use vstd::prelude::*;
use crate::error::DeserializeError;
use crate::material::{MaterialView, RenderMaterial};
use crate::object::{serial_of, RenderObject, RenderObjectSerial, SerialView};
use crate::registry::{
    find_name,
    lemma_find_name,
    lemma_find_name_is,
    lemma_registry_of_distinct,
    names_distinct,
    registry_of,
    MaterialRegistry,
};
use crate::scalar::{Scalar, ONE_BITS};
use crate::vec3::Vec3;

verus! {

/// A scene as it is stored: the materials, and the objects with the names
/// of their materials.
#[derive(Debug)]
pub struct Scene {
    pub materials: Vec<RenderMaterial>,
    pub objects: Vec<RenderObjectSerial>,
}

/// A stored scene as a plain value.
pub struct SceneView {
    pub materials: Seq<MaterialView>,
    pub objects: Seq<SerialView>,
}

impl View for Scene {
    type V = SceneView;

    open spec fn view(&self) -> SceneView {
        SceneView {
            materials: Seq::new(self.materials@.len(), |i: int| self.materials@[i]@),
            objects: Seq::new(self.objects@.len(), |i: int| self.objects@[i]@),
        }
    }
}

/// The stored form of a scene: the materials of the registry, all of them
/// and in its order, and every object with the name of its material.
pub open spec fn serialized(reg: Seq<MaterialView>, objs: Seq<RenderObject>) -> SceneView {
    SceneView { materials: reg, objects: Seq::new(objs.len(), |i: int| serial_of(objs[i], reg)) }
}

/// The stored object names a material that `reg` does not hold.
pub open spec fn dangling(sv: SerialView, reg: Seq<MaterialView>) -> bool {
    find_name(reg, sv.material_name()).is_none()
}

/// The handle in `reg` of the material that the stored object names.
pub open spec fn handle_in(sv: SerialView, reg: Seq<MaterialView>) -> int {
    match find_name(reg, sv.material_name()) {
        Some(h) => h,
        None => 0,
    }
}

/// The first `n` stored objects as objects of a scene whose materials are `reg`.
pub open spec fn resolved(objs: Seq<SerialView>, reg: Seq<MaterialView>, n: int) -> Seq<
    RenderObject,
> {
    Seq::new(n as nat, |i: int| objs[i].with_handle(handle_in(objs[i], reg)))
}

/// The place of the first stored object that dangles, if one does.
pub open spec fn first_dangling(objs: Seq<SerialView>, reg: Seq<MaterialView>) -> Option<int>
    decreases objs.len(),
{
    if objs.len() == 0 {
        None
    } else {
        match first_dangling(objs.drop_last(), reg) {
            Some(k) => Some(k),
            None => if dangling(objs.last(), reg) {
                Some(objs.len() - 1)
            } else {
                None
            },
        }
    }
}

/// `first_dangling` gives the first place that dangles, and `None` only
/// where no place does.
pub proof fn lemma_first_dangling(objs: Seq<SerialView>, reg: Seq<MaterialView>)
    ensures
        match first_dangling(objs, reg) {
            Some(k) => 0 <= k < objs.len() && dangling(objs[k], reg) && forall|j: int|
                0 <= j < k ==> !dangling(objs[j], reg),
            None => forall|j: int| 0 <= j < objs.len() ==> !dangling(objs[j], reg),
        },
    decreases objs.len(),
{
    if objs.len() > 0 {
        let front = objs.drop_last();
        lemma_first_dangling(front, reg);
        assert(forall|j: int| 0 <= j < front.len() ==> front[j] == objs[j]);
    }
}

/// A scene environment: what a render pass reads. It is made once for a
/// request and not changed while workers read it.
#[derive(Debug)]
pub struct RenderEnv {
    /// Camera position.
    pub cam: Vec3,
    /// Camera direction as pitch, yaw and roll.
    pub pyr: Vec3,
    pub xres: i32,
    pub yres: i32,
    pub xfov: Scalar,
    pub yfov: Scalar,
    pub materials: MaterialRegistry,
    pub objects: Vec<RenderObject>,
    /// Direction of the light, of unit length.
    pub light: Vec3,
    pub use_raymarching: bool,
    pub use_glow_effect: bool,
    /// Strength of the glow.
    pub glow_effect: Scalar,
}

impl Clone for RenderEnv {
    fn clone(&self) -> (env: RenderEnv)
        ensures
            env.cam == self.cam,
            env.pyr == self.pyr,
            env.xres == self.xres,
            env.yres == self.yres,
            env.xfov == self.xfov,
            env.yfov == self.yfov,
            env.materials@ == self.materials@,
            env.objects@ == self.objects@,
            env.light == self.light,
            env.use_raymarching == self.use_raymarching,
            env.use_glow_effect == self.use_glow_effect,
            env.glow_effect == self.glow_effect,
    {
        self.with_camera(self.cam, self.pyr)
    }
}

impl RenderEnv {
    /// Every object's material handle leads to a material of the registry.
    pub open spec fn handles_resolve(&self) -> bool {
        forall|i: int|
            0 <= i < self.objects@.len() ==> (#[trigger] self.objects@[i]).handle()
                < self.materials@.len()
    }

    /// The environment is well formed: no two materials share a name, and no
    /// handle dangles.
    pub open spec fn wf(&self) -> bool {
        self.materials.wf() && self.handles_resolve()
    }

    /// An environment with the light along `z`, ray tracing, and no glow.
    pub fn new(
        cam: Vec3,
        pyr: Vec3,
        xres: i32,
        yres: i32,
        xfov: Scalar,
        yfov: Scalar,
        materials: MaterialRegistry,
        objects: Vec<RenderObject>,
    ) -> (env: RenderEnv)
        ensures
            env == (RenderEnv {
                cam,
                pyr,
                xres,
                yres,
                xfov,
                yfov,
                materials,
                objects,
                light: Vec3 {
                    x: Scalar::zero(),
                    y: Scalar::zero(),
                    z: Scalar { bits: ONE_BITS },
                },
                use_raymarching: false,
                use_glow_effect: false,
                glow_effect: Scalar { bits: ONE_BITS },
            }),
    {
        RenderEnv {
            cam,
            pyr,
            xres,
            yres,
            xfov,
            yfov,
            materials,
            objects,
            light: Vec3::new(Scalar::zero(), Scalar::zero(), Scalar::one()),
            use_raymarching: false,
            use_glow_effect: false,
            glow_effect: Scalar::one(),
        }
    }

    /// Sets the direction of the light, brought to unit length.
    ///
    /// `unit` is the caller's normaliser: it takes a direction and gives the
    /// direction of length one that points the same way. What is stored is
    /// what `unit` makes of `light`, so that a light of any length shades as
    /// one of unit length. Nothing else changes.
    pub fn light<F: Fn(Vec3) -> Vec3>(self, light: Vec3, unit: F) -> (env: RenderEnv)
        requires
            call_requires(unit, (light,)),
        ensures
            call_ensures(unit, (light,), env.light),
            env == (RenderEnv { light: env.light, ..self }),
    {
        let mut env = self;
        env.light = unit(light);
        env
    }

    pub fn use_raymarching(self, f: bool) -> (env: RenderEnv)
        ensures
            env == (RenderEnv { use_raymarching: f, ..self }),
    {
        let mut env = self;
        env.use_raymarching = f;
        env
    }

    pub fn use_glow_effect(self, f: bool, v: Scalar) -> (env: RenderEnv)
        ensures
            env == (RenderEnv { use_glow_effect: f, glow_effect: v, ..self }),
    {
        let mut env = self;
        env.use_glow_effect = f;
        env.glow_effect = v;
        env
    }

    /// A copy of the environment with the camera elsewhere. The scene, the
    /// light and the modes are those of `self`, which is left as it is: a
    /// request that moves the camera does not disturb another.
    pub fn with_camera(&self, cam: Vec3, pyr: Vec3) -> (env: RenderEnv)
        ensures
            env.cam == cam,
            env.pyr == pyr,
            env.xres == self.xres,
            env.yres == self.yres,
            env.xfov == self.xfov,
            env.yfov == self.yfov,
            env.materials@ == self.materials@,
            env.objects@ == self.objects@,
            env.light == self.light,
            env.use_raymarching == self.use_raymarching,
            env.use_glow_effect == self.use_glow_effect,
            env.glow_effect == self.glow_effect,
            self.wf() ==> env.wf(),
    {
        let mut objects: Vec<RenderObject> = Vec::new();
        let mut i: usize = 0;
        while i < self.objects.len()
            invariant
                i <= self.objects@.len(),
                objects@ == self.objects@.take(i as int),
            decreases self.objects@.len() - i,
        {
            objects.push(self.objects[i]);
            assert(objects@ =~= self.objects@.take(i + 1));
            i = i + 1;
        }
        assert(self.objects@.take(self.objects@.len() as int) =~= self.objects@);
        RenderEnv {
            cam,
            pyr,
            xres: self.xres,
            yres: self.yres,
            xfov: self.xfov,
            yfov: self.yfov,
            materials: self.materials.clone(),
            objects,
            light: self.light,
            use_raymarching: self.use_raymarching,
            use_glow_effect: self.use_glow_effect,
            glow_effect: self.glow_effect,
        }
    }

    /// Tells whether the environment is well formed.
    pub fn is_wf(&self) -> (r: bool)
        ensures
            r == self.wf(),
    {
        if !self.materials.is_wf() {
            return false;
        }
        let n: usize = self.materials.len();
        let mut i: usize = 0;
        while i < self.objects.len()
            invariant
                i <= self.objects@.len(),
                n == self.materials@.len(),
                forall|j: int| 0 <= j < i ==> (#[trigger] self.objects@[j]).handle() < n,
            decreases self.objects@.len() - i,
        {
            if self.objects[i].material() >= n {
                return false;
            }
            i = i + 1;
        }
        true
    }

    /// The material of object `idx`.
    pub fn material_of(&self, idx: usize) -> (m: &RenderMaterial)
        requires
            self.handles_resolve(),
            idx < self.objects@.len(),
        ensures
            m@ == self.materials@[self.objects@[idx as int].handle()],
    {
        self.materials.get(self.objects[idx].material())
    }

    /// The stored form of the scene: every material of the registry, in
    /// its order, and every object with the name of its material.
    pub fn serialize(&self) -> (scene: Scene)
        requires
            self.handles_resolve(),
        ensures
            scene@ == serialized(self.materials@, self.objects@),
    {
        let ghost reg = self.materials@;
        let ghost objs = self.objects@;
        let mut materials: Vec<RenderMaterial> = Vec::new();
        let count: usize = self.materials.len();
        let mut k: usize = 0;
        while k < count
            invariant
                count == reg.len(),
                reg == self.materials@,
                k <= count,
                materials@.len() == k,
                forall|j: int| 0 <= j < k ==> materials@[j]@ == reg[j],
            decreases count - k,
        {
            materials.push(self.materials.get(k).clone());
            k = k + 1;
        }
        let mut objects: Vec<RenderObjectSerial> = Vec::new();
        let mut i: usize = 0;
        while i < self.objects.len()
            invariant
                i <= objs.len(),
                reg == self.materials@,
                objs == self.objects@,
                self.handles_resolve(),
                objects@.len() == i,
                forall|j: int| 0 <= j < i ==> objects@[j]@ == serial_of(objs[j], reg),
            decreases objs.len() - i,
        {
            objects.push(self.objects[i].serialize(&self.materials));
            i = i + 1;
        }
        let scene = Scene { materials, objects };
        proof {
            assert(scene@.materials =~= reg);
            assert(scene@.objects =~= serialized(reg, objs).objects);
        }
        scene
    }

    /// Takes the materials and objects of a stored scene in the place of
    /// those that the environment had.
    ///
    /// The registry becomes the stored materials, a later one of the same
    /// name in the place of an earlier. The objects are read in order. The
    /// first that names a material which the registry does not hold ends the
    /// reading with an error that names it; the objects before it stay. The
    /// camera, the light and the modes are left as they were.
    pub fn deserialize(&mut self, scene: &Scene) -> (r: Result<(), DeserializeError>)
        ensures
            final(self).materials@ == registry_of(scene@.materials),
            match first_dangling(scene@.objects, registry_of(scene@.materials)) {
                None => r is Ok && final(self).objects@ == resolved(
                    scene@.objects,
                    registry_of(scene@.materials),
                    scene@.objects.len() as int,
                ),
                Some(k) => r matches Err(e) && e.s@ == scene@.objects[k].dangling_message()
                    && final(self).objects@ == resolved(
                    scene@.objects,
                    registry_of(scene@.materials),
                    k,
                ),
            },
            final(self).wf(),
            final(self).cam == old(self).cam,
            final(self).pyr == old(self).pyr,
            final(self).xres == old(self).xres,
            final(self).yres == old(self).yres,
            final(self).xfov == old(self).xfov,
            final(self).yfov == old(self).yfov,
            final(self).light == old(self).light,
            final(self).use_raymarching == old(self).use_raymarching,
            final(self).use_glow_effect == old(self).use_glow_effect,
            final(self).glow_effect == old(self).glow_effect,
    {
        let ghost mats = scene@.materials;
        let ghost stored = scene@.objects;
        let mut registry = MaterialRegistry::new();
        let mut i: usize = 0;
        while i < scene.materials.len()
            invariant
                i <= scene.materials@.len(),
                mats == scene@.materials,
                registry@ == registry_of(mats.take(i as int)),
                registry.wf(),
            decreases scene.materials@.len() - i,
        {
            proof {
                assert(mats.take(i + 1).drop_last() =~= mats.take(i as int));
                assert(mats.take(i + 1).last() == mats[i as int]);
            }
            registry.insert(scene.materials[i].clone());
            i = i + 1;
        }
        proof {
            assert(mats.take(mats.len() as int) =~= mats);
        }
        let ghost reg = registry@;
        self.materials = registry;
        self.objects = Vec::new();
        let mut j: usize = 0;
        while j < scene.objects.len()
            invariant
                j <= scene.objects@.len(),
                stored == scene@.objects,
                reg == self.materials@,
                reg == registry_of(scene@.materials),
                self.materials.wf(),
                self.objects@ == resolved(stored, reg, j as int),
                forall|a: int| 0 <= a < j ==> !dangling(stored[a], reg),
                self.handles_resolve(),
                self.cam == old(self).cam,
                self.pyr == old(self).pyr,
                self.xres == old(self).xres,
                self.yres == old(self).yres,
                self.xfov == old(self).xfov,
                self.yfov == old(self).yfov,
                self.light == old(self).light,
                self.use_raymarching == old(self).use_raymarching,
                self.use_glow_effect == old(self).use_glow_effect,
                self.glow_effect == old(self).glow_effect,
            decreases scene.objects@.len() - j,
        {
            proof {
                lemma_first_dangling(stored, reg);
                lemma_find_name(reg, stored[j as int].material_name());
                assert(stored[j as int] == scene.objects@[j as int]@);
            }
            match RenderObject::deserialize(&self.materials, &scene.objects[j]) {
                Ok(o) => {
                    assert(!dangling(stored[j as int], reg));
                    self.objects.push(o);
                    assert(self.objects@ =~= resolved(stored, reg, j + 1));
                },
                Err(e) => {
                    assert(dangling(stored[j as int], reg));
                    assert(first_dangling(stored, reg) == Some(j as int));
                    return Err(e);
                },
            }
            j = j + 1;
        }
        proof {
            lemma_first_dangling(stored, reg);
        }
        Ok(())
    }
}

/// Reading what was written gives the scene back.
///
/// Take a well-formed scene, write it, and read the result. No object
/// dangles. The registry is the one that was written: the same materials
/// under the same names, field for field, those that no object uses among
/// them, each in its place. The objects are the ones that were written, each
/// with its kind, its geometry and its handle.
pub proof fn lemma_round_trip(reg: Seq<MaterialView>, objs: Seq<RenderObject>)
    requires
        names_distinct(reg),
        forall|i: int| 0 <= i < objs.len() ==> 0 <= (#[trigger] objs[i]).handle() < reg.len(),
    ensures
        ({
            let scene = serialized(reg, objs);
            let after = registry_of(scene.materials);
            &&& first_dangling(scene.objects, after).is_none()
            &&& after == reg
            &&& resolved(scene.objects, after, objs.len() as int) == objs
        }),
{
    let scene = serialized(reg, objs);
    lemma_registry_of_distinct(reg);
    let read = resolved(scene.objects, reg, objs.len() as int);
    assert forall|i: int| 0 <= i < objs.len() implies !dangling(#[trigger] scene.objects[i], reg)
        && read[i] == objs[i] by {
        let h = objs[i].handle();
        let name = reg[h].name;
        assert(scene.objects[i] == serial_of(objs[i], reg));
        assert(scene.objects[i].material_name() == name);
        lemma_find_name_is(reg, name, h);
        assert(handle_in(scene.objects[i], reg) == h);
        assert(scene.objects[i].with_handle(h) == objs[i]);
    }
    lemma_first_dangling(scene.objects, reg);
    assert(first_dangling(scene.objects, reg).is_none()) by {
        if first_dangling(scene.objects, reg).is_some() {
            let k = first_dangling(scene.objects, reg).unwrap();
            assert(!dangling(scene.objects[k], reg));
        }
    }
    assert(read =~= objs);
}

} // verus!
