//! Scene objects: spheres and floors, their stored forms, and the rules by
//! which a ray meets them.

use vstd::prelude::*;
use crate::error::DeserializeError;
use crate::flags::{is_set, INONLY, OUTONLY};
use crate::material::MaterialView;
use crate::registry::{find_name, MaterialRegistry};
use crate::scalar::Scalar;
use crate::vec3::Vec3;

verus! {

/// A sphere: a radius about a centre.
#[derive(Clone, Copy, Debug, PartialEq, Eq, Structural)]
pub struct RenderSphere {
    /// Handle of the material in the registry.
    pub material: usize,
    pub r: Scalar,
    pub org: Vec3,
}

/// A floor: the plane through `org` that faces along `face_normal`.
#[derive(Clone, Copy, Debug, PartialEq, Eq, Structural)]
pub struct RenderFloor {
    /// Handle of the material in the registry.
    pub material: usize,
    pub org: Vec3,
    pub face_normal: Vec3,
}

/// An object of the scene. The set of kinds is closed.
#[derive(Clone, Copy, Debug, PartialEq, Eq, Structural)]
pub enum RenderObject {
    Sphere(RenderSphere),
    Floor(RenderFloor),
}

/// A sphere as it is stored: with the name of its material.
#[derive(Debug)]
pub struct RenderSphereSerial {
    pub material: String,
    pub r: Scalar,
    pub org: Vec3,
}

/// A floor as it is stored: with the name of its material.
#[derive(Debug)]
pub struct RenderFloorSerial {
    pub material: String,
    pub org: Vec3,
    pub face_normal: Vec3,
}

/// An object as it is stored.
#[derive(Debug)]
pub enum RenderObjectSerial {
    Sphere(RenderSphereSerial),
    Floor(RenderFloorSerial),
}

/// A stored object as a plain value.
pub enum SerialView {
    Sphere { material: Seq<char>, r: Scalar, org: Vec3 },
    Floor { material: Seq<char>, org: Vec3, face_normal: Vec3 },
}

impl View for RenderObjectSerial {
    type V = SerialView;

    open spec fn view(&self) -> SerialView {
        match *self {
            RenderObjectSerial::Sphere(s) => SerialView::Sphere {
                material: s.material@,
                r: s.r,
                org: s.org,
            },
            RenderObjectSerial::Floor(f) => SerialView::Floor {
                material: f.material@,
                org: f.org,
                face_normal: f.face_normal,
            },
        }
    }
}

impl Clone for RenderSphereSerial {
    fn clone(&self) -> (c: RenderSphereSerial)
        ensures
            RenderObjectSerial::Sphere(c)@ == RenderObjectSerial::Sphere(*self)@,
    {
        RenderSphereSerial { material: self.material.clone(), r: self.r, org: self.org }
    }
}

impl Clone for RenderFloorSerial {
    fn clone(&self) -> (c: RenderFloorSerial)
        ensures
            RenderObjectSerial::Floor(c)@ == RenderObjectSerial::Floor(*self)@,
    {
        RenderFloorSerial {
            material: self.material.clone(),
            org: self.org,
            face_normal: self.face_normal,
        }
    }
}

impl Clone for RenderObjectSerial {
    fn clone(&self) -> (c: RenderObjectSerial)
        ensures
            c@ == self@,
    {
        match self {
            RenderObjectSerial::Sphere(s) => RenderObjectSerial::Sphere(s.clone()),
            RenderObjectSerial::Floor(f) => RenderObjectSerial::Floor(f.clone()),
        }
    }
}

impl SerialView {
    /// The name by which the stored object refers to its material.
    pub open spec fn material_name(self) -> Seq<char> {
        match self {
            SerialView::Sphere { material, .. } => material,
            SerialView::Floor { material, .. } => material,
        }
    }

    /// The object with `handle` in the place of the name.
    pub open spec fn with_handle(self, handle: int) -> RenderObject {
        match self {
            SerialView::Sphere { r, org, .. } => RenderObject::Sphere(
                RenderSphere { material: handle as usize, r, org },
            ),
            SerialView::Floor { org, face_normal, .. } => RenderObject::Floor(
                RenderFloor { material: handle as usize, org, face_normal },
            ),
        }
    }

    /// What the error says when the registry does not know the name.
    pub open spec fn dangling_message(self) -> Seq<char> {
        match self {
            SerialView::Sphere { material, .. } => "RenderSphere couldn't find material "@
                + material,
            SerialView::Floor { material, .. } => "RenderFloor couldn't find material "@ + material,
        }
    }
}

/// The stored object as an object of a scene whose materials are `reg`, or
/// `None` where `reg` holds no material of that name.
pub open spec fn resolve(sv: SerialView, reg: Seq<MaterialView>) -> Option<RenderObject> {
    match find_name(reg, sv.material_name()) {
        Some(h) => Some(sv.with_handle(h)),
        None => None,
    }
}

/// The stored form of `o` in a scene whose materials are `reg`.
pub open spec fn serial_of(o: RenderObject, reg: Seq<MaterialView>) -> SerialView {
    match o {
        RenderObject::Sphere(s) => SerialView::Sphere {
            material: reg[s.material as int].name,
            r: s.r,
            org: s.org,
        },
        RenderObject::Floor(f) => SerialView::Floor {
            material: reg[f.material as int].name,
            org: f.org,
            face_normal: f.face_normal,
        },
    }
}

/// Where a ray meets a sphere, given the discriminant `d2` of the quadratic
/// and its two roots, `t0` the near one and `t1` the far one.
///
/// A discriminant below the machine epsilon is no hit. The near root counts
/// if the ray is not `OUTONLY`, is not behind the origin and is nearer than
/// `ray_length`; failing that the far root counts if the ray is not
/// `INONLY`, is ahead of the origin and is nearer than `ray_length`. Where
/// neither counts the answer is `ray_length` itself.
pub open spec fn sphere_hit(d2: Scalar, t0: Scalar, t1: Scalar, ray_length: Scalar, flags: u32)
    -> Scalar {
    if Scalar::spec_epsilon().at_most(d2) {
        if !is_set(flags, OUTONLY) && Scalar::zero().at_most(t0) && t0.less(ray_length) {
            t0
        } else if !is_set(flags, INONLY) && Scalar::zero().less(t1) && t1.less(ray_length) {
            t1
        } else {
            ray_length
        }
    } else {
        ray_length
    }
}

/// Where a ray meets a floor, given `w`, the cosine between the face normal
/// and the ray, and `t0`, the distance along the ray to the plane.
///
/// The ray must come from the side that the normal faces (`w <= 0`), the
/// plane must not be behind the origin, and must be nearer than
/// `ray_length`. Otherwise the answer is `ray_length` itself.
pub open spec fn floor_hit(w: Scalar, t0: Scalar, ray_length: Scalar) -> Scalar {
    if w.at_most(Scalar::zero()) && Scalar::zero().at_most(t0) && t0.less(ray_length) {
        t0
    } else {
        ray_length
    }
}

/// A ray that may not take the near root of a sphere takes the far one, if
/// that lies ahead of it and within its length. A ray that starts at the
/// centre of a sphere and leaves it is such a ray: it meets the sphere at
/// the far root, which is the radius.
pub proof fn lemma_outonly_takes_far_root(
    d2: Scalar,
    t0: Scalar,
    t1: Scalar,
    ray_length: Scalar,
    flags: u32,
)
    requires
        Scalar::spec_epsilon().at_most(d2),
        Scalar::zero().less(t1),
        t1.less(ray_length),
        is_set(flags, OUTONLY),
        !is_set(flags, INONLY),
    ensures
        sphere_hit(d2, t0, t1, ray_length, flags) == t1,
{
}

impl RenderSphere {
    pub fn new(material: usize, r: Scalar, org: Vec3) -> (o: RenderObject)
        ensures
            o == RenderObject::Sphere(RenderSphere { material, r, org }),
    {
        RenderObject::Sphere(RenderSphere { material, r, org })
    }

    /// Reads a stored sphere against the registry.
    pub fn deserialize(registry: &MaterialRegistry, serial: &RenderSphereSerial) -> (r: Result<
        RenderObject,
        DeserializeError,
    >)
        ensures
            match r {
                Ok(o) => resolve(RenderObjectSerial::Sphere(*serial)@, registry@) == Some(o),
                Err(e) => resolve(RenderObjectSerial::Sphere(*serial)@, registry@).is_none()
                    && e.s@ == RenderObjectSerial::Sphere(*serial)@.dangling_message(),
            },
    {
        match registry.find(&serial.material) {
            Some(h) => Ok(RenderSphere::new(h, serial.r, serial.org)),
            None => {
                let mut text = "RenderSphere couldn't find material ".to_owned();
                text.append(serial.material.as_str());
                Err(DeserializeError::new(text.as_str()))
            },
        }
    }

    /// The stored form of the sphere.
    pub fn serialize(&self, registry: &MaterialRegistry) -> (s: RenderObjectSerial)
        requires
            self.material < registry@.len(),
        ensures
            s@ == serial_of(RenderObject::Sphere(*self), registry@),
    {
        RenderObjectSerial::Sphere(
            RenderSphereSerial {
                material: registry.get(self.material).get_name().to_owned(),
                r: self.r,
                org: self.org,
            },
        )
    }

    /// Picks the root at which a ray meets a sphere, or hands `ray_length`
    /// back where it meets none nearer than that.
    pub fn raycast(d2: Scalar, t0: Scalar, t1: Scalar, ray_length: Scalar, flags: u32) -> (t:
        Scalar)
        ensures
            t == sphere_hit(d2, t0, t1, ray_length, flags),
            t == ray_length || t.less(ray_length),
    {
        if Scalar::epsilon().le(d2) {
            if !crate::flags::contains(flags, OUTONLY) && Scalar::zero().le(t0) && t0.lt(
                ray_length,
            ) {
                return t0;
            } else if !crate::flags::contains(flags, INONLY) && Scalar::zero().lt(t1) && t1.lt(
                ray_length,
            ) {
                return t1;
            }
        }
        ray_length
    }
}

impl RenderFloor {
    pub fn new(material: usize, org: Vec3, face_normal: Vec3) -> (o: RenderObject)
        ensures
            o == RenderObject::Floor(RenderFloor { material, org, face_normal }),
    {
        RenderObject::Floor(RenderFloor { material, org, face_normal })
    }

    /// Reads a stored floor against the registry.
    pub fn deserialize(registry: &MaterialRegistry, serial: &RenderFloorSerial) -> (r: Result<
        RenderObject,
        DeserializeError,
    >)
        ensures
            match r {
                Ok(o) => resolve(RenderObjectSerial::Floor(*serial)@, registry@) == Some(o),
                Err(e) => resolve(RenderObjectSerial::Floor(*serial)@, registry@).is_none()
                    && e.s@ == RenderObjectSerial::Floor(*serial)@.dangling_message(),
            },
    {
        match registry.find(&serial.material) {
            Some(h) => Ok(RenderFloor::new(h, serial.org, serial.face_normal)),
            None => {
                let mut text = "RenderFloor couldn't find material ".to_owned();
                text.append(serial.material.as_str());
                Err(DeserializeError::new(text.as_str()))
            },
        }
    }

    /// The stored form of the floor.
    pub fn serialize(&self, registry: &MaterialRegistry) -> (s: RenderObjectSerial)
        requires
            self.material < registry@.len(),
        ensures
            s@ == serial_of(RenderObject::Floor(*self), registry@),
    {
        RenderObjectSerial::Floor(
            RenderFloorSerial {
                material: registry.get(self.material).get_name().to_owned(),
                org: self.org,
                face_normal: self.face_normal,
            },
        )
    }

    /// Decides whether a ray meets the floor nearer than `ray_length`, and
    /// hands `ray_length` back where it does not.
    pub fn raycast(w: Scalar, t0: Scalar, ray_length: Scalar) -> (t: Scalar)
        ensures
            t == floor_hit(w, t0, ray_length),
            t == ray_length || t.less(ray_length),
    {
        if w.le(Scalar::zero()) && Scalar::zero().le(t0) && t0.lt(ray_length) {
            t0
        } else {
            ray_length
        }
    }
}

impl RenderObject {
    /// Handle of the object's material.
    pub open spec fn handle(self) -> int {
        match self {
            RenderObject::Sphere(s) => s.material as int,
            RenderObject::Floor(f) => f.material as int,
        }
    }

    /// The same object with another material handle.
    pub open spec fn rehandled(self, handle: int) -> RenderObject {
        match self {
            RenderObject::Sphere(s) => RenderObject::Sphere(
                RenderSphere { material: handle as usize, ..s },
            ),
            RenderObject::Floor(f) => RenderObject::Floor(
                RenderFloor { material: handle as usize, ..f },
            ),
        }
    }

    /// Handle of the object's material.
    pub fn material(&self) -> (h: usize)
        ensures
            h == self.handle(),
    {
        match self {
            RenderObject::Sphere(s) => s.material,
            RenderObject::Floor(f) => f.material,
        }
    }

    /// The stored form of the object.
    pub fn serialize(&self, registry: &MaterialRegistry) -> (s: RenderObjectSerial)
        requires
            self.handle() < registry@.len(),
        ensures
            s@ == serial_of(*self, registry@),
    {
        match self {
            RenderObject::Sphere(s) => s.serialize(registry),
            RenderObject::Floor(f) => f.serialize(registry),
        }
    }

    /// Reads a stored object against the registry. The object is made
    /// exactly where the registry knows the material's name; where it does
    /// not, the error names the kind of object and the material.
    pub fn deserialize(registry: &MaterialRegistry, serial: &RenderObjectSerial) -> (r: Result<
        RenderObject,
        DeserializeError,
    >)
        ensures
            match r {
                Ok(o) => resolve(serial@, registry@) == Some(o),
                Err(e) => resolve(serial@, registry@).is_none() && e.s@
                    == serial@.dangling_message(),
            },
    {
        match serial {
            RenderObjectSerial::Sphere(s) => RenderSphere::deserialize(registry, s),
            RenderObjectSerial::Floor(f) => RenderFloor::deserialize(registry, f),
        }
    }
}

} // verus!
