//! Colours and materials.

use vstd::prelude::*;
use crate::scalar::{Scalar, ONE_BITS};

verus! {

/// Red, green and blue. Nominally each in `[0, 1]`; a bright highlight may
/// go beyond.
#[derive(Clone, Copy, Debug, PartialEq, Eq, Structural)]
pub struct RenderColor {
    pub r: Scalar,
    pub g: Scalar,
    pub b: Scalar,
}

impl RenderColor {
    pub open spec fn black() -> RenderColor {
        RenderColor { r: Scalar::zero(), g: Scalar::zero(), b: Scalar::zero() }
    }

    pub open spec fn white() -> RenderColor {
        RenderColor {
            r: Scalar { bits: ONE_BITS },
            g: Scalar { bits: ONE_BITS },
            b: Scalar { bits: ONE_BITS },
        }
    }

    pub fn new(r: Scalar, g: Scalar, b: Scalar) -> (c: RenderColor)
        ensures
            c == (RenderColor { r, g, b }),
    {
        RenderColor { r, g, b }
    }

    /// Black.
    pub fn zero() -> (c: RenderColor)
        ensures
            c == Self::black(),
    {
        RenderColor { r: Scalar::zero(), g: Scalar::zero(), b: Scalar::zero() }
    }
}

/// How a material's diffuse colour varies over a surface.
#[derive(Clone, Copy, Debug, PartialEq, Eq, Structural)]
pub enum RenderPattern {
    Solid,
    Checkerboard,
    RepeatedGradation,
}

/// What a material is, as a plain value.
pub struct MaterialView {
    pub name: Seq<char>,
    pub diffuse: RenderColor,
    pub specular: RenderColor,
    /// Phong exponent; 0 switches the highlight off.
    pub pn: i32,
    /// Transparency, in `[0, 1]`.
    pub t: Scalar,
    /// Refractive index.
    pub n: Scalar,
    pub glow_dist: Scalar,
    /// Refraction tint.
    pub frac: RenderColor,
    pub pattern: RenderPattern,
    pub pattern_scale: Scalar,
}

/// A named material. Objects refer to it by its place in the registry.
#[derive(Debug)]
pub struct RenderMaterial {
    name: String,
    diffuse: RenderColor,
    specular: RenderColor,
    pn: i32,
    t: Scalar,
    n: Scalar,
    glow_dist: Scalar,
    frac: RenderColor,
    pattern: RenderPattern,
    pattern_scale: Scalar,
}

impl View for RenderMaterial {
    type V = MaterialView;

    closed spec fn view(&self) -> MaterialView {
        MaterialView {
            name: self.name@,
            diffuse: self.diffuse,
            specular: self.specular,
            pn: self.pn,
            t: self.t,
            n: self.n,
            glow_dist: self.glow_dist,
            frac: self.frac,
            pattern: self.pattern,
            pattern_scale: self.pattern_scale,
        }
    }
}

impl Clone for RenderMaterial {
    fn clone(&self) -> (m: RenderMaterial)
        ensures
            m@ == self@,
    {
        RenderMaterial {
            name: self.name.clone(),
            diffuse: self.diffuse,
            specular: self.specular,
            pn: self.pn,
            t: self.t,
            n: self.n,
            glow_dist: self.glow_dist,
            frac: self.frac,
            pattern: self.pattern,
            pattern_scale: self.pattern_scale,
        }
    }
}

/// The diffuse colour of material `m` in the texture cell `(ix, iy)`, where
/// `gradation_r` and `gradation_g` are the red and green that the repeated
/// gradation gives at that point.
pub open spec fn texture(
    m: MaterialView,
    ix: int,
    iy: int,
    gradation_r: Scalar,
    gradation_g: Scalar,
) -> RenderColor {
    match m.pattern {
        RenderPattern::Solid => m.diffuse,
        RenderPattern::Checkerboard => if (ix + iy) % 2 == 0 {
            RenderColor::black()
        } else {
            m.diffuse
        },
        RenderPattern::RepeatedGradation => RenderColor {
            r: gradation_r,
            g: gradation_g,
            b: m.diffuse.b,
        },
    }
}

impl RenderMaterial {
    /// A solid material without glow, with a white refraction tint and
    /// pattern scale 1.
    pub fn new(
        name: String,
        diffuse: RenderColor,
        specular: RenderColor,
        pn: i32,
        t: Scalar,
        n: Scalar,
    ) -> (m: RenderMaterial)
        ensures
            m@ == (MaterialView {
                name: name@,
                diffuse,
                specular,
                pn,
                t,
                n,
                glow_dist: Scalar::zero(),
                frac: RenderColor::white(),
                pattern: RenderPattern::Solid,
                pattern_scale: Scalar { bits: ONE_BITS },
            }),
    {
        RenderMaterial {
            name,
            diffuse,
            specular,
            pn,
            t,
            n,
            glow_dist: Scalar::zero(),
            frac: RenderColor::new(Scalar::one(), Scalar::one(), Scalar::one()),
            pattern: RenderPattern::Solid,
            pattern_scale: Scalar::one(),
        }
    }

    pub fn get_name(&self) -> (name: &str)
        ensures
            name@ == self@.name,
    {
        self.name.as_str()
    }

    /// Tells whether the material is called `name`.
    pub fn is_named(&self, name: &String) -> (r: bool)
        ensures
            r == (self@.name == name@),
    {
        self.name == *name
    }

    pub fn glow_dist(self, v: Scalar) -> (m: RenderMaterial)
        ensures
            m@ == (MaterialView { glow_dist: v, ..self@ }),
    {
        let mut m = self;
        m.glow_dist = v;
        m
    }

    pub fn frac(self, frac: RenderColor) -> (m: RenderMaterial)
        ensures
            m@ == (MaterialView { frac, ..self@ }),
    {
        let mut m = self;
        m.frac = frac;
        m
    }

    pub fn pattern(self, pattern: RenderPattern) -> (m: RenderMaterial)
        ensures
            m@ == (MaterialView { pattern, ..self@ }),
    {
        let mut m = self;
        m.pattern = pattern;
        m
    }

    pub fn pattern_scale(self, pattern_scale: Scalar) -> (m: RenderMaterial)
        ensures
            m@ == (MaterialView { pattern_scale, ..self@ }),
    {
        let mut m = self;
        m.pattern_scale = pattern_scale;
        m
    }

    pub fn get_diffuse(&self) -> (c: RenderColor)
        ensures
            c == self@.diffuse,
    {
        self.diffuse
    }

    pub fn get_specular(&self) -> (c: RenderColor)
        ensures
            c == self@.specular,
    {
        self.specular
    }

    pub fn get_phong_number(&self) -> (pn: i32)
        ensures
            pn == self@.pn,
    {
        self.pn
    }

    pub fn get_transparency(&self) -> (t: Scalar)
        ensures
            t == self@.t,
    {
        self.t
    }

    pub fn get_refraction_index(&self) -> (n: Scalar)
        ensures
            n == self@.n,
    {
        self.n
    }

    pub fn get_glow_dist(&self) -> (v: Scalar)
        ensures
            v == self@.glow_dist,
    {
        self.glow_dist
    }

    pub fn get_frac(&self) -> (c: RenderColor)
        ensures
            c == self@.frac,
    {
        self.frac
    }

    pub fn get_pattern(&self) -> (p: RenderPattern)
        ensures
            p == self@.pattern,
    {
        self.pattern
    }

    pub fn get_pattern_scale(&self) -> (s: Scalar)
        ensures
            s == self@.pattern_scale,
    {
        self.pattern_scale
    }

    /// The material lets light through: its transparency is above zero.
    pub fn is_transparent(&self) -> (r: bool)
        ensures
            r == Scalar::zero().less(self@.t),
    {
        Scalar::zero().lt(self.t)
    }

    /// The material has a highlight: its Phong exponent is not zero.
    pub fn has_highlight(&self) -> (r: bool)
        ensures
            r == (self@.pn != 0),
    {
        self.pn != 0
    }

    /// The diffuse colour at a point of the surface.
    ///
    /// The caller has divided the point's `x` and `z` by the pattern scale:
    /// `ix` and `iy` are the quotients cut to integers, the cell of the
    /// checkerboard, and `gradation_r`, `gradation_g` are the red and green
    /// of the repeated gradation there. A solid material takes none of them
    /// into account.
    pub fn lookup_texture(&self, ix: i32, iy: i32, gradation_r: Scalar, gradation_g: Scalar) -> (c:
        RenderColor)
        ensures
            c == texture(self@, ix as int, iy as int, gradation_r, gradation_g),
    {
        match self.pattern {
            RenderPattern::Solid => self.diffuse,
            RenderPattern::Checkerboard => {
                let lifted: i64 = ix as i64 + iy as i64 + 0x1_0000_0000i64;
                if lifted % 2 == 0 {
                    RenderColor::zero()
                } else {
                    self.diffuse
                }
            },
            RenderPattern::RepeatedGradation => RenderColor::new(
                gradation_r,
                gradation_g,
                self.diffuse.b,
            ),
        }
    }
}

} // verus!
