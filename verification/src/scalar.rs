//! IEEE 754 binary32 values held by bit pattern, and their ordering.

use vstd::prelude::*;

verus! {

/// Pattern of the sign bit.
pub const SIGN_BIT: u32 = 0x8000_0000;

/// Pattern of positive infinity. A larger magnitude is not a number.
pub const INFINITY_BITS: u32 = 0x7f80_0000;

/// Pattern of `1.0`.
pub const ONE_BITS: u32 = 0x3f80_0000;

/// Pattern of the machine epsilon, `2^-23`.
pub const EPSILON_BITS: u32 = 0x3400_0000;

/// A binary32 number, identified with its 32-bit pattern.
///
/// `==` on `Scalar` is identity of patterns: it tells `-0.0` from `0.0` and
/// holds of a NaN and itself. Numeric comparison is [`Scalar::lt`],
/// [`Scalar::le`] and [`Scalar::same_value`].
#[derive(Clone, Copy, Debug, PartialEq, Eq, Structural)]
pub struct Scalar {
    pub bits: u32,
}

impl Scalar {
    /// The pattern with the sign bit cleared.
    pub open spec fn magnitude(self) -> int {
        if self.bits >= SIGN_BIT {
            self.bits - SIGN_BIT
        } else {
            self.bits as int
        }
    }

    /// The sign bit is set.
    pub open spec fn sign_negative(self) -> bool {
        self.bits >= SIGN_BIT
    }

    /// The pattern is that of no number.
    pub open spec fn nan(self) -> bool {
        self.magnitude() > INFINITY_BITS
    }

    /// Place on the number line: an integer that grows with the value.
    /// Both zeros have rank 0. Meaningless for a NaN.
    pub open spec fn rank(self) -> int {
        if self.sign_negative() {
            -self.magnitude()
        } else {
            self.magnitude()
        }
    }

    /// `self < other` as IEEE 754 orders them: false if either is a NaN.
    pub open spec fn less(self, other: Scalar) -> bool {
        !self.nan() && !other.nan() && self.rank() < other.rank()
    }

    /// `self <= other` as IEEE 754 orders them: false if either is a NaN.
    pub open spec fn at_most(self, other: Scalar) -> bool {
        !self.nan() && !other.nan() && self.rank() <= other.rank()
    }

    /// `self == other` as numbers: false if either is a NaN, true of the two zeros.
    pub open spec fn equal_value(self, other: Scalar) -> bool {
        !self.nan() && !other.nan() && self.rank() == other.rank()
    }

    /// Zero, with the sign bit clear.
    pub open spec fn spec_zero() -> Scalar {
        Scalar { bits: 0 }
    }

    /// Positive infinity.
    pub open spec fn spec_infinity() -> Scalar {
        Scalar { bits: INFINITY_BITS }
    }

    /// The machine epsilon.
    pub open spec fn spec_epsilon() -> Scalar {
        Scalar { bits: EPSILON_BITS }
    }

    /// The number with the given pattern.
    pub fn from_bits(bits: u32) -> (s: Scalar)
        ensures
            s.bits == bits,
    {
        Scalar { bits }
    }

    /// The pattern of the number.
    pub fn to_bits(self) -> (bits: u32)
        ensures
            bits == self.bits,
    {
        self.bits
    }

    /// Zero.
    #[verifier::when_used_as_spec(spec_zero)]
    pub fn zero() -> (s: Scalar)
        ensures
            s == Self::spec_zero(),
    {
        Scalar { bits: 0 }
    }

    /// Positive infinity.
    #[verifier::when_used_as_spec(spec_infinity)]
    pub fn infinity() -> (s: Scalar)
        ensures
            s == Self::spec_infinity(),
    {
        Scalar { bits: INFINITY_BITS }
    }

    /// One.
    pub fn one() -> (s: Scalar)
        ensures
            s.bits == ONE_BITS,
    {
        Scalar { bits: ONE_BITS }
    }

    /// The machine epsilon.
    #[verifier::when_used_as_spec(spec_epsilon)]
    pub fn epsilon() -> (s: Scalar)
        ensures
            s == Self::spec_epsilon(),
    {
        Scalar { bits: EPSILON_BITS }
    }

    /// Tells whether the pattern is that of no number.
    #[verifier::when_used_as_spec(nan)]
    pub fn is_nan(self) -> (r: bool)
        ensures
            r == self.nan(),
    {
        let m: u32 = if self.bits >= SIGN_BIT {
            self.bits - SIGN_BIT
        } else {
            self.bits
        };
        m > INFINITY_BITS
    }

    fn rank_of(self) -> (r: i64)
        ensures
            r == self.rank(),
    {
        if self.bits >= SIGN_BIT {
            -((self.bits - SIGN_BIT) as i64)
        } else {
            self.bits as i64
        }
    }

    /// Tells whether `self < other`.
    #[verifier::when_used_as_spec(less)]
    pub fn lt(self, other: Scalar) -> (r: bool)
        ensures
            r == self.less(other),
    {
        !self.is_nan() && !other.is_nan() && self.rank_of() < other.rank_of()
    }

    /// Tells whether `self <= other`.
    #[verifier::when_used_as_spec(at_most)]
    pub fn le(self, other: Scalar) -> (r: bool)
        ensures
            r == self.at_most(other),
    {
        !self.is_nan() && !other.is_nan() && self.rank_of() <= other.rank_of()
    }

    /// Tells whether `self == other` as numbers.
    #[verifier::when_used_as_spec(equal_value)]
    pub fn same_value(self, other: Scalar) -> (r: bool)
        ensures
            r == self.equal_value(other),
    {
        !self.is_nan() && !other.is_nan() && self.rank_of() == other.rank_of()
    }
}

/// The order of the numbers is strict: none is below itself, no two are
/// below each other, and what is below something that is below a third is
/// below the third.
pub proof fn lemma_less_is_strict(a: Scalar, b: Scalar, c: Scalar)
    ensures
        !a.less(a),
        a.less(b) ==> !b.less(a),
        a.less(b) && b.less(c) ==> a.less(c),
{
}

/// `<=` is `<` or equal in value; of two numbers one is at most the other;
/// and a NaN compares with nothing, itself included.
pub proof fn lemma_at_most(a: Scalar, b: Scalar)
    ensures
        a.at_most(b) <==> a.less(b) || a.equal_value(b),
        !a.nan() && !b.nan() ==> a.at_most(b) || b.at_most(a),
        a.nan() || b.nan() ==> !a.less(b) && !a.at_most(b) && !a.equal_value(b),
{
}

/// Infinity is above every finite number, and nothing is above infinity.
pub proof fn lemma_infinity_is_greatest(a: Scalar)
    ensures
        !Scalar::spec_infinity().less(a),
        !a.nan() ==> a.at_most(Scalar::spec_infinity()),
{
}

/// The two zeros are equal in value and differ in pattern.
pub proof fn lemma_zeros()
    ensures
        (Scalar { bits: 0 }).equal_value(Scalar { bits: SIGN_BIT }),
        (Scalar { bits: 0 }) != (Scalar { bits: SIGN_BIT }),
{
}

} // verus!
