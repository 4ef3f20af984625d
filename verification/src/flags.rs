//! Ray flags: which root of an intersection a ray may take, and which
//! colour channels it leaves alone.

use vstd::prelude::*;

verus! {

/// The ray leaves a surface: the near root of a sphere is not taken.
pub const OUTONLY: u32 = 1;

/// The ray enters a surface: the far root of a sphere is not taken.
pub const INONLY: u32 = 2;

/// The red channel is left alone.
pub const RIGNORE: u32 = 4;

/// The green channel is left alone.
pub const GIGNORE: u32 = 8;

/// The blue channel is left alone.
pub const BIGNORE: u32 = 16;

/// One of the three colour channels.
#[derive(Clone, Copy, Debug, PartialEq, Eq, Structural)]
pub enum Channel {
    Red,
    Green,
    Blue,
}

impl Channel {
    /// The flag that switches this channel off.
    pub open spec fn ignore_flag(self) -> u32 {
        match self {
            Channel::Red => RIGNORE,
            Channel::Green => GIGNORE,
            Channel::Blue => BIGNORE,
        }
    }
}

/// `flag` is set in `flags`.
pub open spec fn is_set(flags: u32, flag: u32) -> bool {
    flags & flag != 0
}

/// `flags` with the side bits replaced: `OUTONLY` alone if `outward`,
/// `INONLY` alone if not. The channel bits stay.
pub open spec fn with_side(flags: u32, outward: bool) -> u32 {
    if outward {
        (flags & !INONLY) | OUTONLY
    } else {
        (flags & !OUTONLY) | INONLY
    }
}

/// Tells whether `flag` is set in `flags`.
#[verifier::when_used_as_spec(is_set)]
pub fn contains(flags: u32, flag: u32) -> (r: bool)
    ensures
        r == is_set(flags, flag),
{
    flags & flag != 0
}

/// Tells whether a ray with these flags adds to and attenuates `channel`.
pub fn channel_active(flags: u32, channel: Channel) -> (r: bool)
    ensures
        r == !is_set(flags, channel.ignore_flag()),
{
    match channel {
        Channel::Red => flags & RIGNORE == 0,
        Channel::Green => flags & GIGNORE == 0,
        Channel::Blue => flags & BIGNORE == 0,
    }
}

/// Sets the side bits for a ray that has just bounced: outward if it now
/// points out of the surface, inward if not.
pub fn set_side(flags: u32, outward: bool) -> (r: u32)
    ensures
        r == with_side(flags, outward),
{
    if outward {
        (flags & !INONLY) | OUTONLY
    } else {
        (flags & !OUTONLY) | INONLY
    }
}

/// After `set_side` exactly one side bit is set, the one asked for, and
/// every other bit is as it was.
pub proof fn lemma_set_side(flags: u32, outward: bool)
    ensures
        is_set(with_side(flags, outward), OUTONLY) == outward,
        is_set(with_side(flags, outward), INONLY) == !outward,
        with_side(flags, outward) & !(OUTONLY | INONLY) == flags & !(OUTONLY | INONLY),
        is_set(with_side(flags, outward), RIGNORE) == is_set(flags, RIGNORE),
        is_set(with_side(flags, outward), GIGNORE) == is_set(flags, GIGNORE),
        is_set(with_side(flags, outward), BIGNORE) == is_set(flags, BIGNORE),
{
    let out = (flags & !2u32) | 1u32;
    let inw = (flags & !1u32) | 2u32;
    assert(out & 1u32 != 0 && out & 2u32 == 0 && out & !(1u32 | 2u32) == flags & !(1u32 | 2u32)
        && out & 4u32 == flags & 4u32 && out & 8u32 == flags & 8u32 && out & 16u32 == flags
        & 16u32) by (bit_vector)
        requires
            out == (flags & !2u32) | 1u32,
    ;
    assert(inw & 2u32 != 0 && inw & 1u32 == 0 && inw & !(1u32 | 2u32) == flags & !(1u32 | 2u32)
        && inw & 4u32 == flags & 4u32 && inw & 8u32 == flags & 8u32 && inw & 16u32 == flags
        & 16u32) by (bit_vector)
        requires
            inw == (flags & !1u32) | 2u32,
    ;
}

/// Setting the side twice is setting it once, to the later choice.
pub proof fn lemma_set_side_overrides(flags: u32, first: bool, second: bool)
    ensures
        with_side(with_side(flags, first), second) == with_side(flags, second),
{
    assert(((flags & !2u32) | 1u32) & !2u32 | 1u32 == (flags & !2u32) | 1u32) by (bit_vector);
    assert(((flags & !1u32) | 2u32) & !2u32 | 1u32 == (flags & !2u32) | 1u32) by (bit_vector);
    assert(((flags & !2u32) | 1u32) & !1u32 | 2u32 == (flags & !1u32) | 2u32) by (bit_vector);
    assert(((flags & !1u32) | 2u32) & !1u32 | 2u32 == (flags & !1u32) | 2u32) by (bit_vector);
}

} // verus!
