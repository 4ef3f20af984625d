//! The frame: where a pixel lies on the screen and in the byte buffer, and
//! what the buffer holds before anything is rendered.

use vstd::prelude::*;
use vstd::arithmetic::div_mod::lemma_div_is_ordered;

verus! {

/// The three bytes that the buffer holds for pixel `(x, y)` before it is
/// rendered: a ramp along `x`, a ramp along `y`, and stripes.
pub open spec fn pattern_at(x: int, y: int, width: int, height: int) -> (u8, u8, u8) {
    ((x * 255 / width) as u8, (y * 255 / height) as u8, ((x + y) % 32 + 32) as u8)
}

/// Where the three bytes of pixel `(x, y)` start in a buffer of rows of `width`.
pub open spec fn offset_of(x: int, y: int, width: int) -> int {
    (x + y * width) * 3
}

/// How far pixel `(ix, iy)` is from the middle of the screen: to the right,
/// and upwards.
pub fn screen_offset(ix: i32, iy: i32, xres: i32, yres: i32) -> (r: (i32, i32))
    requires
        0 <= ix < xres,
        0 <= iy < yres,
    ensures
        r.0 == ix - xres / 2,
        r.1 == yres / 2 - iy,
{
    (ix - xres / 2, -(iy - yres / 2))
}

proof fn lemma_offset_order(x0: int, y0: int, x1: int, y1: int, width: int)
    requires
        0 <= x0 < width,
        0 <= y0,
        0 <= x1 <= width,
        (y0 < y1) || (y0 == y1 && x0 < x1),
    ensures
        0 <= offset_of(x0, y0, width),
        offset_of(x0, y0, width) + 3 <= offset_of(x1, y1, width),
{
    assert(0 <= y0 * width) by (nonlinear_arith)
        requires
            0 <= y0,
            0 <= width,
    ;
    if y0 < y1 {
        assert((y0 + 1) * width <= y1 * width) by (nonlinear_arith)
            requires
                y0 + 1 <= y1,
                0 <= width,
        ;
        assert((y0 + 1) * width == y0 * width + width) by (nonlinear_arith);
    }
}

/// The length of the buffer of a frame, three bytes a pixel, or `None`
/// where no buffer can be that long.
pub fn frame_len(width: usize, height: usize) -> (len: Option<usize>)
    ensures
        len == if 3 * width * height <= usize::MAX {
            Some((3 * width * height) as usize)
        } else {
            None
        },
{
    match width.checked_mul(3) {
        Some(row) => {
            assert(row * height == 3 * width * height) by (nonlinear_arith)
                requires
                    row == width * 3,
            ;
            row.checked_mul(height)
        },
        None => {
            if height == 0 {
                assert(3 * width * height == 0) by (nonlinear_arith)
                    requires
                        height == 0,
                ;
                Some(0)
            } else {
                assert(3 * width * height >= 3 * width) by (nonlinear_arith)
                    requires
                        height >= 1,
                        width >= 0,
                ;
                None
            }
        },
    }
}

/// Where the three bytes of pixel `(x, y)` start in the buffer.
pub fn byte_offset(x: usize, y: usize, width: usize, height: usize) -> (at: usize)
    requires
        x < width,
        y < height,
        3 * width * height <= usize::MAX,
    ensures
        at == offset_of(x as int, y as int, width as int),
        at + 3 <= 3 * width * height,
{
    proof {
        lemma_offset_order(x as int, y as int, width as int, height - 1, width as int);
        assert(((height - 1) * width + width) * 3 == 3 * width * height) by (nonlinear_arith);
        assert(0 <= y * width) by (nonlinear_arith)
            requires
                0 <= y,
                0 <= width,
        ;
    }
    (x + y * width) * 3
}

/// A buffer of `width` by `height` pixels, three bytes each, filled with
/// the pattern that shows until a pixel is rendered.
pub fn test_pattern(width: usize, height: usize) -> (data: Vec<u8>)
    ensures
        data@.len() == 3 * width * height,
        forall|x: int, y: int|
            0 <= x < width && 0 <= y < height ==> {
                let at = #[trigger] offset_of(x, y, width as int);
                (data@[at], data@[at + 1], data@[at + 2]) == pattern_at(
                    x,
                    y,
                    width as int,
                    height as int,
                )
            },
{
    let mut data: Vec<u8> = Vec::new();
    let mut y: usize = 0;
    while y < height
        invariant
            y <= height,
            data@.len() == offset_of(0, y as int, width as int),
            forall|x0: int, y0: int|
                0 <= x0 < width && 0 <= y0 < y ==> {
                    let at = #[trigger] offset_of(x0, y0, width as int);
                    (data@[at], data@[at + 1], data@[at + 2]) == pattern_at(
                        x0,
                        y0,
                        width as int,
                        height as int,
                    )
                },
        decreases height - y,
    {
        let mut x: usize = 0;
        while x < width
            invariant
                y < height,
                x <= width,
                data@.len() == offset_of(x as int, y as int, width as int),
                forall|x0: int, y0: int|
                    0 <= x0 < width && (0 <= y0 < y || (y0 == y && x0 < x)) ==> {
                        let at = #[trigger] offset_of(x0, y0, width as int);
                        (data@[at], data@[at + 1], data@[at + 2]) == pattern_at(
                            x0,
                            y0,
                            width as int,
                            height as int,
                        )
                    },
            decreases width - x,
        {
            proof {
                assert(x * 255 < width * 255);
                lemma_div_is_ordered(x * 255, width * 255 - 1, width as int);
                assert((width * 255 - 1) / (width as int) < 255) by (nonlinear_arith)
                    requires
                        0 < width,
                ;
                assert(0 <= (x * 255) / (width as int)) by (nonlinear_arith)
                    requires
                        0 <= x,
                        0 < width,
                ;
                assert(y * 255 < height * 255);
                lemma_div_is_ordered(y * 255, height * 255 - 1, height as int);
                assert((height * 255 - 1) / (height as int) < 255) by (nonlinear_arith)
                    requires
                        0 < height,
                ;
                assert(0 <= (y * 255) / (height as int)) by (nonlinear_arith)
                    requires
                        0 <= y,
                        0 < height,
                ;
            }
            let ramp_x: u128 = (x as u128) * 255 / (width as u128);
            let ramp_y: u128 = (y as u128) * 255 / (height as u128);
            let stripes: u128 = ((x as u128) + (y as u128)) % 32 + 32;
            let ghost before = data@;
            data.push(ramp_x as u8);
            data.push(ramp_y as u8);
            data.push(stripes as u8);
            proof {
                assert forall|x0: int, y0: int|
                    0 <= x0 < width && (0 <= y0 < y || (y0 == y && x0 < x)) implies 0 <= (
                    #[trigger] offset_of(x0, y0, width as int)) && offset_of(x0, y0, width as int)
                    + 3 <= before.len() by {
                    lemma_offset_order(x0, y0, x as int, y as int, width as int);
                }
            }
            x = x + 1;
        }
        y = y + 1;
        assert(offset_of(width as int, y - 1, width as int) == offset_of(0, y as int, width as int))
            by (nonlinear_arith);
    }
    assert(offset_of(0, height as int, width as int) == 3 * width * height) by (nonlinear_arith);
    data
}

} // verus!
