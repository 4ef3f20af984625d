//! Frame scheduler: which worker renders which scanline, where it keeps the
//! pixels, and how the image is put together again.
//!
//! Rows are dealt out in turn: worker `w` of `n` renders rows `w`, `w + n`,
//! `w + 2n`, ... into a buffer of its own, one scanline after the other. No
//! two workers share a row, so no pixel is written twice and the workers
//! need no lock. The image is assembled in raster order, whatever the number
//! of workers and whichever finished first.

use vstd::prelude::*;
use vstd::arithmetic::div_mod::{
    lemma_fundamental_div_mod,
    lemma_fundamental_div_mod_converse,
};

verus! {

/// Scanlines in each worker's buffer: `yres / workers`, rounded up.
pub open spec fn scanlines_spec(yres: int, workers: int) -> int {
    (yres + workers - 1) / workers
}

/// The image row that `worker` renders in its turn number `turn`.
pub open spec fn row_of(worker: int, turn: int, workers: int) -> int {
    worker + turn * workers
}

/// Where a worker keeps pixel `x` of the scanline of its turn `turn`.
pub open spec fn slot_of(x: int, turn: int, xres: int) -> int {
    x + turn * xres
}

/// A frame has a width and a height that are not negative, and at least one worker.
pub open spec fn valid_frame(xres: int, yres: int, workers: int) -> bool {
    0 <= xres <= i32::MAX && 0 <= yres <= i32::MAX && 1 <= workers <= i32::MAX
}

/// A worker's buffer after its run: one slot for each pixel of each of its
/// turns, holding what `pixel` returned for that pixel, or `blank` where the
/// turn falls below the last row of the image.
pub open spec fn worker_ran<T, F: Fn(i32, i32) -> T>(
    buf: Seq<T>,
    worker: int,
    xres: int,
    yres: int,
    workers: int,
    blank: T,
    pixel: F,
) -> bool {
    &&& buf.len() == xres * scanlines_spec(yres, workers)
    &&& forall|turn: int, x: int|
        0 <= turn < scanlines_spec(yres, workers) && 0 <= x < xres ==> if row_of(
            worker,
            turn,
            workers,
        ) < yres {
            call_ensures(
                pixel,
                (x as i32, row_of(worker, turn, workers) as i32),
                buf[#[trigger] slot_of(x, turn, xres)],
            )
        } else {
            buf[slot_of(x, turn, xres)] == blank
        }
}

/// A worker's buffer holds the colour `f(x, y)` for each pixel of its rows.
pub open spec fn worker_holds<T>(
    buf: Seq<T>,
    worker: int,
    xres: int,
    yres: int,
    workers: int,
    f: spec_fn(int, int) -> T,
) -> bool {
    &&& buf.len() == xres * scanlines_spec(yres, workers)
    &&& forall|turn: int, x: int|
        0 <= turn < scanlines_spec(yres, workers) && 0 <= x < xres && row_of(worker, turn, workers)
            < yres ==> buf[#[trigger] slot_of(x, turn, xres)] == f(
            x,
            row_of(worker, turn, workers),
        )
}

/// There is one buffer for each worker, each of the length that the frame asks for.
pub open spec fn buffers_fit<T>(buffers: Seq<Vec<T>>, xres: int, yres: int, workers: int) -> bool {
    &&& buffers.len() == workers
    &&& forall|w: int|
        0 <= w < workers ==> (#[trigger] buffers[w])@.len() == xres * scanlines_spec(yres, workers)
}

/// The image in raster order, each pixel with its coordinates, read out of
/// the workers' buffers.
pub open spec fn assembled<T>(buffers: Seq<Vec<T>>, xres: int, yres: int, workers: int) -> Seq<
    (i32, i32, T),
> {
    Seq::new(
        (xres * yres) as nat,
        |i: int|
            (
                (i % xres) as i32,
                (i / xres) as i32,
                buffers[(i / xres) % workers]@[slot_of(i % xres, (i / xres) / workers, xres)],
            ),
    )
}

/// The image of the pixel function `f` in raster order, each pixel with its coordinates.
pub open spec fn raster<T>(f: spec_fn(int, int) -> T, xres: int, yres: int) -> Seq<(i32, i32, T)> {
    Seq::new(
        (xres * yres) as nat,
        |i: int| ((i % xres) as i32, (i / xres) as i32, f(i % xres, i / xres)),
    )
}

proof fn lemma_scanlines(yres: int, workers: int)
    requires
        0 <= yres,
        1 <= workers,
    ensures
        scanlines_spec(yres, workers) == yres / workers + if yres % workers == 0 {
            0int
        } else {
            1int
        },
        0 <= scanlines_spec(yres, workers) <= yres,
        (scanlines_spec(yres, workers) - 1) * workers < yres || yres == 0,
        yres <= scanlines_spec(yres, workers) * workers,
{
    let q = yres / workers;
    let r = yres % workers;
    lemma_fundamental_div_mod(yres, workers);
    assert(yres == workers * q + r);
    assert(0 <= q) by (nonlinear_arith)
        requires
            yres == workers * q + r,
            0 <= r < workers,
            0 <= yres,
    ;
    assert(q <= yres) by (nonlinear_arith)
        requires
            yres == workers * q + r,
            0 <= r,
            1 <= workers,
            0 <= q,
    ;
    if r == 0 {
        lemma_fundamental_div_mod_converse(yres + workers - 1, workers, q, workers - 1);
        assert(q * workers == yres) by (nonlinear_arith)
            requires
                yres == workers * q + r,
                r == 0,
        ;
        assert((q - 1) * workers == yres - workers) by (nonlinear_arith)
            requires
                q * workers == yres,
        ;
    } else {
        assert(yres + workers - 1 == workers * (q + 1) + (r - 1)) by (nonlinear_arith)
            requires
                yres == workers * q + r,
        ;
        lemma_fundamental_div_mod_converse(yres + workers - 1, workers, q + 1, r - 1);
        assert(q + 1 <= yres) by (nonlinear_arith)
            requires
                yres == workers * q + r,
                1 <= r,
                1 <= workers,
                0 <= q,
        ;
        assert(q * workers < yres && yres <= (q + 1) * workers) by (nonlinear_arith)
            requires
                yres == workers * q + r,
                1 <= r < workers,
        ;
    }
}

/// Number of scanlines in each worker's buffer.
pub fn scanlines(yres: i32, thread_count: i32) -> (n: i32)
    requires
        0 <= yres,
        1 <= thread_count,
    ensures
        n == scanlines_spec(yres as int, thread_count as int),
        0 <= n <= yres,
{
    proof {
        lemma_scanlines(yres as int, thread_count as int);
    }
    let q: i32 = yres / thread_count;
    let r: i32 = yres % thread_count;
    if r == 0 {
        q
    } else {
        q + 1
    }
}

/// The row that `worker` renders in turn `turn`, or `None` where that turn
/// falls below the last row of the image.
pub fn assigned_row(worker: i32, turn: i32, yres: i32, thread_count: i32) -> (row: Option<i32>)
    requires
        0 <= worker < thread_count,
        0 <= turn,
        0 <= yres,
    ensures
        row == if row_of(worker as int, turn as int, thread_count as int) < yres {
            Some(row_of(worker as int, turn as int, thread_count as int) as i32)
        } else {
            None
        },
{
    assert(0 <= turn * thread_count <= 0x7fff_ffff * 0x7fff_ffff) by (nonlinear_arith)
        requires
            0 <= turn <= 0x7fff_ffff,
            0 <= thread_count <= 0x7fff_ffff,
    ;
    let far: i64 = (turn as i64) * (thread_count as i64) + (worker as i64);
    if far < yres as i64 {
        Some(far as i32)
    } else {
        None
    }
}

/// The worker that renders `row`, and the turn in which it does.
pub fn owner_of(row: i32, thread_count: i32) -> (owner: (i32, i32))
    requires
        0 <= row,
        1 <= thread_count,
    ensures
        owner.0 == row as int % thread_count as int,
        owner.1 == row as int / thread_count as int,
        0 <= owner.0 < thread_count,
        0 <= owner.1,
        row_of(owner.0 as int, owner.1 as int, thread_count as int) == row,
{
    proof {
        lemma_fundamental_div_mod(row as int, thread_count as int);
        let q = row as int / thread_count as int;
        let r = row as int % thread_count as int;
        assert(0 <= q) by (nonlinear_arith)
            requires
                row == thread_count * q + r,
                0 <= r < thread_count,
                0 <= row,
        ;
        assert(thread_count * q == q * thread_count) by (nonlinear_arith);
    }
    (row % thread_count, row / thread_count)
}

/// Runs one worker: renders its rows, in turn, into a fresh buffer.
///
/// `pixel` is called once for each pixel of each row of the worker, row by
/// row and from left to right, and for no other pixel. Slots of a turn that
/// falls below the image hold `blank`.
pub fn render_worker<T: Copy, F: Fn(i32, i32) -> T>(
    worker: i32,
    xres: i32,
    yres: i32,
    thread_count: i32,
    blank: T,
    pixel: F,
) -> (buf: Vec<T>)
    requires
        0 <= worker < thread_count,
        0 <= xres,
        0 <= yres,
        forall|x: i32, y: i32| 0 <= x < xres && 0 <= y < yres ==> call_requires(pixel, (x, y)),
    ensures
        worker_ran(
            buf@,
            worker as int,
            xres as int,
            yres as int,
            thread_count as int,
            blank,
            pixel,
        ),
{
    let turns: i32 = scanlines(yres, thread_count);
    let mut buf: Vec<T> = Vec::new();
    let mut turn: i32 = 0;
    while turn < turns
        invariant
            0 <= worker < thread_count,
            0 <= xres,
            0 <= yres,
            turns == scanlines_spec(yres as int, thread_count as int),
            0 <= turn <= turns,
            forall|x: i32, y: i32| 0 <= x < xres && 0 <= y < yres ==> call_requires(pixel, (x, y)),
            buf@.len() == xres * turn,
            forall|t: int, x: int|
                0 <= t < turn && 0 <= x < xres ==> if row_of(
                    worker as int,
                    t,
                    thread_count as int,
                ) < yres {
                    call_ensures(
                        pixel,
                        (x as i32, row_of(worker as int, t, thread_count as int) as i32),
                        buf@[#[trigger] slot_of(x, t, xres as int)],
                    )
                } else {
                    buf@[slot_of(x, t, xres as int)] == blank
                },
        decreases turns - turn,
    {
        let row: Option<i32> = assigned_row(worker, turn, yres, thread_count);
        let mut x: i32 = 0;
        assert(xres * turn == turn * xres) by (nonlinear_arith);
        while x < xres
            invariant
                0 <= worker < thread_count,
                0 <= xres,
                0 <= yres,
                0 <= turn < turns,
                0 <= x <= xres,
                row == if row_of(worker as int, turn as int, thread_count as int) < yres {
                    Some(row_of(worker as int, turn as int, thread_count as int) as i32)
                } else {
                    None
                },
                forall|x: i32, y: i32|
                    0 <= x < xres && 0 <= y < yres ==> call_requires(pixel, (x, y)),
                buf@.len() == slot_of(x as int, turn as int, xres as int),
                forall|t: int, x0: int|
                    (0 <= t < turn && 0 <= x0 < xres) || (t == turn && 0 <= x0 < x) ==> if row_of(
                        worker as int,
                        t,
                        thread_count as int,
                    ) < yres {
                        call_ensures(
                            pixel,
                            (x0 as i32, row_of(worker as int, t, thread_count as int) as i32),
                            buf@[#[trigger] slot_of(x0, t, xres as int)],
                        )
                    } else {
                        buf@[slot_of(x0, t, xres as int)] == blank
                    },
            decreases xres - x,
        {
            let ghost before = buf@;
            let c: T = match row {
                Some(y) => pixel(x, y),
                None => blank,
            };
            buf.push(c);
            proof {
                assert forall|t: int, x0: int|
                    (0 <= t < turn && 0 <= x0 < xres) || (t == turn && 0 <= x0 < x) implies 0
                    <= #[trigger] slot_of(x0, t, xres as int) < before.len() by {
                    lemma_slot_order(x0, t, x as int, turn as int, xres as int);
                }
            }
            x = x + 1;
        }
        turn = turn + 1;
        assert(xres * turn == slot_of(xres as int, turn - 1, xres as int)) by (nonlinear_arith)
            requires
                0 <= xres,
        ;
    }
    buf
}

/// Slots are laid out turn by turn, and within a turn from left to right.
proof fn lemma_slot_order(x0: int, t0: int, x1: int, t1: int, xres: int)
    requires
        0 <= x0 < xres,
        0 <= t0,
        0 <= x1 <= xres,
        (t0 < t1) || (t0 == t1 && x0 < x1),
    ensures
        0 <= slot_of(x0, t0, xres) < slot_of(x1, t1, xres),
{
    assert(0 <= t0 * xres) by (nonlinear_arith)
        requires
            0 <= t0,
            0 <= xres,
    ;
    if t0 < t1 {
        assert((t0 + 1) * xres <= t1 * xres) by (nonlinear_arith)
            requires
                t0 + 1 <= t1,
                0 <= xres,
        ;
        assert((t0 + 1) * xres == t0 * xres + xres) by (nonlinear_arith);
    }
}

/// Puts the image together: every pixel of the frame once, in raster order,
/// each taken from the buffer of the worker that rendered its row.
pub fn gather<T: Copy>(buffers: &Vec<Vec<T>>, xres: i32, yres: i32, thread_count: i32) -> (image:
    Vec<(i32, i32, T)>)
    requires
        0 <= xres,
        0 <= yres,
        1 <= thread_count,
        buffers_fit(buffers@, xres as int, yres as int, thread_count as int),
    ensures
        image@ == assembled(buffers@, xres as int, yres as int, thread_count as int),
{
    let ghost whole = assembled(buffers@, xres as int, yres as int, thread_count as int);
    let mut image: Vec<(i32, i32, T)> = Vec::new();
    let mut y: i32 = 0;
    while y < yres
        invariant
            0 <= xres,
            0 <= yres,
            1 <= thread_count,
            0 <= y <= yres,
            buffers_fit(buffers@, xres as int, yres as int, thread_count as int),
            whole == assembled(buffers@, xres as int, yres as int, thread_count as int),
            image@.len() == y * xres,
            forall|i: int| 0 <= i < image@.len() ==> image@[i] == whole[i],
        decreases yres - y,
    {
        let (w, turn) = owner_of(y, thread_count);
        proof {
            lemma_scanlines(yres as int, thread_count as int);
            let n = scanlines_spec(yres as int, thread_count as int);
            assert(turn < n) by (nonlinear_arith)
                requires
                    w + turn * thread_count == y,
                    0 <= w,
                    y < yres,
                    yres <= n * thread_count,
                    1 <= thread_count,
            ;
        }
        let buf: &Vec<T> = &buffers[w as usize];
        let mut x: i32 = 0;
        while x < xres
            invariant
                0 <= xres,
                0 <= yres,
                1 <= thread_count,
                0 <= y < yres,
                0 <= x <= xres,
                0 <= w < thread_count,
                w == y as int % thread_count as int,
                turn == y as int / thread_count as int,
                0 <= turn < scanlines_spec(yres as int, thread_count as int),
                buffers_fit(buffers@, xres as int, yres as int, thread_count as int),
                *buf == buffers@[w as int],
                whole == assembled(buffers@, xres as int, yres as int, thread_count as int),
                image@.len() == y * xres + x,
                forall|i: int| 0 <= i < image@.len() ==> image@[i] == whole[i],
            decreases xres - x,
        {
            proof {
                let n = scanlines_spec(yres as int, thread_count as int);
                lemma_slot_order(x as int, turn as int, xres as int, n - 1, xres as int);
                assert((n - 1) * xres + xres == xres * n) by (nonlinear_arith);
                assert(0 <= turn * xres) by (nonlinear_arith)
                    requires
                        0 <= turn,
                        0 <= xres,
                ;
            }
            let len: usize = buf.len();
            assert(turn * xres + x < len);
            let slot: usize = (turn as usize) * (xres as usize) + (x as usize);
            let c: T = buf[slot];
            proof {
                let i = y * xres + x;
                assert(i == xres * y + x) by (nonlinear_arith)
                    requires
                        i == y * xres + x,
                ;
                lemma_fundamental_div_mod_converse(i, xres as int, y as int, x as int);
                assert(i < xres * yres) by (nonlinear_arith)
                    requires
                        i == xres * y + x,
                        0 <= x < xres,
                        0 <= y < yres,
                ;
                assert(whole[i] == (x, y, c));
            }
            image.push((x, y, c));
            x = x + 1;
        }
        y = y + 1;
        assert(y * xres == (y - 1) * xres + xres) by (nonlinear_arith);
    }
    assert(image@.len() == whole.len()) by (nonlinear_arith)
        requires
            image@.len() == y * xres,
            y == yres,
            whole.len() == xres * yres,
    ;
    assert(image@ =~= whole);
    image
}

/// A frame whose pixels are what `pixel` returned for them: every pixel of
/// the frame once, in raster order, each with its coordinates.
pub open spec fn rendered<T, F: Fn(i32, i32) -> T>(
    image: Seq<(i32, i32, T)>,
    xres: int,
    yres: int,
    pixel: F,
) -> bool {
    &&& image.len() == xres * yres
    &&& forall|i: int|
        0 <= i < image.len() ==> {
            &&& (#[trigger] image[i]).0 == i % xres
            &&& image[i].1 == i / xres
            &&& call_ensures(pixel, (image[i].0, image[i].1), image[i].2)
        }
}

/// A frame rendered by a pixel function that always returns `f(x, y)` is
/// the raster image of `f`. The number of workers does not come into it:
/// two frames of one scene, rendered by any two numbers of workers, are the
/// same pixel for pixel.
pub proof fn lemma_rendered_is_raster<T, F: Fn(i32, i32) -> T>(
    image: Seq<(i32, i32, T)>,
    xres: int,
    yres: int,
    pixel: F,
    f: spec_fn(int, int) -> T,
)
    requires
        0 <= xres <= i32::MAX,
        0 <= yres <= i32::MAX,
        rendered(image, xres, yres, pixel),
        forall|x: i32, y: i32, c: T|
            0 <= x < xres && 0 <= y < yres && call_ensures(pixel, (x, y), c) ==> c == f(
                x as int,
                y as int,
            ),
    ensures
        image == raster(f, xres, yres),
{
    let r = raster(f, xres, yres);
    assert forall|i: int| 0 <= i < image.len() implies image[i] == r[i] by {
        assert(0 < xres) by (nonlinear_arith)
            requires
                0 <= i < xres * yres,
                0 <= xres,
                0 <= yres,
        ;
        let x = i % xres;
        let y = i / xres;
        lemma_fundamental_div_mod(i, xres);
        assert(0 <= y < yres) by (nonlinear_arith)
            requires
                i == xres * y + x,
                0 <= x < xres,
                0 <= i < xres * yres,
        ;
        assert(call_ensures(pixel, (image[i].0, image[i].1), image[i].2));
    }
    assert(image =~= r);
}

/// Renders a frame: the workers run one after the other, each over its own
/// rows, and the image is put together from their buffers.
///
/// `pixel` is called once for every pixel of the frame and the image holds
/// what it returned, in raster order, whatever the number of workers. A
/// caller with threads to spare runs the workers side by side instead, each
/// through `render_worker`, and puts the image together with `gather`.
pub fn render<T: Copy, F: Fn(i32, i32) -> T>(
    xres: i32,
    yres: i32,
    thread_count: i32,
    blank: T,
    pixel: &F,
) -> (image: Vec<(i32, i32, T)>)
    requires
        0 <= xres,
        0 <= yres,
        1 <= thread_count,
        forall|x: i32, y: i32| 0 <= x < xres && 0 <= y < yres ==> call_requires(*pixel, (x, y)),
    ensures
        rendered(image@, xres as int, yres as int, *pixel),
{
    let mut buffers: Vec<Vec<T>> = Vec::new();
    let mut worker: i32 = 0;
    while worker < thread_count
        invariant
            0 <= xres,
            0 <= yres,
            1 <= thread_count,
            0 <= worker <= thread_count,
            buffers@.len() == worker,
            forall|x: i32, y: i32|
                0 <= x < xres && 0 <= y < yres ==> call_requires(*pixel, (x, y)),
            forall|w: int|
                0 <= w < worker ==> worker_ran(
                    (#[trigger] buffers@[w])@,
                    w,
                    xres as int,
                    yres as int,
                    thread_count as int,
                    blank,
                    pixel,
                ),
        decreases thread_count - worker,
    {
        let buf: Vec<T> = render_worker(worker, xres, yres, thread_count, blank, pixel);
        buffers.push(buf);
        worker = worker + 1;
    }
    let image = gather(&buffers, xres, yres, thread_count);
    proof {
        assert forall|i: int| 0 <= i < image@.len() implies {
            &&& (#[trigger] image@[i]).0 == i % (xres as int)
            &&& image@[i].1 == i / (xres as int)
            &&& call_ensures(*pixel, (image@[i].0, image@[i].1), image@[i].2)
        } by {
            assert(0 < xres) by (nonlinear_arith)
                requires
                    0 <= i < xres * yres,
                    0 <= xres,
                    0 <= yres,
            ;
            let x = i % (xres as int);
            let y = i / (xres as int);
            lemma_fundamental_div_mod(i, xres as int);
            assert(0 <= y < yres) by (nonlinear_arith)
                requires
                    i == xres * y + x,
                    0 <= x < xres,
                    0 <= i < xres * yres,
            ;
            lemma_row_has_one_owner(yres as int, thread_count as int, y);
            let w = y % (thread_count as int);
            let turn = y / (thread_count as int);
            assert(worker_ran(
                buffers@[w]@,
                w,
                xres as int,
                yres as int,
                thread_count as int,
                blank,
                pixel,
            ));
            assert(call_ensures(
                pixel,
                (x as i32, row_of(w, turn, thread_count as int) as i32),
                buffers@[w]@[slot_of(x, turn, xres as int)],
            ));
        }
    }
    image
}

/// Every row of the image belongs to one worker and one of its turns, and
/// to no other: the rows of two workers never meet.
pub proof fn lemma_row_has_one_owner(yres: int, workers: int, row: int)
    requires
        0 <= row < yres,
        1 <= workers,
    ensures
        0 <= row % workers < workers,
        0 <= row / workers < scanlines_spec(yres, workers),
        row_of(row % workers, row / workers, workers) == row,
        forall|w: int, turn: int|
            0 <= w < workers && #[trigger] row_of(w, turn, workers) == row ==> w == row % workers
                && turn == row / workers,
{
    lemma_fundamental_div_mod(row, workers);
    lemma_scanlines(yres, workers);
    let q = row / workers;
    let r = row % workers;
    let n = scanlines_spec(yres, workers);
    assert(workers * q == q * workers) by (nonlinear_arith);
    assert(0 <= q < n) by (nonlinear_arith)
        requires
            row == workers * q + r,
            0 <= r < workers,
            0 <= row < yres,
            yres <= n * workers,
    ;
    assert forall|w: int, turn: int|
        0 <= w < workers && #[trigger] row_of(w, turn, workers) == row implies w == r && turn
        == q by {
        assert(row == workers * turn + w) by (nonlinear_arith)
            requires
                row == w + turn * workers,
        ;
        lemma_fundamental_div_mod_converse(row, workers, turn, w);
    }
}

/// A buffer that a worker filled by calling a pixel function that always
/// returns `f(x, y)` holds `f` on the worker's rows.
pub proof fn lemma_worker_holds<T, F: Fn(i32, i32) -> T>(
    buf: Seq<T>,
    worker: int,
    xres: int,
    yres: int,
    workers: int,
    blank: T,
    pixel: F,
    f: spec_fn(int, int) -> T,
)
    requires
        valid_frame(xres, yres, workers),
        0 <= worker < workers,
        worker_ran(buf, worker, xres, yres, workers, blank, pixel),
        forall|x: i32, y: i32, c: T|
            0 <= x < xres && 0 <= y < yres && call_ensures(pixel, (x, y), c) ==> c == f(
                x as int,
                y as int,
            ),
    ensures
        worker_holds(buf, worker, xres, yres, workers, f),
{
    assert forall|turn: int, x: int|
        0 <= turn < scanlines_spec(yres, workers) && 0 <= x < xres && row_of(worker, turn, workers)
            < yres implies buf[#[trigger] slot_of(x, turn, xres)] == f(
        x,
        row_of(worker, turn, workers),
    ) by {
        let row = row_of(worker, turn, workers);
        assert(0 <= turn * workers) by (nonlinear_arith)
            requires
                0 <= turn,
                1 <= workers,
        ;
        assert(call_ensures(pixel, (x as i32, row as i32), buf[slot_of(x, turn, xres)]));
    }
}

/// Where every worker's buffer holds the pixel function `f` on its rows, the
/// assembled image is the raster image of `f`.
pub proof fn lemma_assembled_is_raster<T>(
    buffers: Seq<Vec<T>>,
    xres: int,
    yres: int,
    workers: int,
    f: spec_fn(int, int) -> T,
)
    requires
        valid_frame(xres, yres, workers),
        buffers.len() == workers,
        forall|w: int|
            0 <= w < workers ==> worker_holds((#[trigger] buffers[w])@, w, xres, yres, workers, f),
    ensures
        assembled(buffers, xres, yres, workers) == raster(f, xres, yres),
{
    let a = assembled(buffers, xres, yres, workers);
    let r = raster(f, xres, yres);
    assert forall|i: int| 0 <= i < a.len() implies a[i] == r[i] by {
        assert(0 < xres) by (nonlinear_arith)
            requires
                0 <= i < xres * yres,
                0 <= xres,
                0 <= yres,
        ;
        let x = i % xres;
        let y = i / xres;
        lemma_fundamental_div_mod(i, xres);
        assert(0 <= y < yres) by (nonlinear_arith)
            requires
                i == xres * y + x,
                0 <= x < xres,
                0 <= i < xres * yres,
        ;
        lemma_row_has_one_owner(yres, workers, y);
        let w = y % workers;
        let turn = y / workers;
        assert(worker_holds(buffers[w]@, w, xres, yres, workers, f));
        assert(buffers[w]@[slot_of(x, turn, xres)] == f(x, row_of(w, turn, workers)));
    }
    assert(a =~= r);
}

/// The assembled image does not depend on the number of workers: two runs
/// over the same pixel function, with any two worker counts, assemble the
/// same image, pixel for pixel.
pub proof fn lemma_thread_count_irrelevant<T>(
    one: Seq<Vec<T>>,
    workers_one: int,
    other: Seq<Vec<T>>,
    workers_other: int,
    xres: int,
    yres: int,
    f: spec_fn(int, int) -> T,
)
    requires
        valid_frame(xres, yres, workers_one),
        valid_frame(xres, yres, workers_other),
        one.len() == workers_one,
        other.len() == workers_other,
        forall|w: int|
            0 <= w < workers_one ==> worker_holds(
                (#[trigger] one[w])@,
                w,
                xres,
                yres,
                workers_one,
                f,
            ),
        forall|w: int|
            0 <= w < workers_other ==> worker_holds(
                (#[trigger] other[w])@,
                w,
                xres,
                yres,
                workers_other,
                f,
            ),
    ensures
        assembled(one, xres, yres, workers_one) == assembled(other, xres, yres, workers_other),
{
    lemma_assembled_is_raster(one, xres, yres, workers_one, f);
    lemma_assembled_is_raster(other, xres, yres, workers_other, f);
}

} // verus!
