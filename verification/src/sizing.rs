//! Frame sizes: the box a frame is scaled into, the rows of a scaled image, and
//! which decoder and how many threads a clip of a given size gets.

use vstd::prelude::*;

verus! {

/// Frames larger than this decode faster on the GPU than on the CPU, so both
/// the grid and playback ask for a hardware decoder above it and stay on the
/// CPU at or below it. It sits just above 1080p-class frames.
pub const HW_MIN_PIXELS: u64 = 2_100_000;

/// Cap on frame-decoding threads for playback. Frame threading delays the first
/// output by roughly the thread count, and throughput saturates well before a
/// large machine's core count.
pub const PLAYBACK_THREADS: usize = 6;

/// The largest even number that is at most `x`, but at least two.
pub open spec fn even_side(x: int) -> int {
    if x < 2 {
        2
    } else {
        x - x % 2
    }
}

/// The size of a `w` by `h` frame fitted into a box whose long side is `long`:
/// the aspect is kept and both sides are even.
pub open spec fn fitted(w: int, h: int, long: int) -> (int, int) {
    if w >= h {
        (even_side(long), even_side(long * h / w))
    } else {
        (even_side(long * w / h), even_side(long))
    }
}

fn even(x: u32) -> (r: u32)
    ensures
        r == even_side(x as int),
{
    if x < 2 {
        2
    } else {
        x - x % 2
    }
}

/// `long * short / whole` for a short side that is at most the whole.
fn scaled(long: u32, short: u32, whole: u32) -> (r: u32)
    requires
        0 < whole,
        short <= whole,
    ensures
        r == long * short / whole as int,
        r <= long,
{
    assert(long * short <= 0xffff_ffff * 0xffff_ffff) by (nonlinear_arith)
        requires
            0 <= long <= 0xffff_ffff,
            0 <= short <= 0xffff_ffff,
    ;
    let x: u64 = long as u64 * short as u64;
    proof {
        assert(0 <= x / whole as u64 <= long) by (nonlinear_arith)
            requires
                x == long * short,
                0 <= short <= whole,
                0 < whole,
                long >= 0,
        ;
    }
    (x / whole as u64) as u32
}

/// Fit into a box whose long side is `long`, preserving aspect, even dimensions.
pub fn thumb_size(w: u32, h: u32, long: u32) -> (size: (u32, u32))
    requires
        w > 0 || h > 0,
    ensures
        (size.0 as int, size.1 as int) == fitted(w as int, h as int, long as int),
{
    if w >= h {
        (even(long), even(scaled(long, h, w)))
    } else {
        (even(scaled(long, w, h)), even(long))
    }
}

/// The longer of the two sides.
pub open spec fn long_side_of(w: int, h: int) -> int {
    if w >= h {
        w
    } else {
        h
    }
}

/// The size frames of a `w` by `h` source are scaled to when the view asks for
/// a long side of `asked`: capped at the source's own, past which scaling would
/// only invent pixels.
pub open spec fn playback_size(w: int, h: int, asked: int) -> (int, int) {
    let cap = long_side_of(w, h);
    fitted(
        w,
        h,
        if asked <= cap {
            asked
        } else {
            cap
        },
    )
}

/// The size playback scales to for a long side of `asked`.
pub fn output_size(w: u32, h: u32, asked: u32) -> (size: (u32, u32))
    requires
        w > 0 || h > 0,
    ensures
        (size.0 as int, size.1 as int) == playback_size(w as int, h as int, asked as int),
{
    let cap: u32 = if w >= h {
        w
    } else {
        h
    };
    thumb_size(
        w,
        h,
        if asked <= cap {
            asked
        } else {
            cap
        },
    )
}

/// Whether a frame of this size is decoded on the GPU where there is one.
pub fn wants_gpu(w: u32, h: u32) -> (gpu: bool)
    ensures
        gpu == (w * h > HW_MIN_PIXELS),
{
    assert(w * h <= 0xffff_ffff * 0xffff_ffff) by (nonlinear_arith)
        requires
            0 <= w <= 0xffff_ffff,
            0 <= h <= 0xffff_ffff,
    ;
    w as u64 * h as u64 > HW_MIN_PIXELS
}

/// How many frame threads playback decodes with, given the parallelism the
/// machine reports, if it reports any.
pub fn playback_threads(available: Option<usize>) -> (n: usize)
    ensures
        n == match available {
            Some(a) => if a <= PLAYBACK_THREADS {
                a
            } else {
                PLAYBACK_THREADS
            },
            None => 1,
        },
{
    match available {
        Some(a) => if a <= PLAYBACK_THREADS {
            a
        } else {
            PLAYBACK_THREADS
        },
        None => 1,
    }
}

/// The visible part of an image whose rows are padded to `stride` bytes: the
/// first `row` bytes of each of its first `rows` rows, one after the other.
pub open spec fn visible(data: Seq<u8>, stride: int, row: int, rows: int) -> Seq<u8>
    decreases rows,
{
    if rows <= 0 {
        Seq::empty()
    } else {
        visible(data, stride, row, rows - 1) + data.subrange(
            (rows - 1) * stride,
            (rows - 1) * stride + row,
        )
    }
}

/// Whether `data` holds the visible part of each of the rows.
pub open spec fn holds_rows(data: Seq<u8>, stride: int, row: int, rows: int) -> bool {
    rows > 0 ==> (rows - 1) * stride + row <= data.len()
}

/// Copy the visible width of each row out of an image whose rows are padded to
/// `stride` bytes.
pub fn strip_rows(data: &[u8], stride: usize, row: usize, rows: usize) -> (out: Vec<u8>)
    requires
        holds_rows(data@, stride as int, row as int, rows as int),
    ensures
        out@ == visible(data@, stride as int, row as int, rows as int),
{
    let mut out: Vec<u8> = Vec::new();
    let mut y: usize = 0;
    let mut start: usize = 0;
    while y < rows
        invariant
            y <= rows,
            y < rows ==> start == y * stride,
            holds_rows(data@, stride as int, row as int, rows as int),
            out@ == visible(data@, stride as int, row as int, y as int),
        decreases rows - y,
    {
        proof {
            assert(start + row <= data.len()) by (nonlinear_arith)
                requires
                    start == y * stride,
                    y < rows,
                    stride >= 0,
                    (rows - 1) * stride + row <= data.len(),
            ;
        }
        out.extend_from_slice(vstd::slice::slice_subrange(data, start, start + row));
        y = y + 1;
        if y < rows {
            proof {
                assert(start + stride == y * stride && start + stride <= data.len())
                    by (nonlinear_arith)
                    requires
                        start == (y - 1) * stride,
                        y < rows,
                        stride >= 0,
                        row >= 0,
                        (rows - 1) * stride + row <= data.len(),
                ;
            }
            start = start + stride;
        }
        assert(out@ =~= visible(data@, stride as int, row as int, y as int));
    }
    out
}

/// Stripping keeps every visible byte in its place: byte `x` of row `y` is byte
/// `x` of row `y` of the padded image, and nothing else is kept.
pub proof fn stripping_keeps_every_visible_byte(
    data: Seq<u8>,
    stride: int,
    row: int,
    rows: int,
    x: int,
    y: int,
)
    requires
        0 <= stride,
        0 <= x < row,
        0 <= y < rows,
        holds_rows(data, stride, row, rows),
    ensures
        visible(data, stride, row, rows).len() == rows * row,
        0 <= y * row + x < rows * row,
        visible(data, stride, row, rows)[y * row + x] == data[y * stride + x],
    decreases rows,
{
    lemma_visible_len(data, stride, row, rows);
    assert(0 <= y * row + x < rows * row) by (nonlinear_arith)
        requires
            0 <= x < row,
            0 <= y < rows,
    ;
    if y < rows - 1 {
        assert((rows - 2) * stride <= (rows - 1) * stride) by (nonlinear_arith)
            requires
                0 <= stride,
        ;
        lemma_visible_len(data, stride, row, rows - 1);
        assert(y * row + x < (rows - 1) * row) by (nonlinear_arith)
            requires
                0 <= x < row,
                0 <= y < rows - 1,
        ;
        stripping_keeps_every_visible_byte(data, stride, row, rows - 1, x, y);
    } else {
        assert(y == rows - 1);
        assert((rows - 1) * stride >= 0 && (rows - 2) * stride <= (rows - 1) * stride)
            by (nonlinear_arith)
            requires
                0 <= stride,
                rows >= 1,
        ;
        lemma_visible_len(data, stride, row, rows - 1);
    }
}

proof fn lemma_visible_len(data: Seq<u8>, stride: int, row: int, rows: int)
    requires
        0 <= stride,
        0 <= row,
        0 <= rows,
        holds_rows(data, stride, row, rows),
    ensures
        visible(data, stride, row, rows).len() == rows * row,
    decreases rows,
{
    if rows > 0 {
        assert((rows - 1) * stride >= 0 && (rows - 2) * stride <= (rows - 1) * stride)
            by (nonlinear_arith)
            requires
                0 <= stride,
                rows >= 1,
        ;
        lemma_visible_len(data, stride, row, rows - 1);
        assert((rows - 1) * row + row == rows * row) by (nonlinear_arith);
    } else {
        assert(rows * row == 0) by (nonlinear_arith)
            requires
                rows == 0,
        ;
    }
}

/// A fitted frame has even sides of at least two, its long side is that of the
/// box, and it stays inside the box, whatever the source.
pub proof fn fitted_frames_fill_their_box(w: int, h: int, long: int)
    requires
        w >= 0,
        h >= 0,
        w > 0 || h > 0,
        long >= 0,
    ensures
        fitted(w, h, long).0 % 2 == 0,
        fitted(w, h, long).1 % 2 == 0,
        2 <= fitted(w, h, long).0 <= even_side(long),
        2 <= fitted(w, h, long).1 <= even_side(long),
        long_side_of(fitted(w, h, long).0, fitted(w, h, long).1) == even_side(long),
{
    let (s, b) = if w >= h {
        (h, w)
    } else {
        (w, h)
    };
    assert(0 <= long * s / b <= long) by (nonlinear_arith)
        requires
            0 <= s <= b,
            b > 0,
            long >= 0,
    ;
}

/// Frames are never scaled past their source: whatever long side is asked for,
/// neither side of the output exceeds the source's (or two pixels, the least a
/// side can be).
pub proof fn playback_never_invents_pixels(w: int, h: int, asked: int)
    requires
        w >= 0,
        h >= 0,
        w > 0 || h > 0,
        asked >= 0,
    ensures
        playback_size(w, h, asked).0 <= even_side(w),
        playback_size(w, h, asked).1 <= even_side(h),
{
    let (s, b) = if w >= h {
        (h, w)
    } else {
        (w, h)
    };
    let long = if asked <= b {
        asked
    } else {
        b
    };
    assert(0 <= long * s / b <= s) by (nonlinear_arith)
        requires
            0 <= s <= b,
            b > 0,
            0 <= long <= b,
    ;
}

/// A fitted frame keeps its aspect: its long side is that of the box, rounded down
/// to an even number, and its short side is the even number at or next below what
/// the aspect asks for, unless that is under two.
pub proof fn a_fitted_frame_keeps_its_aspect(w: int, h: int, long: int)
    requires
        w >= 0,
        h >= 0,
        w > 0 || h > 0,
        long >= 2,
    ensures
        ({
            let (a, b) = fitted(w, h, long);
            &&& a % 2 == 0 && b % 2 == 0
            &&& w >= h ==> long - 1 <= a <= long && (b == 2 && long * h < 4 * w || b * w <= long * h
                < (b + 2) * w)
            &&& w < h ==> long - 1 <= b <= long && (a == 2 && long * w < 4 * h || a * h <= long * w
                < (a + 2) * h)
        }),
{
    let (s, b) = if w >= h {
        (h, w)
    } else {
        (w, h)
    };
    let x = long * s;
    let q = x / b;
    vstd::arithmetic::div_mod::lemma_fundamental_div_mod(x, b);
    vstd::arithmetic::div_mod::lemma_mod_bound(x, b);
    assert(b * q == q * b) by (nonlinear_arith);
    let e = even_side(q);
    assert(0 <= q) by (nonlinear_arith)
        requires
            x == b * q + x % b,
            x >= 0,
            x % b < b,
            b > 0,
    ;
    assert(x >= 0) by (nonlinear_arith)
        requires
            x == long * s,
            long >= 0,
            s >= 0,
    ;
    if q < 4 {
        assert(x < 4 * b) by (nonlinear_arith)
            requires
                x < q * b + b,
                q <= 3,
                b > 0,
        ;
    }
    if q >= 2 {
        assert(e * b <= q * b && q * b + b <= (e + 2) * b) by (nonlinear_arith)
            requires
                e <= q <= e + 1,
                b > 0,
        ;
    }
}

/// A box too small for two pixels still gives a frame of two by two.
pub proof fn the_smallest_frame_is_two_by_two(w: int, h: int, long: int)
    requires
        w >= 0,
        h >= 0,
        w > 0 || h > 0,
        0 <= long < 2,
    ensures
        fitted(w, h, long) == (2int, 2int),
{
    let (s, b) = if w >= h {
        (h, w)
    } else {
        (w, h)
    };
    assert(long * s / b < 2) by (nonlinear_arith)
        requires
            0 <= s <= b,
            0 < b,
            0 <= long < 2,
    ;
}

/// A square box of a frame's own long side gives the frame back, but for odd
/// sides and sides under two.
pub proof fn a_frame_fits_its_own_size(w: int, h: int)
    requires
        w >= 0,
        h >= 0,
        w > 0 || h > 0,
    ensures
        fitted(w, h, if w >= h { w } else { h }).0 == if w < 2 {
            2
        } else {
            w - w % 2
        },
        fitted(w, h, if w >= h { w } else { h }).1 == if h < 2 {
            2
        } else {
            h - h % 2
        },
{
    if w >= h {
        assert(w * h / w == h) by (nonlinear_arith)
            requires
                w > 0,
        ;
    } else {
        assert(h * w / h == w) by (nonlinear_arith)
            requires
                h > 0,
        ;
    }
}

/// Playback scales to the long side asked for, up to the source's own; past that
/// asking for more changes nothing.
pub proof fn playback_scales_up_to_the_source(w: int, h: int, asked: int)
    requires
        w >= 0,
        h >= 0,
        w > 0 || h > 0,
        asked >= 0,
    ensures
        asked <= w || asked <= h ==> playback_size(w, h, asked) == fitted(w, h, asked),
        asked >= w && asked >= h && w >= h ==> playback_size(w, h, asked) == fitted(w, h, w),
        asked >= w && asked >= h && h >= w ==> playback_size(w, h, asked) == fitted(w, h, h),
{
}

} // verus!
