//! The media clock: stream timestamps as nanoseconds from the start of the
//! stream, and the seek targets and frame durations derived from them.

use vstd::prelude::*;

verus! {

/// Nanoseconds in one second.
pub const NS_PER_S: i64 = 1_000_000_000;

/// How far before the requested time to aim a seek, in microseconds. A picked
/// thumbnail sits exactly on a keyframe, so aiming a hair earlier makes the
/// backward seek land on the previous keyframe instead of that same one.
pub const SEEK_BACK_US: i64 = 1_000;

/// Tolerance when landing a precise seek: a decoded frame within this of the
/// target counts as the frame at the target, absorbing timestamp rounding.
pub const FRAME_EPS_NS: i64 = 1_000_000;

/// The length of one tick of a stream's timestamps: `num / den` seconds.
#[derive(Clone, Copy, Debug, PartialEq, Eq, Structural)]
pub struct TimeBase {
    pub num: i32,
    pub den: i32,
}

impl TimeBase {
    /// A time base that measures time: ticks do not run backward.
    pub open spec fn valid(self) -> bool {
        self.num >= 0 && self.den > 0
    }
}

/// `n` ticks of `tb` in nanoseconds, rounded down.
pub open spec fn ticks_ns(n: int, tb: TimeBase) -> int {
    n * tb.num * NS_PER_S / (tb.den as int)
}

/// The nearest `i64` to an integer.
pub open spec fn saturated(x: int) -> int {
    if x < i64::MIN {
        i64::MIN as int
    } else if x > i64::MAX {
        i64::MAX as int
    } else {
        x
    }
}

/// The media time of timestamp `pts` on a stream that starts at `start`: the
/// time between them, never before the start.
pub open spec fn media_ns(pts: int, start: int, tb: TimeBase) -> int {
    let t = saturated(ticks_ns(pts - start, tb));
    if t < 0 {
        0
    } else {
        t
    }
}

/// The timestamp a frame is placed by: its own, else the best-effort one. A
/// frame with neither is treated as very early so ordering stays monotonic.
pub open spec fn placing_pts(pts: Option<i64>, best_effort: Option<i64>) -> i64 {
    match (pts, best_effort) {
        (Some(p), _) => p,
        (None, Some(b)) => b,
        (None, None) => i64::MIN,
    }
}

/// The origin of a stream's timeline: its declared start, else zero.
pub open spec fn origin(start: Option<i64>) -> i64 {
    match start {
        Some(s) => s,
        None => 0,
    }
}

/// `n` ticks of `tb` in nanoseconds, rounded down.
fn ticks_to_ns(n: i128, tb: TimeBase) -> (r: i128)
    requires
        tb.valid(),
        -0x1_0000_0000_0000_0000 <= n <= 0x1_0000_0000_0000_0000,
    ensures
        r == ticks_ns(n as int, tb),
{
    let m: i128 = tb.num as i128;
    assert(-0x8000_0000_0000_0000_0000_0000 <= n * m <= 0x8000_0000_0000_0000_0000_0000)
        by (nonlinear_arith)
        requires
            -0x1_0000_0000_0000_0000 <= n <= 0x1_0000_0000_0000_0000,
            -0x8000_0000 <= m <= 0x7fff_ffff,
    ;
    let x: i128 = n * m * (NS_PER_S as i128);
    let d: i128 = tb.den as i128;
    floor_div(x, d)
}

/// The quotient of `x` by a positive `d`, rounded down.
pub fn floor_div(x: i128, d: i128) -> (q: i128)
    requires
        d > 0,
        x > i128::MIN + 1,
    ensures
        q == x as int / d as int,
{
    if x >= 0 {
        x / d
    } else {
        // The Euclidean quotient of a negative number is one below the negated
        // quotient of its magnitude less one.
        let m: i128 = -(x + 1);
        let k: i128 = m / d;
        proof {
            lemma_floor_of_negative(x as int, d as int);
            assert(k <= m) by (nonlinear_arith)
                requires
                    k == m / d,
                    m >= 0,
                    d > 0,
            ;
        }
        -k - 1
    }
}

proof fn lemma_floor_of_negative(x: int, d: int)
    requires
        x < 0,
        d > 0,
    ensures
        x / d == -((-(x + 1)) / d) - 1,
{
    let m = -(x + 1);
    let k = m / d;
    let r = m % d;
    assert(m == d * k + r && 0 <= r < d) by (nonlinear_arith)
        requires
            k == m / d,
            r == m % d,
            d > 0,
    ;
    assert(x == (-k - 1) * d + (d - 1 - r)) by (nonlinear_arith)
        requires
            m == -(x + 1),
            m == d * k + r,
    ;
    vstd::arithmetic::div_mod::lemma_fundamental_div_mod_converse(x, d, -k - 1, d - 1 - r);
}

/// The nearest `i64` to `x`.
pub fn saturate(x: i128) -> (r: i64)
    ensures
        r == saturated(x as int),
{
    if x < i64::MIN as i128 {
        i64::MIN
    } else if x > i64::MAX as i128 {
        i64::MAX
    } else {
        x as i64
    }
}

/// The timestamp a frame is placed by.
pub fn frame_pts(pts: Option<i64>, best_effort: Option<i64>) -> (r: i64)
    ensures
        r == placing_pts(pts, best_effort),
{
    match pts {
        Some(p) => p,
        None => match best_effort {
            Some(b) => b,
            None => i64::MIN,
        },
    }
}

/// The media time of a frame placed at `pts`, relative to the stream's start.
pub fn frame_time(pts: i64, start: Option<i64>, tb: TimeBase) -> (t: i64)
    requires
        tb.valid(),
    ensures
        t == media_ns(pts as int, origin(start) as int, tb),
        t >= 0,
{
    let from: i64 = match start {
        Some(s) => s,
        None => 0,
    };
    let t: i64 = saturate(ticks_to_ns(pts as i128 - from as i128, tb));
    if t < 0 {
        0
    } else {
        t
    }
}

/// The declared start of a stream in nanoseconds on its own timeline, zero when
/// it declares none.
pub fn start_ns(start: Option<i64>, tb: TimeBase) -> (t: i64)
    requires
        tb.valid(),
    ensures
        t == saturated(ticks_ns(origin(start) as int, tb)),
{
    let from: i64 = match start {
        Some(s) => s,
        None => 0,
    };
    saturate(ticks_to_ns(from as i128, tb))
}

/// Where a seek to media time `t_ns` aims, in microseconds on the container's
/// timeline: a hair before the target, and never before the file's start.
pub open spec fn seek_us(t_ns: int, start_ns: int) -> int {
    let at = t_ns + start_ns;
    // Toward zero, as a conversion to whole microseconds truncates.
    let us = if at < 0 {
        -((-at) / 1000)
    } else {
        at / 1000
    };
    if us - SEEK_BACK_US < 0 {
        0
    } else {
        us - SEEK_BACK_US
    }
}

/// The seek target, in microseconds, for a move to media time `t_ns`.
pub fn seek_target_us(t_ns: i64, start_ns: i64) -> (us: i64)
    ensures
        us == seek_us(t_ns as int, start_ns as int),
        us >= 0,
{
    let at: i128 = t_ns as i128 + start_ns as i128;
    if at < 0 {
        0
    } else {
        let us: i64 = (at / 1000) as i64;
        if us < SEEK_BACK_US {
            0
        } else {
            us - SEEK_BACK_US
        }
    }
}

/// The nominal duration of one frame at `num / den` frames per second, rounded
/// down; zero when the stream declares no rate.
pub open spec fn frame_duration(num: int, den: int) -> int {
    if num > 0 && den > 0 {
        den * NS_PER_S / num
    } else {
        0
    }
}

/// The nominal duration of one frame, in nanoseconds.
pub fn frame_dur_ns(num: i32, den: i32) -> (d: i64)
    ensures
        d == frame_duration(num as int, den as int),
        0 <= d,
{
    if num > 0 && den > 0 {
        let x: i64 = den as i64 * NS_PER_S;
        let q: i64 = x / num as i64;
        proof {
            assert(0 <= q <= x) by (nonlinear_arith)
                requires
                    q == x / num as i64,
                    num > 0,
                    x >= 0,
            ;
        }
        q
    } else {
        0
    }
}

/// A container duration in microseconds as nanoseconds.
pub fn duration_ns(us: i64) -> (ns: i64)
    ensures
        ns == saturated(us * 1000),
{
    saturate(us as i128 * 1000)
}

/// A wall-clock span that ends at `now`, zero if the clock has not moved.
pub fn since(now_ns: u64, then_ns: u64) -> (d: u64)
    ensures
        d == if now_ns >= then_ns {
            now_ns - then_ns
        } else {
            0
        },
{
    if now_ns >= then_ns {
        now_ns - then_ns
    } else {
        0
    }
}

/// A seek never aims past the time asked for, so the keyframe it lands on is at
/// or before the target and decoding forward from there reaches the target.
pub proof fn seek_aims_before_the_target(t_ns: int, start_ns: int)
    requires
        t_ns + start_ns >= 0,
    ensures
        seek_us(t_ns, start_ns) * 1000 <= t_ns + start_ns,
        t_ns + start_ns >= SEEK_BACK_US * 1000 ==> seek_us(t_ns, start_ns) * 1000 <= t_ns + start_ns
            - SEEK_BACK_US * 1000,
{
}

/// Later timestamps never map to earlier media times.
pub proof fn media_time_is_monotonic(a: int, b: int, start: int, tb: TimeBase)
    requires
        tb.valid(),
        a <= b,
    ensures
        0 <= media_ns(a, start, tb) <= media_ns(b, start, tb),
{
    let x = (a - start) * tb.num * NS_PER_S;
    let y = (b - start) * tb.num * NS_PER_S;
    assert(x <= y) by (nonlinear_arith)
        requires
            x == (a - start) * tb.num * NS_PER_S,
            y == (b - start) * tb.num * NS_PER_S,
            a <= b,
            tb.num >= 0,
            NS_PER_S >= 0,
    ;
    vstd::arithmetic::div_mod::lemma_div_is_ordered(x, y, tb.den as int);
}

proof fn lemma_quotient(x: int, d: int)
    requires
        d > 0,
    ensures
        0 <= x - (x / d) * d < d,
{
    vstd::arithmetic::div_mod::lemma_fundamental_div_mod(x, d);
    vstd::arithmetic::mul::lemma_mul_is_commutative(x / d, d);
    vstd::arithmetic::div_mod::lemma_mod_bound(x, d);
}

/// A time in nanoseconds is that of its ticks, to within one nanosecond: so many
/// ticks of `num / den` seconds each.
pub proof fn a_tick_lasts_as_its_time_base_says(n: int, tb: TimeBase)
    requires
        tb.valid(),
    ensures
        0 <= n * tb.num * 1_000_000_000 - ticks_ns(n, tb) * tb.den < tb.den,
{
    lemma_quotient(n * tb.num * 1_000_000_000, tb.den as int);
}

/// The media time of a timestamp is its distance from the start of the stream, to
/// within one nanosecond; the start and what comes before it is at zero, and only
/// what no time can hold is cut off.
pub proof fn media_time_is_the_distance_from_the_start(pts: int, start: int, tb: TimeBase)
    requires
        tb.valid(),
    ensures
        pts <= start ==> media_ns(pts, start, tb) == 0,
        pts >= start ==> ({
            let x = (pts - start) * tb.num * 1_000_000_000;
            let t = media_ns(pts, start, tb);
            ||| 0 <= x - t * tb.den < tb.den
            ||| t == 0x7fff_ffff_ffff_ffff && x >= t * tb.den
        }),
{
    let n = pts - start;
    let x = n * tb.num * NS_PER_S;
    let d = tb.den as int;
    lemma_quotient(x, d);
    let q = x / d;
    if n <= 0 {
        assert(q <= 0) by (nonlinear_arith)
            requires
                x == n * tb.num * NS_PER_S,
                n <= 0,
                tb.num >= 0,
                NS_PER_S == 1_000_000_000,
                0 <= x - q * d,
                d > 0,
        {
            assert(n * tb.num <= 0);
            assert(q * d <= 0);
        }
    }
    if n >= 0 {
        assert(q >= 0) by (nonlinear_arith)
            requires
                x == n * tb.num * NS_PER_S,
                n >= 0,
                tb.num >= 0,
                NS_PER_S == 1_000_000_000,
                x - q * d < d,
                d > 0,
        {
            assert(n * tb.num >= 0);
            assert((q + 1) * d > 0);
        }
        if q > i64::MAX {
            let most: int = 0x7fff_ffff_ffff_ffff;
            assert(most * d <= q * d) by (nonlinear_arith)
                requires
                    most <= q,
                    d > 0,
            ;
        }
    }
}

/// A frame is placed by its own timestamp where it has one, else by the best
/// guess, and without either before every other; a stream that declares no start
/// begins at zero.
pub proof fn a_frame_is_placed_by_its_own_timestamp(p: i64, b: Option<i64>, g: i64)
    ensures
        placing_pts(Some(p), b) == p,
        placing_pts(None, Some(g)) == g,
        placing_pts(None, None) <= g,
        origin(Some(p)) == p,
        origin(None) == 0,
{
}

/// A seek aims one millisecond before its target, less what is cut to whole
/// microseconds, and at the start of the file where the target is no farther from
/// it than that.
pub proof fn a_seek_aims_one_millisecond_ahead(t_ns: int, start_ns: int)
    ensures
        t_ns + start_ns >= 1_000_000 ==> 0 <= t_ns + start_ns - 1_000_000 - seek_us(
            t_ns,
            start_ns,
        ) * 1000 < 1000,
        t_ns + start_ns < 1_000_000 ==> seek_us(t_ns, start_ns) == 0,
{
}

/// One frame lasts its share of a second: as many of them as the rate says make up
/// as many seconds as it says, to within one nanosecond each.
pub proof fn a_frame_lasts_its_share_of_a_second(num: int, den: int)
    ensures
        num > 0 && den > 0 ==> 0 <= den * 1_000_000_000 - frame_duration(num, den) * num < num,
        num <= 0 || den <= 0 ==> frame_duration(num, den) == 0,
{
    if num > 0 && den > 0 {
        lemma_quotient(den * 1_000_000_000, num);
    }
}

/// Cutting off leaves every number that fits as it is, and keeps the order of the
/// others.
pub proof fn cutting_off_keeps_what_fits(x: int, y: int)
    ensures
        -0x8000_0000_0000_0000 <= x <= 0x7fff_ffff_ffff_ffff ==> saturated(x) == x,
        x < -0x8000_0000_0000_0000 ==> saturated(x) == -0x8000_0000_0000_0000,
        x > 0x7fff_ffff_ffff_ffff ==> saturated(x) == 0x7fff_ffff_ffff_ffff,
        x <= y ==> saturated(x) <= saturated(y),
{
}

} // verus!
