//! What the log says of playback, of a pass over a clip, and of a still: where
//! the time went, in one line each.

use vstd::prelude::*;

use crate::pace::PaceReport;
use crate::session::{Report, SeekProfile};
use crate::text;

verus! {

/// A media time in seconds, to the millisecond.
pub open spec fn seconds(ns: i64) -> Seq<char> {
    text::signed_fixed(ns as int, 1_000_000_000, 3)
}

/// A span in milliseconds.
pub open spec fn millis(ns: u64, places: nat) -> Seq<char> {
    text::fixed(ns as nat, 1_000_000, places)
}

/// A share of a span in milliseconds: `ns` over `n`, or nothing where there is
/// nothing to share it among.
pub open spec fn millis_each(ns: u64, n: u32) -> Seq<char> {
    if n > 0 {
        text::fixed(ns as nat, n as nat * 1_000_000, 1)
    } else {
        text::fixed(0, 1, 1)
    }
}

/// Millions, to the tenth.
pub open spec fn millions(n: nat) -> Seq<char> {
    text::fixed(n, 1_000_000, 1)
}

/// Megabytes read in a second, when `bytes` were read in `ns`.
pub open spec fn throughput(bytes: u64, ns: u64) -> Seq<char> {
    if ns > 0 {
        text::fixed(bytes as nat * 1000, ns as nat, 0)
    } else {
        text::decimal(0)
    }
}

/// What part of `whole` the bytes `part` are, in percent.
pub open spec fn percent(part: u64, whole: u64) -> Seq<char> {
    text::fixed(
        100 * part as nat,
        if whole < 1 {
            1
        } else {
            whole as nat
        },
        0,
    )
}

/// A size in pixels.
pub open spec fn extent(w: u32, h: u32) -> Seq<char> {
    text::decimal(w as nat) + "x"@ + text::decimal(h as nat)
}

/// How a pass over a clip spent its time, and on what.
#[derive(Clone, Copy, Debug, PartialEq, Eq, Structural)]
pub struct GridCost {
    pub kept: usize,
    pub keyframes: u32,
    pub bytes: u64,
    pub key_bytes: u64,
    pub total_ns: u64,
    pub open_ns: u64,
    pub header_ns: u64,
    pub probe_ns: u64,
    pub setup_ns: u64,
    pub demux_ns: u64,
    pub decode_ns: u64,
    pub convert_ns: u64,
}

/// How writing a still spent its time.
#[derive(Clone, Copy, Debug, PartialEq, Eq, Structural)]
pub struct StillCost {
    pub time_ns: i64,
    pub total_ns: u64,
    pub open_ns: u64,
    pub header_ns: u64,
    pub probe_ns: u64,
    pub setup_ns: u64,
    pub seek_ns: u64,
    pub decoded: u32,
    pub decode_ns: u64,
    pub convert_ns: u64,
    pub encode_ns: u64,
    pub width: u32,
    pub height: u32,
    pub quality: u8,
}

/// What is said of a stretch of playback.
pub open spec fn pace_text(p: PaceReport) -> Seq<char> {
    let t = "playback: "@ + extent(p.out_w, p.out_h);
    let t = t + " box | "@ + text::decimal(p.frames as nat);
    let t = t + " frames | "@;
    if p.late > 0 {
        let t = t + text::decimal(p.late as nat);
        t + " late, worst "@ + millis(p.worst_ns, 0) + "ms behind"@
    } else {
        t + "none late"@
    }
}

/// What is said of a move that was decoded.
pub open spec fn landed_text(p: SeekProfile, total_ns: u64, landed_ns: i64) -> Seq<char> {
    let t = "scrub -> "@ + seconds(p.target_ns);
    let t = t + "s | total "@ + millis(total_ns, 1);
    let t = t + "ms | seek "@ + millis(p.seek_ns, 1);
    let t = t + "ms | decoded "@ + text::decimal(p.decoded as nat);
    let t = t + " frames "@ + millis(p.decode_ns, 1);
    let t = t + "ms ("@ + millis_each(p.decode_ns, p.decoded);
    t + "ms/f) | landed "@ + seconds(landed_ns) + "s"@
}

/// What is said of a move that was served from the frames held.
pub open spec fn cached_text(p: SeekProfile, total_ns: u64, landed_ns: i64) -> Seq<char> {
    let t = "scrub -> "@ + seconds(p.target_ns);
    let t = t + "s | total "@ + millis(total_ns, 1);
    t + "ms | cached | landed "@ + seconds(landed_ns) + "s"@
}

/// What is said of what a session reports.
pub open spec fn report_text(r: Report) -> Seq<char> {
    match r {
        Report::Pace(p) => pace_text(p),
        Report::Landed(p, total, at) => landed_text(p, total, at),
        Report::Cached(p, total, at) => cached_text(p, total, at),
    }
}

/// How long opening a clip took, in all and by its two halves.
pub open spec fn opening_text(open_ns: u64, header_ns: u64, probe_ns: u64) -> Seq<char> {
    let t = "ms | open "@ + millis(open_ns, 0);
    let t = t + "ms (header "@ + millis(header_ns, 0);
    t + "ms + probe "@ + millis(probe_ns, 0) + "ms) | setup "@
}

/// What is said of a pass, which was carried through or abandoned.
pub open spec fn grid_text(c: GridCost, cancelled: bool) -> Seq<char> {
    let t = "grid "@ + if cancelled {
        "cancelled"@
    } else {
        "done"@
    };
    let t = t + ": kept "@ + text::decimal(c.kept as nat);
    let t = t + "/"@ + text::decimal(c.keyframes as nat);
    let t = t + " keyframes | total "@ + millis(c.total_ns, 0);
    let t = t + opening_text(c.open_ns, c.header_ns, c.probe_ns) + millis(c.setup_ns, 0);
    let t = t + "ms | demux "@ + millis(c.demux_ns, 0);
    let t = t + "ms ("@ + millions(c.bytes as nat);
    let t = t + " MB, "@ + throughput(c.bytes, c.demux_ns);
    let t = t + " MB/s) | decode "@ + millis(c.decode_ns, 0);
    let t = t + "ms | convert "@ + millis(c.convert_ns, 0);
    let t = t + "ms | keyframes "@ + millions(c.key_bytes as nat);
    t + " MB ("@ + percent(c.key_bytes, c.bytes) + "% of stream)"@
}

/// What is said of a still that was written.
pub open spec fn still_text(c: StillCost) -> Seq<char> {
    let t = "still -> "@ + seconds(c.time_ns);
    let t = t + "s | total "@ + millis(c.total_ns, 0);
    let t = t + opening_text(c.open_ns, c.header_ns, c.probe_ns) + millis(c.setup_ns, 0);
    let t = t + "ms | seek "@ + millis(c.seek_ns, 0);
    let t = t + "ms | decoded "@ + text::decimal(c.decoded as nat);
    let t = t + " frames "@ + millis(c.decode_ns, 0);
    let t = t + "ms ("@ + millis_each(c.decode_ns, c.decoded);
    let t = t + "ms/f) | convert "@ + millis(c.convert_ns, 0);
    let t = t + "ms | encode "@ + millis(c.encode_ns, 0);
    let t = t + "ms | "@ + extent(c.width, c.height);
    let t = t + " ("@ + millions((c.width * c.height) as nat);
    t + " MP), q"@ + text::decimal(c.quality as nat)
}

/// What is said of the decoder that took a clip's frames.
pub open spec fn decoder_text(
    what: Seq<char>,
    w: u32,
    h: u32,
    gpu: bool,
    format: Seq<char>,
) -> Seq<char> {
    let t = what + ": "@ + extent(w, h);
    let t = t + " ("@ + millions((w * h) as nat);
    let t = t + " MP), decoding on the "@ + if gpu {
        "GPU"@
    } else {
        "CPU"@
    };
    t + ", frames as "@ + format
}

proof fn lemma_units(places: u32)
    requires
        places <= 3,
    ensures
        1 <= text::pow10(places as nat) <= 1000,
{
    reveal_with_fuel(text::pow10, 4);
}

proof fn lemma_scaled(n: int, unit: int)
    requires
        0 <= n <= 0x1_0000_0000_0000_0000_0000,
        1 <= unit <= 1000,
    ensures
        n * unit < u128::MAX,
{
    assert(n * unit <= 0x1_0000_0000_0000_0000_0000 * 1000) by (nonlinear_arith)
        requires
            0 <= n <= 0x1_0000_0000_0000_0000_0000,
            1 <= unit <= 1000,
    ;
}

fn push_seconds(s: &mut String, ns: i64)
    ensures
        final(s)@ == old(s)@ + seconds(ns),
{
    proof {
        lemma_units(3);
        lemma_scaled(
            if ns < 0 {
                -ns
            } else {
                ns as int
            },
            text::pow10(3) as int,
        );
    }
    text::push_signed_fixed(s, ns as i128, 1_000_000_000, 3);
}

fn push_millis(s: &mut String, ns: u64, places: u32)
    requires
        places <= 1,
    ensures
        final(s)@ == old(s)@ + millis(ns, places as nat),
{
    proof {
        lemma_units(places);
        lemma_scaled(ns as int, text::pow10(places as nat) as int);
    }
    text::push_fixed(s, ns as u128, 1_000_000, places);
}

fn push_millis_each(s: &mut String, ns: u64, n: u32)
    ensures
        final(s)@ == old(s)@ + millis_each(ns, n),
{
    proof {
        lemma_units(1);
        lemma_scaled(ns as int, text::pow10(1) as int);
    }
    if n > 0 {
        text::push_fixed(s, ns as u128, n as u128 * 1_000_000, 1);
    } else {
        text::push_fixed(s, 0, 1, 1);
    }
}

fn push_millions(s: &mut String, n: u64)
    ensures
        final(s)@ == old(s)@ + millions(n as nat),
{
    proof {
        lemma_units(1);
        lemma_scaled(n as int, text::pow10(1) as int);
    }
    text::push_fixed(s, n as u128, 1_000_000, 1);
}

fn push_throughput(s: &mut String, bytes: u64, ns: u64)
    ensures
        final(s)@ == old(s)@ + throughput(bytes, ns),
{
    proof {
        lemma_units(0);
        lemma_scaled(bytes * 1000, text::pow10(0) as int);
    }
    if ns > 0 {
        text::push_fixed(s, bytes as u128 * 1000, ns as u128, 0);
    } else {
        text::push_decimal(s, 0);
    }
}

fn push_percent(s: &mut String, part: u64, whole: u64)
    ensures
        final(s)@ == old(s)@ + percent(part, whole),
{
    proof {
        lemma_units(0);
        lemma_scaled(100 * part, text::pow10(0) as int);
    }
    let base: u64 = if whole < 1 {
        1
    } else {
        whole
    };
    text::push_fixed(s, 100 * part as u128, base as u128, 0);
}

fn push_extent(s: &mut String, w: u32, h: u32)
    ensures
        final(s)@ == old(s)@ + extent(w, h),
{
    let ghost before = s@;
    text::push_decimal(s, w as u128);
    s.append("x");
    text::push_decimal(s, h as u128);
    assert(s@ =~= before + extent(w, h));
}

fn push_area(s: &mut String, w: u32, h: u32)
    ensures
        final(s)@ == old(s)@ + millions((w * h) as nat),
{
    assert(0 <= w * h <= u64::MAX) by (nonlinear_arith)
        requires
            0 <= w <= 0xffff_ffff,
            0 <= h <= 0xffff_ffff,
    ;
    push_millions(s, w as u64 * h as u64);
}

fn push_opening(s: &mut String, open_ns: u64, header_ns: u64, probe_ns: u64)
    ensures
        final(s)@ == old(s)@ + opening_text(open_ns, header_ns, probe_ns),
{
    let ghost before = s@;
    s.append("ms | open ");
    push_millis(s, open_ns, 0);
    s.append("ms (header ");
    push_millis(s, header_ns, 0);
    s.append("ms + probe ");
    push_millis(s, probe_ns, 0);
    s.append("ms) | setup ");
    assert(s@ =~= before + opening_text(open_ns, header_ns, probe_ns));
}

/// What the log says of a stretch of playback.
pub fn pace_line(p: &PaceReport) -> (s: String)
    ensures
        s@ == pace_text(*p),
{
    let mut s: String = "playback: ".to_owned();
    push_extent(&mut s, p.out_w, p.out_h);
    s.append(" box | ");
    text::push_decimal(&mut s, p.frames as u128);
    s.append(" frames | ");
    if p.late > 0 {
        text::push_decimal(&mut s, p.late as u128);
        s.append(" late, worst ");
        push_millis(&mut s, p.worst_ns, 0);
        s.append("ms behind");
    } else {
        s.append("none late");
    }
    s
}

/// What the log says of what a session reports.
pub fn report_line(r: &Report) -> (s: String)
    ensures
        s@ == report_text(*r),
{
    match r {
        Report::Pace(p) => pace_line(p),
        Report::Landed(p, total, at) => {
            let mut s: String = "scrub -> ".to_owned();
            push_seconds(&mut s, p.target_ns);
            s.append("s | total ");
            push_millis(&mut s, *total, 1);
            s.append("ms | seek ");
            push_millis(&mut s, p.seek_ns, 1);
            s.append("ms | decoded ");
            text::push_decimal(&mut s, p.decoded as u128);
            s.append(" frames ");
            push_millis(&mut s, p.decode_ns, 1);
            s.append("ms (");
            push_millis_each(&mut s, p.decode_ns, p.decoded);
            s.append("ms/f) | landed ");
            push_seconds(&mut s, *at);
            s.append("s");
            s
        },
        Report::Cached(p, total, at) => {
            let mut s: String = "scrub -> ".to_owned();
            push_seconds(&mut s, p.target_ns);
            s.append("s | total ");
            push_millis(&mut s, *total, 1);
            s.append("ms | cached | landed ");
            push_seconds(&mut s, *at);
            s.append("s");
            s
        },
    }
}

/// What the log says of a pass over a clip. One that was abandoned is told from
/// one that was carried through, so that a partial count does not read as a
/// finished sheet.
pub fn grid_line(c: &GridCost, cancelled: bool) -> (s: String)
    ensures
        s@ == grid_text(*c, cancelled),
{
    let mut s: String = "grid ".to_owned();
    s.append(
        if cancelled {
            "cancelled"
        } else {
            "done"
        },
    );
    s.append(": kept ");
    text::push_decimal(&mut s, c.kept as u128);
    s.append("/");
    text::push_decimal(&mut s, c.keyframes as u128);
    s.append(" keyframes | total ");
    push_millis(&mut s, c.total_ns, 0);
    push_opening(&mut s, c.open_ns, c.header_ns, c.probe_ns);
    push_millis(&mut s, c.setup_ns, 0);
    s.append("ms | demux ");
    push_millis(&mut s, c.demux_ns, 0);
    s.append("ms (");
    push_millions(&mut s, c.bytes);
    s.append(" MB, ");
    push_throughput(&mut s, c.bytes, c.demux_ns);
    s.append(" MB/s) | decode ");
    push_millis(&mut s, c.decode_ns, 0);
    s.append("ms | convert ");
    push_millis(&mut s, c.convert_ns, 0);
    s.append("ms | keyframes ");
    push_millions(&mut s, c.key_bytes);
    s.append(" MB (");
    push_percent(&mut s, c.key_bytes, c.bytes);
    s.append("% of stream)");
    s
}

/// What the log says of a still that was written.
pub fn still_line(c: &StillCost) -> (s: String)
    ensures
        s@ == still_text(*c),
{
    let mut s: String = "still -> ".to_owned();
    push_seconds(&mut s, c.time_ns);
    s.append("s | total ");
    push_millis(&mut s, c.total_ns, 0);
    push_opening(&mut s, c.open_ns, c.header_ns, c.probe_ns);
    push_millis(&mut s, c.setup_ns, 0);
    s.append("ms | seek ");
    push_millis(&mut s, c.seek_ns, 0);
    s.append("ms | decoded ");
    text::push_decimal(&mut s, c.decoded as u128);
    s.append(" frames ");
    push_millis(&mut s, c.decode_ns, 0);
    s.append("ms (");
    push_millis_each(&mut s, c.decode_ns, c.decoded);
    s.append("ms/f) | convert ");
    push_millis(&mut s, c.convert_ns, 0);
    s.append("ms | encode ");
    push_millis(&mut s, c.encode_ns, 0);
    s.append("ms | ");
    push_extent(&mut s, c.width, c.height);
    s.append(" (");
    push_area(&mut s, c.width, c.height);
    s.append(" MP), q");
    text::push_decimal(&mut s, c.quality as u128);
    s
}

/// What the log says of the decoder that took a clip's frames, for playback or
/// for the contact sheet.
pub fn decoder_line(what: &str, w: u32, h: u32, gpu: bool, format: &str) -> (s: String)
    ensures
        s@ == decoder_text(what@, w, h, gpu, format@),
{
    let mut s: String = what.to_owned();
    s.append(": ");
    push_extent(&mut s, w, h);
    s.append(" (");
    push_area(&mut s, w, h);
    s.append(" MP), decoding on the ");
    s.append(
        if gpu {
            "GPU"
        } else {
            "CPU"
        },
    );
    s.append(", frames as ");
    s.append(format);
    s
}

/// Times and sizes say what they were made of, rounded to the nearest of their
/// last digit: seconds to the millisecond, spans in milliseconds, counts in
/// millions.
pub proof fn figures_say_what_was_measured(ns: u64, places: nat, t: i64, n: nat)
    ensures
        text::says(
            millis(ns, places),
            text::nearest(ns as nat * text::pow10(places), 1_000_000),
            places,
        ),
        t >= 0 ==> text::says(seconds(t), text::nearest(t as nat * 1000, 1_000_000_000), 3),
        t < 0 ==> seconds(t)[0] == '-' && text::says(
            seconds(t).skip(1),
            text::nearest((-t) as nat * 1000, 1_000_000_000),
            3,
        ),
        text::says(millions(n), text::nearest(n * 10, 1_000_000), 1),
{
    text::lemma_small_powers();
    text::a_fraction_says_the_nearest(ns as nat, 1_000_000, places);
    text::a_fraction_says_the_nearest(n, 1_000_000, 1);
    if t >= 0 {
        text::a_fraction_says_the_nearest(t as nat, 1_000_000_000, 3);
    } else {
        text::a_fraction_says_the_nearest((-t) as nat, 1_000_000_000, 3);
        assert(seconds(t).skip(1) =~= text::fixed((-t) as nat, 1_000_000_000, 3));
    }
}

/// Shares say what they are of: the time of one frame, the megabytes of one
/// second, the percentage of the whole; of nothing they are nothing.
pub proof fn shares_say_what_they_are_of(ns: u64, n: u32, bytes: u64, part: u64, whole: u64)
    ensures
        n > 0 ==> text::says(millis_each(ns, n), text::nearest(ns as nat * 10, n as nat * 1_000_000), 1),
        n == 0 ==> text::says(millis_each(ns, n), 0, 1),
        ns > 0 ==> text::says(
            throughput(bytes, ns),
            text::nearest(bytes as nat * 1000, ns as nat),
            0,
        ),
        ns == 0 ==> text::says(throughput(bytes, ns), 0, 0),
        whole > 0 ==> text::says(percent(part, whole), text::nearest(100 * part as nat, whole as nat), 0),
        whole == 0 ==> text::says(percent(part, whole), 100 * part as nat, 0),
{
    text::lemma_small_powers();
    if n > 0 {
        text::a_fraction_says_the_nearest(ns as nat, n as nat * 1_000_000, 1);
    }
    text::a_fraction_says_the_nearest(0, 1, 1);
    text::a_decimal_reads_back(0);
    if ns > 0 {
        text::a_fraction_says_the_nearest(bytes as nat * 1000, ns as nat, 0);
    }
    let w: nat = if whole < 1 {
        1
    } else {
        whole as nat
    };
    text::a_fraction_says_the_nearest(100 * part as nat, w, 0);
    let p: nat = 100 * part as nat;
    assert(p * text::pow10(0) == p);
    assert(p / 1 == p && p % 1 == 0);
}

/// What the log says of a stretch: its box, its frames, and how many of them were
/// late and by how much at worst, or that none was.
pub proof fn a_stretch_is_told_in_full(p: PaceReport)
    ensures
        ({
            let head = "playback: "@ + text::decimal(p.out_w as nat) + "x"@ + text::decimal(
                p.out_h as nat,
            ) + " box | "@ + text::decimal(p.frames as nat) + " frames | "@;
            &&& p.late == 0 ==> pace_text(p) == head + "none late"@
            &&& p.late > 0 ==> pace_text(p) == head + text::decimal(p.late as nat)
                + " late, worst "@ + millis(p.worst_ns, 0) + "ms behind"@
        }),
{
    let head = "playback: "@ + text::decimal(p.out_w as nat) + "x"@ + text::decimal(p.out_h as nat)
        + " box | "@ + text::decimal(p.frames as nat) + " frames | "@;
    let said = "playback: "@ + extent(p.out_w, p.out_h) + " box | "@ + text::decimal(
        p.frames as nat,
    ) + " frames | "@;
    assert(said =~= head);
}

/// What the log says of a move: where to, how long it took, and where it landed;
/// of one that was decoded also the seek, the frames decoded and their cost, in
/// all and each.
pub proof fn a_move_is_told_in_full(p: SeekProfile, total: u64, at: i64)
    ensures
        ({
            let head = "scrub -> "@ + seconds(p.target_ns) + "s | total "@ + millis(total, 1);
            let tail = seconds(at) + "s"@;
            let cost = "ms | seek "@ + millis(p.seek_ns, 1) + "ms | decoded "@ + text::decimal(
                p.decoded as nat,
            ) + " frames "@ + millis(p.decode_ns, 1) + "ms ("@ + millis_each(
                p.decode_ns,
                p.decoded,
            ) + "ms/f) | landed "@;
            &&& report_text(Report::Landed(p, total, at)) == head + cost + tail
            &&& report_text(Report::Cached(p, total, at)) == head + "ms | cached | landed "@ + tail
        }),
{
    let head = "scrub -> "@ + seconds(p.target_ns) + "s | total "@ + millis(total, 1);
    let tail = seconds(at) + "s"@;
    let cost = "ms | seek "@ + millis(p.seek_ns, 1) + "ms | decoded "@ + text::decimal(
        p.decoded as nat,
    ) + " frames "@ + millis(p.decode_ns, 1) + "ms ("@ + millis_each(p.decode_ns, p.decoded)
        + "ms/f) | landed "@;
    assert(landed_text(p, total, at) =~= head + cost + tail);
    assert(cached_text(p, total, at) =~= head + "ms | cached | landed "@ + tail);
}

/// A stretch is told as one, whatever else is reported.
pub proof fn a_report_of_a_stretch_is_its_line(p: PaceReport)
    ensures
        report_text(Report::Pace(p)) == pace_text(p),
{
}

proof fn lemma_opening(before: Seq<char>, open_ns: u64, header_ns: u64, probe_ns: u64)
    ensures
        before + opening_text(open_ns, header_ns, probe_ns) == before + "ms | open "@ + millis(
            open_ns,
            0,
        ) + "ms (header "@ + millis(header_ns, 0) + "ms + probe "@ + millis(probe_ns, 0)
            + "ms) | setup "@,
{
    let a = "ms | open "@ + millis(open_ns, 0);
    let b = "ms (header "@ + millis(header_ns, 0);
    let c = "ms + probe "@ + millis(probe_ns, 0);
    let d = "ms) | setup "@;
    assert(opening_text(open_ns, header_ns, probe_ns) =~= a + b + c + d);
    assert(before + (a + b + c + d) =~= before + a + b + c + d);
    let p = before + "ms | open "@ + millis(open_ns, 0);
    assert(before + a =~= p);
    let q = p + "ms (header "@ + millis(header_ns, 0);
    assert(p + b =~= q);
    let r = q + "ms + probe "@ + millis(probe_ns, 0);
    assert(q + c =~= r);
}

proof fn lemma_extent(before: Seq<char>, w: u32, h: u32)
    ensures
        before + extent(w, h) == before + text::decimal(w as nat) + "x"@ + text::decimal(h as nat),
{
    assert(before + extent(w, h) =~= before + text::decimal(w as nat) + "x"@ + text::decimal(
        h as nat,
    ));
}

/// What the log says of a pass: how it ended, what it kept, and what each stage
/// took, in order, with what was read and how fast.
pub proof fn a_pass_is_told_in_full(c: GridCost, cancelled: bool)
    ensures
        ({
            let kept = "grid "@ + (if cancelled {
                "cancelled"@
            } else {
                "done"@
            }) + ": kept "@ + text::decimal(c.kept as nat) + "/"@ + text::decimal(
                c.keyframes as nat,
            ) + " keyframes | total "@ + millis(c.total_ns, 0);
            let opened = kept + "ms | open "@ + millis(c.open_ns, 0) + "ms (header "@ + millis(
                c.header_ns,
                0,
            ) + "ms + probe "@ + millis(c.probe_ns, 0) + "ms) | setup "@ + millis(c.setup_ns, 0);
            let read = opened + "ms | demux "@ + millis(c.demux_ns, 0) + "ms ("@ + millions(
                c.bytes as nat,
            ) + " MB, "@ + throughput(c.bytes, c.demux_ns) + " MB/s) | decode "@;
            grid_text(c, cancelled) == read + millis(c.decode_ns, 0) + "ms | convert "@ + millis(
                c.convert_ns,
                0,
            ) + "ms | keyframes "@ + millions(c.key_bytes as nat) + " MB ("@ + percent(
                c.key_bytes,
                c.bytes,
            ) + "% of stream)"@
        }),
{
    let kept = "grid "@ + (if cancelled {
        "cancelled"@
    } else {
        "done"@
    }) + ": kept "@ + text::decimal(c.kept as nat) + "/"@ + text::decimal(c.keyframes as nat)
        + " keyframes | total "@ + millis(c.total_ns, 0);
    lemma_opening(kept, c.open_ns, c.header_ns, c.probe_ns);
}

/// What the log says of a still: where it was taken, what each stage took, and its
/// size and quality.
pub proof fn a_still_is_told_in_full(c: StillCost)
    ensures
        ({
            let taken = "still -> "@ + seconds(c.time_ns) + "s | total "@ + millis(c.total_ns, 0);
            let opened = taken + "ms | open "@ + millis(c.open_ns, 0) + "ms (header "@ + millis(
                c.header_ns,
                0,
            ) + "ms + probe "@ + millis(c.probe_ns, 0) + "ms) | setup "@ + millis(c.setup_ns, 0);
            let found = opened + "ms | seek "@ + millis(c.seek_ns, 0) + "ms | decoded "@
                + text::decimal(c.decoded as nat) + " frames "@ + millis(c.decode_ns, 0) + "ms ("@
                + millis_each(c.decode_ns, c.decoded);
            let saved = found + "ms/f) | convert "@ + millis(c.convert_ns, 0) + "ms | encode "@
                + millis(c.encode_ns, 0) + "ms | "@;
            still_text(c) == saved + text::decimal(c.width as nat) + "x"@ + text::decimal(
                c.height as nat,
            ) + " ("@ + millions((c.width * c.height) as nat) + " MP), q"@ + text::decimal(
                c.quality as nat,
            )
        }),
{
    let taken = "still -> "@ + seconds(c.time_ns) + "s | total "@ + millis(c.total_ns, 0);
    lemma_opening(taken, c.open_ns, c.header_ns, c.probe_ns);
    let opened = taken + opening_text(c.open_ns, c.header_ns, c.probe_ns) + millis(c.setup_ns, 0);
    let found = opened + "ms | seek "@ + millis(c.seek_ns, 0) + "ms | decoded "@ + text::decimal(
        c.decoded as nat,
    ) + " frames "@ + millis(c.decode_ns, 0) + "ms ("@ + millis_each(c.decode_ns, c.decoded);
    let saved = found + "ms/f) | convert "@ + millis(c.convert_ns, 0) + "ms | encode "@ + millis(
        c.encode_ns,
        0,
    ) + "ms | "@;
    lemma_extent(saved, c.width, c.height);
}

/// What the log says of a decoder: for what, of what size, on which processor, and
/// the format of its frames.
pub proof fn a_decoder_is_told_in_full(what: Seq<char>, w: u32, h: u32, format: Seq<char>)
    ensures
        ({
            let head = what + ": "@ + text::decimal(w as nat) + "x"@ + text::decimal(h as nat)
                + " ("@ + millions((w * h) as nat) + " MP), decoding on the "@;
            let tail = ", frames as "@ + format;
            &&& decoder_text(what, w, h, true, format) == head + "GPU"@ + tail
            &&& decoder_text(what, w, h, false, format) == head + "CPU"@ + tail
        }),
{
    let head = what + ": "@ + text::decimal(w as nat) + "x"@ + text::decimal(h as nat) + " ("@
        + millions((w * h) as nat) + " MP), decoding on the "@;
    let tail = ", frames as "@ + format;
    assert(decoder_text(what, w, h, true, format) =~= head + "GPU"@ + tail);
    assert(decoder_text(what, w, h, false, format) =~= head + "CPU"@ + tail);
}

} // verus!
