//! The record of one clip: what the file is, how its keyframes are laid out,
//! and what reading it cost, as a line of a dataset.

use vstd::prelude::*;

use crate::text;

verus! {

/// A fraction `num / den`.
#[derive(Clone, Copy, Debug, PartialEq, Eq, Structural)]
pub struct Ratio {
    pub num: i128,
    pub den: u64,
}

/// The largest magnitude of a fraction's numerator.
pub const RATIO_LIMIT: i128 = 100_000_000_000_000_000_000_000_000_000_000_000;

impl Ratio {
    /// A fraction with a positive denominator and a numerator within the limit.
    pub open spec fn valid(self) -> bool {
        &&& self.den > 0
        &&& -RATIO_LIMIT <= self.num <= RATIO_LIMIT
    }

    /// The fraction in decimal with `places` digits behind the point.
    pub open spec fn decimal(self, places: nat) -> Seq<char> {
        text::signed_fixed(self.num as int, self.den as nat, places)
    }
}

/// What one pass learned about the clip it read.
pub struct ClipStats {
    /// File name only, not the path.
    pub file: String,
    pub size_bytes: u64,
    /// Container as the demuxer names it.
    pub container: String,
    pub codec: String,
    /// Codec profile; with the level it decides whether a GPU can take the clip.
    pub profile: String,
    pub level: i32,
    pub width: u32,
    pub height: u32,
    /// Source pixel format, which carries bit depth and chroma subsampling.
    pub pix_fmt: String,
    /// Average frame rate the container declares, or zero if it declares none.
    pub fps: Ratio,
    pub duration_ns: i64,
    /// Video bitrate in megabits per second, measured over the whole pass.
    pub video_mbit_s: Ratio,
    pub has_b_frames: bool,
    pub packets: u32,
    pub keyframes: u32,
    /// Keyframe spacing in frames.
    pub gop_frames_min: Ratio,
    pub gop_frames_mean: Ratio,
    pub gop_frames_max: Ratio,
    /// Keyframe spacing in seconds.
    pub gop_s_min: Ratio,
    pub gop_s_mean: Ratio,
    pub gop_s_max: Ratio,
    /// What share of the stream's bytes the keyframes are, in percent.
    pub key_share_pct: Ratio,
    /// Whether the decoder that ran was the GPU.
    pub hw_decode: bool,
    pub grid_ns: u64,
    pub open_ns: u64,
    pub setup_ns: u64,
    pub scan_ns: u64,
    pub decode_ns: u64,
    pub convert_ns: u64,
    /// Read throughput in megabytes per second.
    pub scan_mb_s: Ratio,
}

impl ClipStats {
    /// All fractions are valid.
    pub open spec fn valid(self) -> bool {
        &&& self.fps.valid()
        &&& self.video_mbit_s.valid()
        &&& self.gop_frames_min.valid()
        &&& self.gop_frames_mean.valid()
        &&& self.gop_frames_max.valid()
        &&& self.gop_s_min.valid()
        &&& self.gop_s_mean.valid()
        &&& self.gop_s_max.valid()
        &&& self.key_share_pct.valid()
        &&& self.scan_mb_s.valid()
    }
}

/// A span in whole milliseconds.
pub open spec fn millis(ns: u64) -> Seq<char> {
    text::fixed(ns as nat, 1_000_000, 0)
}

/// `true` or `false`.
pub open spec fn truth(b: bool) -> Seq<char> {
    if b {
        "true"@
    } else {
        "false"@
    }
}

/// The part of a record that says which clip it is about.
pub open spec fn identity_part(s: ClipStats, ts: Seq<char>) -> Seq<char> {
    let t = "{\"ts\":\""@ + ts;
    let t = t + "\",\"file\":\""@ + s.file@;
    let t = t + "\",\"size_mb\":"@ + text::fixed(s.size_bytes as nat, 1_000_000, 1);
    let t = t + ",\"container\":\""@ + s.container@;
    let t = t + "\",\"codec\":\""@ + s.codec@;
    let t = t + "\",\"profile\":\""@ + s.profile@;
    t + "\",\"level\":"@ + text::signed(s.level as int)
}

/// The part of a record that says what the stream is like.
pub open spec fn stream_part(s: ClipStats) -> Seq<char> {
    let t = ",\"w\":"@ + text::decimal(s.width as nat);
    let t = t + ",\"h\":"@ + text::decimal(s.height as nat);
    let t = t + ",\"pix_fmt\":\""@ + s.pix_fmt@;
    let t = t + "\",\"fps\":"@ + s.fps.decimal(3);
    let t = t + ",\"dur_s\":"@ + text::signed_fixed(s.duration_ns as int, 1_000_000_000, 3);
    let t = t + ",\"mbit_s\":"@ + s.video_mbit_s.decimal(1);
    t + ",\"has_b\":"@ + truth(s.has_b_frames)
}

/// The part of a record that says how the keyframes are laid out.
pub open spec fn layout_part(s: ClipStats) -> Seq<char> {
    let t = ",\"packets\":"@ + text::decimal(s.packets as nat);
    let t = t + ",\"keyframes\":"@ + text::decimal(s.keyframes as nat);
    let t = t + ",\"gop_frames\":{\"min\":"@ + s.gop_frames_min.decimal(0);
    let t = t + ",\"mean\":"@ + s.gop_frames_mean.decimal(1);
    let t = t + ",\"max\":"@ + s.gop_frames_max.decimal(0);
    let t = t + "},\"gop_s\":{\"min\":"@ + s.gop_s_min.decimal(3);
    let t = t + ",\"mean\":"@ + s.gop_s_mean.decimal(3);
    let t = t + ",\"max\":"@ + s.gop_s_max.decimal(3);
    t + "},\"key_share_pct\":"@ + s.key_share_pct.decimal(1)
}

/// The part of a record that says what reading the clip cost.
pub open spec fn cost_part(s: ClipStats) -> Seq<char> {
    let t = ",\"hw\":\""@ + if s.hw_decode {
        "GPU"@
    } else {
        "CPU"@
    };
    let t = t + "\",\"grid_ms\":"@ + millis(s.grid_ns);
    let t = t + ",\"open_ms\":"@ + millis(s.open_ns);
    let t = t + ",\"setup_ms\":"@ + millis(s.setup_ns);
    let t = t + ",\"scan_ms\":"@ + millis(s.scan_ns);
    let t = t + ",\"decode_ms\":"@ + millis(s.decode_ns);
    let t = t + ",\"convert_ms\":"@ + millis(s.convert_ns);
    let t = t + ",\"scan_mb_s\":"@ + s.scan_mb_s.decimal(0);
    t + "}\n"@
}

/// One clip as a line of JSON, recorded at `ts`. Nothing in it is escaped: the
/// text fields are identifiers of the demuxer and decoder, or a file name, which
/// cannot hold what JSON would care about.
pub open spec fn record_text(s: ClipStats, ts: Seq<char>) -> Seq<char> {
    identity_part(s, ts) + stream_part(s) + layout_part(s) + cost_part(s)
}

proof fn lemma_places(places: u32)
    requires
        places <= 3,
    ensures
        text::pow10(places as nat) <= 1000,
{
    reveal_with_fuel(text::pow10, 4);
}

fn push_ratio(out: &mut String, r: Ratio, places: u32)
    requires
        r.valid(),
        places <= 3,
    ensures
        final(out)@ == old(out)@ + r.decimal(places as nat),
{
    proof {
        lemma_places(places);
        let m = if r.num < 0 {
            -r.num
        } else {
            r.num as int
        };
        let p = text::pow10(places as nat);
        assert(m * p <= RATIO_LIMIT * 1000) by (nonlinear_arith)
            requires
                0 <= m <= RATIO_LIMIT,
                0 <= p <= 1000,
        ;
    }
    text::push_signed_fixed(out, r.num, r.den as u128, places);
}

fn push_millis(out: &mut String, ns: u64)
    ensures
        final(out)@ == old(out)@ + millis(ns),
{
    proof {
        lemma_places(0);
    }
    assert(text::pow10(0) == 1);
    text::push_fixed(out, ns as u128, 1_000_000, 0);
}

fn identity(s: &ClipStats, ts: &str) -> (out: String)
    ensures
        out@ == identity_part(*s, ts@),
{
    let mut out = String::new();
    out.append("{\"ts\":\"");
    assert(out@ =~= "{\"ts\":\""@);
    out.append(ts);
    out.append("\",\"file\":\"");
    out.append(s.file.as_str());
    out.append("\",\"size_mb\":");
    assert(text::pow10(1) == 10) by {
        reveal_with_fuel(text::pow10, 2);
    }
    assert(s.size_bytes * text::pow10(1) < u128::MAX);
    text::push_fixed(&mut out, s.size_bytes as u128, 1_000_000, 1);
    out.append(",\"container\":\"");
    out.append(s.container.as_str());
    out.append("\",\"codec\":\"");
    out.append(s.codec.as_str());
    out.append("\",\"profile\":\"");
    out.append(s.profile.as_str());
    out.append("\",\"level\":");
    text::push_signed(&mut out, s.level as i128);
    out
}

fn stream(s: &ClipStats) -> (out: String)
    requires
        s.valid(),
    ensures
        out@ == stream_part(*s),
{
    let mut out = String::new();
    out.append(",\"w\":");
    assert(out@ =~= ",\"w\":"@);
    text::push_decimal(&mut out, s.width as u128);
    out.append(",\"h\":");
    text::push_decimal(&mut out, s.height as u128);
    out.append(",\"pix_fmt\":\"");
    out.append(s.pix_fmt.as_str());
    out.append("\",\"fps\":");
    push_ratio(&mut out, s.fps, 3);
    out.append(",\"dur_s\":");
    push_ratio(&mut out, Ratio { num: s.duration_ns as i128, den: 1_000_000_000 }, 3);
    out.append(",\"mbit_s\":");
    push_ratio(&mut out, s.video_mbit_s, 1);
    out.append(",\"has_b\":");
    out.append(
        if s.has_b_frames {
            "true"
        } else {
            "false"
        },
    );
    out
}

fn layout(s: &ClipStats) -> (out: String)
    requires
        s.valid(),
    ensures
        out@ == layout_part(*s),
{
    let mut out = String::new();
    out.append(",\"packets\":");
    assert(out@ =~= ",\"packets\":"@);
    text::push_decimal(&mut out, s.packets as u128);
    out.append(",\"keyframes\":");
    text::push_decimal(&mut out, s.keyframes as u128);
    out.append(",\"gop_frames\":{\"min\":");
    push_ratio(&mut out, s.gop_frames_min, 0);
    out.append(",\"mean\":");
    push_ratio(&mut out, s.gop_frames_mean, 1);
    out.append(",\"max\":");
    push_ratio(&mut out, s.gop_frames_max, 0);
    out.append("},\"gop_s\":{\"min\":");
    push_ratio(&mut out, s.gop_s_min, 3);
    out.append(",\"mean\":");
    push_ratio(&mut out, s.gop_s_mean, 3);
    out.append(",\"max\":");
    push_ratio(&mut out, s.gop_s_max, 3);
    out.append("},\"key_share_pct\":");
    push_ratio(&mut out, s.key_share_pct, 1);
    out
}

fn cost(s: &ClipStats) -> (out: String)
    requires
        s.valid(),
    ensures
        out@ == cost_part(*s),
{
    let mut out = String::new();
    out.append(",\"hw\":\"");
    assert(out@ =~= ",\"hw\":\""@);
    out.append(
        if s.hw_decode {
            "GPU"
        } else {
            "CPU"
        },
    );
    out.append("\",\"grid_ms\":");
    push_millis(&mut out, s.grid_ns);
    out.append(",\"open_ms\":");
    push_millis(&mut out, s.open_ns);
    out.append(",\"setup_ms\":");
    push_millis(&mut out, s.setup_ns);
    out.append(",\"scan_ms\":");
    push_millis(&mut out, s.scan_ns);
    out.append(",\"decode_ms\":");
    push_millis(&mut out, s.decode_ns);
    out.append(",\"convert_ms\":");
    push_millis(&mut out, s.convert_ns);
    out.append(",\"scan_mb_s\":");
    push_ratio(&mut out, s.scan_mb_s, 0);
    out.append("}\n");
    out
}

/// One clip as a line of JSON, recorded at `ts`.
pub fn line(s: &ClipStats, ts: &str) -> (out: String)
    requires
        s.valid(),
    ensures
        out@ == record_text(*s, ts@),
{
    let mut out = identity(s, ts);
    out.append(stream(s).as_str());
    out.append(layout(s).as_str());
    out.append(cost(s).as_str());
    out
}

} // verus!
