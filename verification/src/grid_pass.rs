//! One pass over a clip for its contact sheet, as a machine: it is told what the
//! demuxer, the decoder and the scaler gave, and says what to do next.
//!
//! Only keyframe packets go to the decoder. Each decodes on its own, so the
//! frames in between cost nothing but reading them.

use vstd::prelude::*;

use crate::clip_stats::{ClipStats, Ratio};
use crate::clock;
use crate::sampler;
use crate::sampler::{KeyframeSampler, Sampling};
use crate::scrub_cache::{Picture, Thumbnail};
use crate::session;
use crate::session::StreamShape;
use crate::sizing;
use crate::tally;
use crate::tally::{PacketInfo, Tally};

verus! {

/// Clip metadata, reported once before any thumbnail.
#[derive(Clone, Copy, Debug, PartialEq, Eq, Structural)]
pub struct GridMeta {
    pub duration_ns: i64,
    pub src_w: u32,
    pub src_h: u32,
}

/// The whole contact sheet with the metadata of its source.
pub struct Grid {
    pub duration_ns: i64,
    pub src_w: u32,
    pub src_h: u32,
    pub thumbs: Vec<Thumbnail>,
}

/// What the pass waits for.
#[derive(Clone, Copy, Debug, PartialEq, Eq, Structural)]
pub enum GridPhase {
    /// Whether the pass has been abandoned.
    Checking,
    /// The demuxer's next packet.
    Reading,
    /// A packet, or word that there are no more, being sent to the decoder;
    /// `true` for the latter.
    Sending(bool),
    /// The decoder's next frame; `true` once there are no more packets.
    Draining(bool),
    /// The frame of this media time being scaled.
    Converting(i64, bool),
    /// A thumbnail being handed on.
    Emitting(bool),
    /// Nothing: the whole clip was read.
    Finished,
    /// Nothing: the pass was abandoned.
    Cancelled,
    /// Nothing: the pass failed.
    Failed,
}

/// What happened outside.
pub enum GridEvent {
    /// Whether the pass has been abandoned.
    Cancel(bool),
    /// The demuxer gave a packet; the flag says whether it is of the stream.
    Packet(bool, PacketInfo),
    /// The demuxer has no more packets.
    NoPacket,
    /// What was asked for is done.
    Done,
    /// The decoder gave a frame with these timestamps.
    Frame(Option<i64>, Option<i64>),
    /// The decoder gave no frame.
    NoFrame,
    /// The frame was scaled into these pixels; the flag says whether it came
    /// from the GPU.
    Scaled(Vec<u8>, bool),
    /// What was asked for failed.
    Failed,
}

/// What to do next.
pub enum GridAction {
    /// See whether the pass has been abandoned.
    Check,
    /// Read a packet.
    Read,
    /// Send the packet to the decoder.
    Send,
    /// Tell the decoder that there are no more packets.
    SendEof,
    /// Ask the decoder for a frame.
    Receive,
    /// Scale the frame to this size.
    Convert(u32, u32),
    /// Hand on this thumbnail, numbered from zero.
    Emit(usize, Thumbnail),
    /// Leave: the whole clip was read.
    Finish,
    /// Leave: the pass was abandoned.
    Abandon,
    /// Leave: the pass failed.
    Fail,
}

/// A [`GridAction`], with the thumbnail it hands on by what it shows.
#[verifier::ext_equal]
pub enum GridDoing {
    Check,
    Read,
    Send,
    SendEof,
    Receive,
    Convert(u32, u32),
    Emit(int, Picture),
    Finish,
    Abandon,
    Fail,
}

impl View for GridAction {
    type V = GridDoing;

    open spec fn view(&self) -> GridDoing {
        match *self {
            GridAction::Check => GridDoing::Check,
            GridAction::Read => GridDoing::Read,
            GridAction::Send => GridDoing::Send,
            GridAction::SendEof => GridDoing::SendEof,
            GridAction::Receive => GridDoing::Receive,
            GridAction::Convert(w, h) => GridDoing::Convert(w, h),
            GridAction::Emit(i, t) => GridDoing::Emit(i as int, t@),
            GridAction::Finish => GridDoing::Finish,
            GridAction::Abandon => GridDoing::Abandon,
            GridAction::Fail => GridDoing::Fail,
        }
    }
}

/// What the pass decides by.
pub struct Scan {
    pub shape: StreamShape,
    /// The size thumbnails are scaled to.
    pub thumb: (u32, u32),
    pub phase: GridPhase,
    pub sampling: Sampling,
    /// The video packets read so far.
    pub packets: Seq<PacketInfo>,
    /// Thumbnails handed on so far.
    pub kept: int,
    /// Whether the first thumbnail came from the GPU.
    pub from_gpu: Option<bool>,
}

/// Whether the pass waits for this kind of event.
pub open spec fn grid_awaits(phase: GridPhase, event: GridEvent) -> bool {
    match phase {
        GridPhase::Checking => event is Cancel,
        GridPhase::Reading => event is Packet || event is NoPacket,
        GridPhase::Sending(_) => event is Done,
        GridPhase::Draining(_) => event is Frame || event is NoFrame,
        GridPhase::Converting(_, _) => event is Scaled || event is Failed,
        GridPhase::Emitting(_) => event is Done,
        GridPhase::Finished | GridPhase::Cancelled | GridPhase::Failed => false,
    }
}

/// Going to another phase.
pub open spec fn to(s: Scan, phase: GridPhase, doing: GridDoing) -> (Scan, GridDoing) {
    (Scan { phase, ..s }, doing)
}

/// What the pass does with an event it waits for.
pub open spec fn grid_next(s: Scan, event: GridEvent) -> (Scan, GridDoing) {
    match (s.phase, event) {
        (GridPhase::Checking, GridEvent::Cancel(abandoned)) => if abandoned {
            to(s, GridPhase::Cancelled, GridDoing::Abandon)
        } else {
            to(s, GridPhase::Reading, GridDoing::Read)
        },
        // Only keyframes of the stream are sent; everything else is passed over,
        // but every packet of the stream is weighed.
        (GridPhase::Reading, GridEvent::Packet(ours, p)) => if !ours {
            to(s, GridPhase::Checking, GridDoing::Check)
        } else {
            let t = Scan { packets: s.packets.push(p), ..s };
            if p.key {
                to(t, GridPhase::Sending(false), GridDoing::Send)
            } else {
                to(t, GridPhase::Checking, GridDoing::Check)
            }
        },
        (GridPhase::Reading, GridEvent::NoPacket) => to(
            s,
            GridPhase::Sending(true),
            GridDoing::SendEof,
        ),
        (GridPhase::Sending(last), GridEvent::Done) => to(
            s,
            GridPhase::Draining(last),
            GridDoing::Receive,
        ),
        (GridPhase::Draining(last), GridEvent::Frame(pts, best)) => {
            let t = session::time_of(s.shape, pts, best);
            let n = Scan { sampling: sampler::passed(s.sampling, t as int), ..s };
            if sampler::kept(s.sampling, t as int) {
                to(n, GridPhase::Converting(t, last), GridDoing::Convert(s.thumb.0, s.thumb.1))
            } else {
                to(n, GridPhase::Draining(last), GridDoing::Receive)
            }
        },
        (GridPhase::Draining(last), GridEvent::NoFrame) => if last {
            to(s, GridPhase::Finished, GridDoing::Finish)
        } else {
            to(s, GridPhase::Checking, GridDoing::Check)
        },
        (GridPhase::Converting(t, last), GridEvent::Scaled(rgba, gpu)) => (
            Scan {
                phase: GridPhase::Emitting(last),
                kept: s.kept + 1,
                from_gpu: match s.from_gpu {
                    Some(g) => Some(g),
                    None => Some(gpu),
                },
                ..s
            },
            GridDoing::Emit(
                s.kept,
                Picture { time_ns: t, width: s.thumb.0, height: s.thumb.1, rgba: rgba@ },
            ),
        ),
        (GridPhase::Emitting(last), GridEvent::Done) => to(
            s,
            GridPhase::Draining(last),
            GridDoing::Receive,
        ),
        _ => to(s, GridPhase::Failed, GridDoing::Fail),
    }
}

/// A pass over one clip.
pub struct GridPass {
    shape: StreamShape,
    thumb: (u32, u32),
    sampler: KeyframeSampler,
    tally: Tally,
    kept: usize,
    from_gpu: Option<bool>,
    phase: GridPhase,
}

impl View for GridPass {
    type V = Scan;

    closed spec fn view(&self) -> Scan {
        Scan {
            shape: self.shape,
            thumb: self.thumb,
            phase: self.phase,
            sampling: self.sampler@,
            packets: self.tally@,
            kept: self.kept as int,
            from_gpu: self.from_gpu,
        }
    }
}

impl GridPass {
    /// A pass over a valid stream whose counts are in order.
    pub closed spec fn wf(self) -> bool {
        &&& self.shape.valid()
        &&& self.sampler.wf()
        &&& self.tally.wf()
    }

    /// A pass that keeps a thumbnail about every `spacing_ns`, each fitted into
    /// a box with this long side. The first thing it wants to know is whether it
    /// has been abandoned.
    pub fn new(shape: StreamShape, spacing_ns: i64, thumb_long_side: u32) -> (g: GridPass)
        requires
            shape.valid(),
        ensures
            g.wf(),
            g@.shape == shape,
            (g@.thumb.0 as int, g@.thumb.1 as int) == sizing::fitted(
                shape.src_w as int,
                shape.src_h as int,
                thumb_long_side as int,
            ),
            g@.phase == GridPhase::Checking,
            g@.sampling == (Sampling {
                spacing_ns: spacing_ns as int,
                first_ns: None,
                stride: None,
                seen: 0,
            }),
            g@.packets == Seq::<PacketInfo>::empty(),
            g@.kept == 0,
            g@.from_gpu is None,
    {
        GridPass {
            shape,
            thumb: sizing::thumb_size(shape.src_w, shape.src_h, thumb_long_side),
            sampler: KeyframeSampler::new(spacing_ns),
            tally: Tally::new(),
            kept: 0,
            from_gpu: None,
            phase: GridPhase::Checking,
        }
    }

    /// The metadata of the clip.
    pub fn meta(&self, duration_ns: i64) -> (m: GridMeta)
        ensures
            m == (GridMeta {
                duration_ns,
                src_w: self@.shape.src_w,
                src_h: self@.shape.src_h,
            }),
    {
        GridMeta { duration_ns, src_w: self.shape.src_w, src_h: self.shape.src_h }
    }

    /// Whether another packet and another thumbnail can still be counted.
    pub fn has_room(&self) -> (room: bool)
        requires
            self.wf(),
        ensures
            room == (self@.packets.len() < u32::MAX && self@.kept < usize::MAX),
    {
        self.tally.packets() < u32::MAX && self.kept < usize::MAX
    }

    /// How many thumbnails were handed on.
    pub fn kept(&self) -> (n: usize)
        ensures
            n == self@.kept,
    {
        self.kept
    }

    /// The counts of the packets read so far.
    pub fn tally(&self) -> (t: &Tally)
        requires
            self.wf(),
        ensures
            t.wf(),
            t@ == self@.packets,
    {
        &self.tally
    }

    /// Take an event the pass waits for and say what to do next.
    pub fn step(&mut self, event: GridEvent) -> (action: GridAction)
        requires
            old(self).wf(),
            grid_awaits(old(self)@.phase, event),
            old(self)@.packets.len() < u32::MAX,
            old(self)@.kept < usize::MAX,
        ensures
            final(self).wf(),
            (final(self)@, action@) == grid_next(old(self)@, event),
    {
        match event {
            GridEvent::Cancel(abandoned) => {
                if abandoned {
                    self.phase = GridPhase::Cancelled;
                    GridAction::Abandon
                } else {
                    self.phase = GridPhase::Reading;
                    GridAction::Read
                }
            },
            GridEvent::Packet(ours, p) => {
                if ours {
                    self.tally.weigh(p);
                }
                if ours && p.key {
                    self.phase = GridPhase::Sending(false);
                    GridAction::Send
                } else {
                    self.phase = GridPhase::Checking;
                    GridAction::Check
                }
            },
            GridEvent::NoPacket => {
                self.phase = GridPhase::Sending(true);
                GridAction::SendEof
            },
            GridEvent::Done => {
                let last: bool = match self.phase {
                    GridPhase::Sending(last) => last,
                    GridPhase::Emitting(last) => last,
                    _ => false,
                };
                self.phase = GridPhase::Draining(last);
                GridAction::Receive
            },
            GridEvent::Frame(pts, best_effort) => {
                let t: i64 = clock::frame_time(
                    clock::frame_pts(pts, best_effort),
                    self.shape.start,
                    self.shape.time_base,
                );
                let last: bool = match self.phase {
                    GridPhase::Draining(last) => last,
                    _ => false,
                };
                if self.sampler.keep(t) {
                    self.phase = GridPhase::Converting(t, last);
                    GridAction::Convert(self.thumb.0, self.thumb.1)
                } else {
                    GridAction::Receive
                }
            },
            GridEvent::NoFrame => {
                let last: bool = match self.phase {
                    GridPhase::Draining(last) => last,
                    _ => false,
                };
                if last {
                    self.phase = GridPhase::Finished;
                    GridAction::Finish
                } else {
                    self.phase = GridPhase::Checking;
                    GridAction::Check
                }
            },
            GridEvent::Scaled(rgba, gpu) => {
                let (t, last): (i64, bool) = match self.phase {
                    GridPhase::Converting(t, last) => (t, last),
                    _ => (0, false),
                };
                if self.from_gpu.is_none() {
                    self.from_gpu = Some(gpu);
                }
                let index: usize = self.kept;
                self.kept = self.kept + 1;
                self.phase = GridPhase::Emitting(last);
                GridAction::Emit(
                    index,
                    Thumbnail { time_ns: t, width: self.thumb.0, height: self.thumb.1, rgba },
                )
            },
            GridEvent::Failed => {
                self.phase = GridPhase::Failed;
                GridAction::Fail
            },
        }
    }
}

/// The metadata and thumbnails of a whole pass as a contact sheet; nothing if
/// the pass reported no metadata.
pub fn whole_grid(meta: Option<GridMeta>, thumbs: Vec<Thumbnail>) -> (g: Option<Grid>)
    ensures
        match meta {
            Some(m) => g == Some(
                Grid { duration_ns: m.duration_ns, src_w: m.src_w, src_h: m.src_h, thumbs },
            ),
            None => g is None,
        },
{
    match meta {
        Some(m) => Some(
            Grid { duration_ns: m.duration_ns, src_w: m.src_w, src_h: m.src_h, thumbs },
        ),
        None => None,
    }
}

/// What a pass is told about the clip beyond its packets.
pub struct ClipFacts {
    pub file: String,
    pub size_bytes: u64,
    pub container: String,
    /// The codec's name, if it has one.
    pub codec: Option<String>,
    pub profile: String,
    pub level: i32,
    /// The pixel format's name, if the header declares a format.
    pub pix_fmt: Option<String>,
    /// The average frame rate the container declares.
    pub rate: (i32, i32),
    pub duration_ns: i64,
    pub has_b_frames: bool,
}

/// How long the stages of a pass took.
#[derive(Clone, Copy, Debug, PartialEq, Eq, Structural)]
pub struct PassTiming {
    pub grid_ns: u64,
    pub open_ns: u64,
    pub setup_ns: u64,
    pub scan_ns: u64,
    pub decode_ns: u64,
    pub convert_ns: u64,
}

/// A name, or `unknown` for what has none.
pub open spec fn name_or_unknown(name: Option<String>) -> Seq<char> {
    match name {
        Some(n) => n@,
        None => "unknown"@,
    }
}

/// Whether `r` is the fraction `num / den`, or zero where the denominator is not
/// positive.
pub open spec fn is_quotient(r: Ratio, num: int, den: int) -> bool {
    if den > 0 {
        r.num == num && r.den == den
    } else {
        r.num == 0 && r.den == 1
    }
}

/// Whether these figures are the spread of the samples, each sample counted in
/// units of `unit / per`.
pub open spec fn spread_of(
    min: Ratio,
    mean: Ratio,
    max: Ratio,
    samples: Seq<int>,
    unit: int,
    per: int,
) -> bool {
    &&& exists|m: int| #[trigger]
        tally::is_least(m, samples) && min.num == m * unit && min.den == per
    &&& exists|m: int| #[trigger]
        tally::is_greatest(m, samples) && max.num == m * unit && max.den == per
    &&& mean.num == tally::total(samples) * unit
    &&& mean.den == per * if samples.len() == 0 {
        1
    } else {
        samples.len() as int
    }
}

/// What a whole pass over these packets says of the clip.
pub open spec fn learned(
    c: ClipStats,
    s: Scan,
    facts: ClipFacts,
    timing: PassTiming,
) -> bool {
    let tb = s.shape.time_base;
    let ps = s.packets;
    let bytes = tally::weight(ps);
    &&& c.file@ == facts.file@
    &&& c.size_bytes == facts.size_bytes
    &&& c.container@ == facts.container@
    &&& c.codec@ == name_or_unknown(facts.codec)
    &&& c.profile@ == facts.profile@
    &&& c.level == facts.level
    &&& c.width == s.shape.src_w
    &&& c.height == s.shape.src_h
    &&& c.pix_fmt@ == name_or_unknown(facts.pix_fmt)
    &&& is_quotient(
        c.fps,
        facts.rate.0 as int,
        if facts.rate.0 > 0 {
            facts.rate.1 as int
        } else {
            0
        },
    )
    &&& c.duration_ns == facts.duration_ns
    // Bits per microsecond.
    &&& is_quotient(c.video_mbit_s, bytes * 8000, facts.duration_ns as int)
    &&& c.has_b_frames == facts.has_b_frames
    &&& c.packets == ps.len()
    &&& c.keyframes == tally::keys(ps).len()
    &&& spread_of(
        c.gop_frames_min,
        c.gop_frames_mean,
        c.gop_frames_max,
        tally::gaps(tally::key_places(ps)),
        1,
        1,
    )
    &&& spread_of(
        c.gop_s_min,
        c.gop_s_mean,
        c.gop_s_max,
        tally::gaps(tally::key_stamps(ps)),
        tb.num as int,
        tb.den as int,
    )
    &&& is_quotient(
        c.key_share_pct,
        tally::weight(tally::keys(ps)) * 100,
        if bytes < 1 {
            1
        } else {
            bytes
        },
    )
    &&& c.hw_decode == (s.from_gpu == Some(true))
    &&& c.grid_ns == timing.grid_ns
    &&& c.open_ns == timing.open_ns
    &&& c.setup_ns == timing.setup_ns
    &&& c.scan_ns == timing.scan_ns
    &&& c.decode_ns == timing.decode_ns
    &&& c.convert_ns == timing.convert_ns
    // Bytes per microsecond.
    &&& is_quotient(c.scan_mb_s, bytes * 1000, timing.scan_ns as int)
}

fn quotient(num: i128, den: u64) -> (r: Ratio)
    requires
        -crate::clip_stats::RATIO_LIMIT <= num <= crate::clip_stats::RATIO_LIMIT,
    ensures
        r.valid(),
        is_quotient(r, num as int, den as int),
{
    if den > 0 {
        Ratio { num, den }
    } else {
        Ratio { num: 0, den: 1 }
    }
}

/// The least, mean and greatest of a spread, in units of `unit / per`.
fn figures(s: &tally::Spread, unit: i32, per: i32) -> (f: (Ratio, Ratio, Ratio))
    requires
        s.wf(),
        unit >= 0,
        per > 0,
        -tally::SAMPLE_LIMIT <= tally::total(s@) <= tally::SAMPLE_LIMIT,
    ensures
        f.0.valid(),
        f.1.valid(),
        f.2.valid(),
        spread_of(f.0, f.1, f.2, s@, unit as int, per as int),
{
    let low: i128 = s.least();
    let high: i128 = s.greatest();
    let sum: i128 = s.sum();
    let n: u64 = if s.count() == 0 {
        1
    } else {
        s.count() as u64
    };
    proof {
        lemma_product_fits(low as int, unit as int);
        lemma_product_fits(high as int, unit as int);
        lemma_product_fits(sum as int, unit as int);
        assert(0 < per * n <= 0x7fff_ffff * 0xffff_ffff) by (nonlinear_arith)
            requires
                0 < per <= 0x7fff_ffff,
                1 <= n <= 0xffff_ffff,
        ;
        assert(tally::is_least(low as int, s@));
        assert(tally::is_greatest(high as int, s@));
    }
    (
        Ratio { num: low * unit as i128, den: per as u64 },
        Ratio { num: sum * unit as i128, den: per as u64 * n },
        Ratio { num: high * unit as i128, den: per as u64 },
    )
}

proof fn lemma_product_fits(x: int, unit: int)
    requires
        -tally::SAMPLE_LIMIT <= x <= tally::SAMPLE_LIMIT,
        0 <= unit <= 0x7fff_ffff,
    ensures
        -crate::clip_stats::RATIO_LIMIT <= x * unit <= crate::clip_stats::RATIO_LIMIT,
{
    assert(-(0x1_0000_0000_0000_0000 * 0x7fff_ffff) <= x * unit <= 0x1_0000_0000_0000_0000
        * 0x7fff_ffff) by (nonlinear_arith)
        requires
            -0x1_0000_0000_0000_0000 <= x <= 0x1_0000_0000_0000_0000,
            0 <= unit <= 0x7fff_ffff,
    ;
}

proof fn lemma_spans_fit(ps: Seq<PacketInfo>)
    requires
        ps.len() <= u32::MAX,
    ensures
        -tally::SAMPLE_LIMIT <= tally::total(tally::gaps(tally::key_places(ps)))
            <= tally::SAMPLE_LIMIT,
        -tally::SAMPLE_LIMIT <= tally::total(tally::gaps(tally::key_stamps(ps)))
            <= tally::SAMPLE_LIMIT,
{
    lemma_places_fit(ps);
    lemma_stamps_fit(ps);
    let places = tally::key_places(ps);
    let stamps = tally::key_stamps(ps);
    if places.len() > 0 {
        tally::gaps_add_up_to_the_whole_span(places);
        assert(1 <= places[0] <= ps.len());
        assert(1 <= places[places.len() - 1] <= ps.len());
    }
    if stamps.len() > 0 {
        tally::gaps_add_up_to_the_whole_span(stamps);
        assert(i64::MIN <= stamps[0] <= i64::MAX);
        assert(i64::MIN <= stamps[stamps.len() - 1] <= i64::MAX);
    }
}

proof fn lemma_places_fit(ps: Seq<PacketInfo>)
    ensures
        forall|i: int|
            0 <= i < tally::key_places(ps).len() ==> 1 <= #[trigger] tally::key_places(ps)[i]
                <= ps.len(),
    decreases ps.len(),
{
    if ps.len() > 0 {
        lemma_places_fit(ps.drop_last());
        let rest = tally::key_places(ps.drop_last());
        assert forall|i: int| 0 <= i < tally::key_places(ps).len() implies 1
            <= #[trigger] tally::key_places(ps)[i] <= ps.len() by {
            if i < rest.len() {
                assert(tally::key_places(ps)[i] == rest[i]);
            }
        }
    }
}

proof fn lemma_stamps_fit(ps: Seq<PacketInfo>)
    ensures
        forall|i: int|
            0 <= i < tally::key_stamps(ps).len() ==> i64::MIN <= #[trigger] tally::key_stamps(
                ps,
            )[i] <= i64::MAX,
    decreases ps.len(),
{
    if ps.len() > 0 {
        lemma_stamps_fit(ps.drop_last());
        let rest = tally::key_stamps(ps.drop_last());
        assert forall|i: int| 0 <= i < tally::key_stamps(ps).len() implies i64::MIN
            <= #[trigger] tally::key_stamps(ps)[i] <= i64::MAX by {
            if i < rest.len() {
                assert(tally::key_stamps(ps)[i] == rest[i]);
            }
        }
    }
}

fn named(name: Option<String>) -> (s: String)
    ensures
        s@ == name_or_unknown(name),
{
    match name {
        Some(n) => n,
        None => "unknown".to_owned(),
    }
}

impl GridPass {
    /// What the pass learned about the clip, if it read the whole of it. A
    /// record of a partly read file would read as a short clip with few
    /// keyframes rather than as the fragment it is.
    pub fn stats(&self, facts: ClipFacts, timing: PassTiming) -> (c: Option<ClipStats>)
        requires
            self.wf(),
        ensures
            c is Some <==> self@.phase == GridPhase::Finished,
            c is Some ==> c->0.valid() && learned(c->0, self@, facts, timing),
    {
        match self.phase {
            GridPhase::Finished => {},
            _ => {
                return None;
            },
        }
        let tb = self.shape.time_base;
        let bytes: u64 = self.tally.bytes();
        let packets: u32 = self.tally.packets();
        proof {
            lemma_spans_fit(self@.packets);
        }
        let (f_min, f_mean, f_max) = figures(self.tally.gop_frames(), 1, 1);
        let (s_min, s_mean, s_max) = figures(self.tally.gop_ticks(), tb.num, tb.den);
        let rate_den: u64 = if facts.rate.0 > 0 && facts.rate.1 > 0 {
            facts.rate.1 as u64
        } else {
            0
        };
        let span: u64 = if facts.duration_ns > 0 {
            facts.duration_ns as u64
        } else {
            0
        };
        Some(
            ClipStats {
                file: facts.file,
                size_bytes: facts.size_bytes,
                container: facts.container,
                codec: named(facts.codec),
                profile: facts.profile,
                level: facts.level,
                width: self.shape.src_w,
                height: self.shape.src_h,
                pix_fmt: named(facts.pix_fmt),
                fps: quotient(facts.rate.0 as i128, rate_den),
                duration_ns: facts.duration_ns,
                video_mbit_s: quotient(bytes as i128 * 8000, span),
                has_b_frames: facts.has_b_frames,
                packets,
                keyframes: self.tally.keyframes(),
                gop_frames_min: f_min,
                gop_frames_mean: f_mean,
                gop_frames_max: f_max,
                gop_s_min: s_min,
                gop_s_mean: s_mean,
                gop_s_max: s_max,
                key_share_pct: quotient(
                    self.tally.key_bytes() as i128 * 100,
                    if bytes < 1 {
                        1
                    } else {
                        bytes
                    },
                ),
                hw_decode: match self.from_gpu {
                    Some(gpu) => gpu,
                    None => false,
                },
                grid_ns: timing.grid_ns,
                open_ns: timing.open_ns,
                setup_ns: timing.setup_ns,
                scan_ns: timing.scan_ns,
                decode_ns: timing.decode_ns,
                convert_ns: timing.convert_ns,
                scan_mb_s: quotient(bytes as i128 * 1000, timing.scan_ns),
            },
        )
    }
}

/// A pass that has been abandoned stops before it reads another packet, hands
/// on nothing more, and reports nothing of the clip.
pub proof fn an_abandoned_pass_reads_no_further(s: Scan)
    requires
        s.phase == GridPhase::Checking,
    ensures
        grid_next(s, GridEvent::Cancel(true)).1 == GridDoing::Abandon,
        grid_next(s, GridEvent::Cancel(true)).0.phase == GridPhase::Cancelled,
        grid_next(s, GridEvent::Cancel(true)).0.packets == s.packets,
        grid_next(s, GridEvent::Cancel(true)).0.kept == s.kept,
        forall|e: GridEvent| !grid_awaits(GridPhase::Cancelled, e),
{
}

/// Before every packet the pass asks whether it has been abandoned: it reads
/// only right after being told that it has not.
pub proof fn every_read_follows_a_check(s: Scan, event: GridEvent)
    requires
        grid_awaits(s.phase, event),
        grid_next(s, event).1 == GridDoing::Read,
    ensures
        s.phase == GridPhase::Checking,
        event == GridEvent::Cancel(false),
{
}

/// Only keyframe packets of the stream reach the decoder.
pub proof fn only_keyframes_are_decoded(s: Scan, event: GridEvent)
    requires
        grid_awaits(s.phase, event),
        grid_next(s, event).1 == GridDoing::Send,
    ensures
        event matches GridEvent::Packet(ours, p) && ours && p.key,
{
}

/// Thumbnails are numbered in order from zero, with none left out: each is
/// handed on with the number of those handed on before it, at the size chosen
/// and with the time of the keyframe it shows.
pub proof fn thumbnails_are_numbered_in_order(s: Scan, event: GridEvent)
    requires
        grid_awaits(s.phase, event),
    ensures
        grid_next(s, event).1 matches GridDoing::Emit(i, p) ==> i == s.kept && grid_next(
            s,
            event,
        ).0.kept == s.kept + 1 && s.phase is Converting && p.time_ns == s.phase->Converting_0 && (
        p.width, p.height) == s.thumb,
        !(grid_next(s, event).1 is Emit) ==> grid_next(s, event).0.kept == s.kept,
{
}

/// A decoded keyframe becomes a thumbnail exactly when the sampler keeps it.
pub proof fn a_keyframe_becomes_a_thumbnail_when_sampled(
    s: Scan,
    pts: Option<i64>,
    best: Option<i64>,
)
    requires
        s.phase is Draining,
    ensures
        grid_next(s, GridEvent::Frame(pts, best)).1 is Convert <==> sampler::kept(
            s.sampling,
            session::time_of(s.shape, pts, best) as int,
        ),
{
}

} // verus!
