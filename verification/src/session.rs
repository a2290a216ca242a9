//! One playback session as a machine: it is told what happened outside, and
//! says what to do next.
//!
//! The machine owns every decision of the player: which commands it folds in,
//! when it seeks, which frames it skips, when a frame is due, which frames it
//! shows and which of them it keeps. The caller only reads packets, decodes,
//! scales, waits and hands frames on.

use vstd::prelude::*;

use crate::clock;
use crate::clock::TimeBase;
use crate::pace;
use crate::pace::PaceReport;
use crate::play_state;
use crate::play_state::{PlayCommand, PlayState};
use crate::pump;
use crate::pump::{Pump, PumpStep, Received};
use crate::scrub_cache;
use crate::scrub_cache::{Picture, ScrubCache, Thumbnail};
use crate::sizing;

verus! {

/// What the machine knows of the clip's video stream.
#[derive(Clone, Copy, Debug, PartialEq, Eq, Structural)]
pub struct StreamShape {
    pub src_w: u32,
    pub src_h: u32,
    pub time_base: TimeBase,
    /// Timestamp of the stream's start, if it declares one.
    pub start: Option<i64>,
}

impl StreamShape {
    /// A stream of frames that have an extent, timed by a valid time base.
    pub open spec fn valid(self) -> bool {
        &&& self.src_w > 0 || self.src_h > 0
        &&& self.time_base.valid()
    }
}

/// One decoded frame on its way to the screen: an RGBA image scaled to fit the
/// box last asked for, its media time, and the size of the source it came from.
pub struct PlaybackFrame {
    pub time_ns: i64,
    pub width: u32,
    pub height: u32,
    pub src_w: u32,
    pub src_h: u32,
    pub rgba: Vec<u8>,
}

/// What a [`PlaybackFrame`] shows.
#[verifier::ext_equal]
pub struct ShownFrame {
    pub picture: Picture,
    pub src_w: u32,
    pub src_h: u32,
}

impl View for PlaybackFrame {
    type V = ShownFrame;

    open spec fn view(&self) -> ShownFrame {
        ShownFrame {
            picture: Picture {
                time_ns: self.time_ns,
                width: self.width,
                height: self.height,
                rgba: self.rgba@,
            },
            src_w: self.src_w,
            src_h: self.src_h,
        }
    }
}

/// Timing of one move, from the command to the frame it lands on.
#[derive(Clone, Copy, Debug, PartialEq, Eq, Structural)]
pub struct SeekProfile {
    pub start_ns: u64,
    pub target_ns: i64,
    pub seek_ns: u64,
    pub decoded: u32,
    pub decode_ns: u64,
}

/// What is worth a line in the log.
#[derive(Clone, Copy, Debug, PartialEq, Eq, Structural)]
pub enum Report {
    /// A stretch of playback at one output box.
    Pace(PaceReport),
    /// A move landed by decoding: its profile, how long it took, where it landed.
    Landed(SeekProfile, u64, i64),
    /// A move was served from the frames already shown.
    Cached(SeekProfile, u64, i64),
}

/// What the machine waits for.
#[derive(Clone, Copy, Debug, PartialEq, Eq, Structural)]
pub enum Phase {
    /// The next queued command, or word that there is none.
    Polling,
    /// A held frame was handed out.
    Serving(i64),
    /// A seek that began at this wall time.
    Seeking(u64),
    /// The next command, however long it takes.
    Blocking,
    /// The decoder's answer to a request for a frame; the decode began at this
    /// wall time.
    Receiving(u64),
    /// The decoder being told that no more packets will come.
    Flushing(u64),
    /// The demuxer's next packet.
    Reading(u64),
    /// A skipped frame being set aside.
    Buffering,
    /// The frame set aside last being brought back.
    Recalling,
    /// The frame of this media time becoming due, or a command before that.
    Pacing(i64),
    /// The frame of this media time being scaled.
    Converting(i64),
    /// The frame of this media time being handed on.
    Emitting(i64),
    /// Nothing: the session is over.
    Over,
}

/// What happened outside.
pub enum Event {
    /// A command arrived.
    Command(PlayCommand),
    /// No command is queued, or none came in the time waited.
    Idle,
    /// The command channel is closed.
    Disconnected,
    /// What was asked for is done.
    Done,
    /// What was asked for failed.
    Failed,
    /// The decoder gave a frame with these timestamps, or the frame set aside,
    /// which has them, was brought back.
    Decoded(Option<i64>, Option<i64>),
    /// The decoder wants more packets.
    Again,
    /// The decoder is drained.
    Eof,
    /// The demuxer gave another packet of the stream to the decoder, or had none.
    Packet(bool),
    /// The frame was scaled to the size asked for, into these pixels.
    Scaled(Vec<u8>),
    /// The frame was handed on; `false` if nobody takes frames any more.
    Delivered(bool),
}

/// What to do next.
pub enum Action {
    /// Take a queued command, if there is one.
    Poll,
    /// Wait for a command.
    Block,
    /// Wait for a command, for this many nanoseconds at most.
    Wait(u64),
    /// Seek to this many microseconds or the keyframe before, and flush the
    /// decoder.
    Seek(i64),
    /// Ask the decoder for a frame.
    Receive,
    /// Tell the decoder that no more packets will come.
    SendEof,
    /// Hand the stream's next packet to the decoder.
    ReadPacket,
    /// Set the frame aside, in place of the one set aside before.
    Buffer,
    /// Bring back the frame set aside last.
    Recall,
    /// Scale the frame to this size.
    Convert(u32, u32),
    /// Hand this frame on.
    Emit(PlaybackFrame),
    /// Leave: the session is over.
    End,
}

/// An [`Action`], with the frame it hands on by what it shows.
#[verifier::ext_equal]
pub enum Doing {
    Poll,
    Block,
    Wait(u64),
    Seek(i64),
    Receive,
    SendEof,
    ReadPacket,
    Buffer,
    Recall,
    Convert(u32, u32),
    Emit(ShownFrame),
    End,
}

impl View for Action {
    type V = Doing;

    open spec fn view(&self) -> Doing {
        match *self {
            Action::Poll => Doing::Poll,
            Action::Block => Doing::Block,
            Action::Wait(ns) => Doing::Wait(ns),
            Action::Seek(us) => Doing::Seek(us),
            Action::Receive => Doing::Receive,
            Action::SendEof => Doing::SendEof,
            Action::ReadPacket => Doing::ReadPacket,
            Action::Buffer => Doing::Buffer,
            Action::Recall => Doing::Recall,
            Action::Convert(w, h) => Doing::Convert(w, h),
            Action::Emit(f) => Doing::Emit(f@),
            Action::End => Doing::End,
        }
    }
}

/// Everything the machine decides by, but for the frames it holds.
#[derive(Clone, Copy, Debug, PartialEq, Eq)]
pub struct Control {
    pub shape: StreamShape,
    pub play: PlayState,
    /// The size frames are scaled to; zero by zero until one has been chosen.
    pub out: (u32, u32),
    pub pump: Pump,
    /// Whether a skipped frame is set aside.
    pub skipped: bool,
    /// Timing of the move in flight.
    pub profile: Option<SeekProfile>,
    pub pace: PaceReport,
    pub phase: Phase,
}

/// One turn of the machine: what it decides by and what it holds afterwards,
/// what it does, and what it reports.
pub struct Turn {
    pub control: Control,
    pub held: Seq<Picture>,
    pub doing: Doing,
    pub report: Option<Report>,
}

/// A sum of two spans, at most the longest that can be told.
pub open spec fn span_sum(a: u64, b: u64) -> u64 {
    if a + b > u64::MAX {
        u64::MAX
    } else {
        (a + b) as u64
    }
}

/// The time between two readings of the wall clock.
pub open spec fn span(now: u64, then: u64) -> u64 {
    if now >= then {
        (now - then) as u64
    } else {
        0
    }
}

/// Ending the session closes the stretch being played.
pub open spec fn ended(c: Control, held: Seq<Picture>) -> Turn {
    Turn {
        control: Control { phase: Phase::Over, pace: pace::restarted(c.pace), ..c },
        held,
        doing: Doing::End,
        report: match pace::closing(c.pace) {
            Some(p) => Some(Report::Pace(p)),
            None => None,
        },
    }
}

/// Going back for the next command.
pub open spec fn polling(c: Control, held: Seq<Picture>, report: Option<Report>) -> Turn {
    Turn { control: Control { phase: Phase::Polling, ..c }, held, doing: Doing::Poll, report }
}

/// A command arrived while the machine was waiting for one.
pub open spec fn commanded(c: Control, held: Seq<Picture>, cmd: PlayCommand, now: u64) -> Turn {
    let next = Control { play: play_state::folded(c.play, cmd, now), ..c };
    if cmd == PlayCommand::Stop {
        ended(next, held)
    } else {
        polling(next, held, None)
    }
}

/// The size the long side asked for amounts to.
pub open spec fn wanted_size(c: Control) -> (u32, u32) {
    let s = sizing::playback_size(
        c.shape.src_w as int,
        c.shape.src_h as int,
        c.play.long_side as int,
    );
    (s.0 as u32, s.1 as u32)
}

/// A change of output size empties the cache and starts a new stretch.
pub open spec fn resized(c: Control, held: Seq<Picture>) -> (Control, Seq<Picture>, Option<
    Report,
>) {
    let size = wanted_size(c);
    if c.out == size {
        (c, held, None)
    } else {
        let (pace, closed) = pace::reboxed(c.pace, size.0, size.1);
        (
            Control { out: size, pace, ..c },
            Seq::empty(),
            match closed {
                Some(p) => Some(Report::Pace(p)),
                None => None,
            },
        )
    }
}

/// A move that has just begun gets a profile of its own.
pub open spec fn profiled(c: Control) -> Control {
    match c.play.move_start {
        Some(start) => Control {
            play: PlayState { move_start: None, ..c.play },
            profile: Some(
                SeekProfile {
                    start_ns: start,
                    target_ns: match play_state::destination(c.play) {
                        Some(t) => t,
                        None => c.play.current_ns,
                    },
                    seek_ns: 0,
                    decoded: 0,
                    decode_ns: 0,
                },
            ),
            ..c
        },
        None => c,
    }
}

/// The held frame that answers a scrub in flight, if one does.
pub open spec fn hit(c: Control, held: Seq<Picture>, frame_dur: int) -> Option<Picture> {
    match play_state::destination(c.play) {
        Some(t) => if c.play.hold_after && scrub_cache::answered(held, frame_dur, t as int) {
            Some(held[choose|i: int| scrub_cache::serves(held, frame_dur, t as int, i)])
        } else {
            None
        },
        None => None,
    }
}

/// Past any seek: hold, or decode the next frame.
pub open spec fn resumed(c: Control, held: Seq<Picture>, report: Option<Report>, now: u64) -> Turn {
    if c.play.paused {
        Turn {
            control: Control { phase: Phase::Blocking, ..c },
            held,
            doing: Doing::Block,
            report,
        }
    } else {
        Turn {
            control: Control { phase: Phase::Receiving(now), ..c },
            held,
            doing: Doing::Receive,
            report,
        }
    }
}

/// No command is left: act on the state they have left. A scrub over held
/// ground is served from it; any other pending move seeks; otherwise the
/// machine holds or decodes on.
pub open spec fn acted(c0: Control, held0: Seq<Picture>, frame_dur: int, now: u64) -> Turn {
    let (c1, held, report) = resized(c0, held0);
    let c = profiled(c1);
    match hit(c, held, frame_dur) {
        Some(p) => Turn {
            control: Control { phase: Phase::Serving(p.time_ns), ..c },
            held,
            doing: Doing::Emit(
                ShownFrame { picture: p, src_w: c.shape.src_w, src_h: c.shape.src_h },
            ),
            report,
        },
        None => match c.play.pending_seek {
            Some((t, precise)) => Turn {
                control: Control {
                    play: PlayState {
                        pending_seek: None,
                        skip_until: if precise {
                            Some(t)
                        } else {
                            None
                        },
                        anchor: None,
                        current_ns: t,
                        ..c.play
                    },
                    pump: Pump { demux_eof: false, eof_sent: false },
                    skipped: false,
                    phase: Phase::Seeking(now),
                    ..c
                },
                held,
                doing: Doing::Seek(
                    clock::seek_us(
                        t as int,
                        clock::saturated(
                            clock::ticks_ns(
                                clock::origin(c.shape.start) as int,
                                c.shape.time_base,
                            ),
                        ),
                    ) as i64,
                ),
                report,
            },
            None => resumed(c, held, report, now),
        },
    }
}

/// The profile of the move in flight once a decode has ended.
pub open spec fn decode_noted(p: Option<SeekProfile>, took: u64, frame: bool) -> Option<
    SeekProfile,
> {
    match p {
        Some(q) => Some(
            SeekProfile {
                decode_ns: span_sum(q.decode_ns, took),
                decoded: if frame && q.decoded < u32::MAX {
                    (q.decoded + 1) as u32
                } else {
                    q.decoded
                },
                ..q
            },
        ),
        None => None,
    }
}

/// The wall time at which the frame of media time `t` is due.
pub open spec fn due(anchor: (u64, i64), t: i64) -> u64 {
    let ahead = if t > anchor.1 {
        t - anchor.1
    } else {
        0
    };
    if anchor.0 + ahead > u64::MAX {
        u64::MAX
    } else {
        (anchor.0 + ahead) as u64
    }
}

/// A frame to be shown is scaled.
pub open spec fn converting(c: Control, held: Seq<Picture>, t: i64) -> Turn {
    Turn {
        control: Control { phase: Phase::Converting(t), ..c },
        held,
        doing: Doing::Convert(c.out.0, c.out.1),
        report: None,
    }
}

/// A frame to be shown waits until it is due. The first after a move sets the
/// pace; one whose slot has passed goes out late.
pub open spec fn paced(c: Control, held: Seq<Picture>, t: i64, now: u64) -> Turn {
    match c.play.anchor {
        None => converting(
            Control { play: PlayState { anchor: Some((now, t)), ..c.play }, ..c },
            held,
            t,
        ),
        Some(anchor) => {
            let at = due(anchor, t);
            if at >= now {
                Turn {
                    control: Control { phase: Phase::Pacing(t), ..c },
                    held,
                    doing: Doing::Wait((at - now) as u64),
                    report: None,
                }
            } else {
                converting(
                    Control { pace: pace::missed(c.pace, (now - at) as u64), ..c },
                    held,
                    t,
                )
            }
        },
    }
}

/// Whether a frame of media time `t` falls short of the target `until`.
pub open spec fn short_of(t: int, until: int) -> bool {
    t < scrub_cache::landing_bound(until)
}

/// A decoded frame arrived: skip it if it falls short of the target of a precise
/// move, else show it. Whatever was set aside before it is out of date then.
pub open spec fn arrived(c0: Control, held: Seq<Picture>, t: i64, now: u64) -> Turn {
    let c = Control { play: PlayState { current_ns: t, ..c0.play }, ..c0 };
    match c.play.skip_until {
        Some(u) => if short_of(t as int, u as int) {
            Turn {
                control: Control { skipped: true, phase: Phase::Buffering, ..c },
                held,
                doing: Doing::Buffer,
                report: None,
            }
        } else {
            paced(
                Control {
                    play: PlayState { skip_until: None, ..c.play },
                    skipped: false,
                    ..c
                },
                held,
                t,
                now,
            )
        },
        None => paced(Control { skipped: false, ..c }, held, t, now),
    }
}

/// The media time of a frame with these timestamps.
pub open spec fn time_of(shape: StreamShape, pts: Option<i64>, best_effort: Option<i64>) -> i64 {
    clock::media_ns(
        clock::placing_pts(pts, best_effort) as int,
        clock::origin(shape.start) as int,
        shape.time_base,
    ) as i64
}

/// Whether the stream ran out on a precise move that hopped forward from where
/// the decoder was and found no frame there: what it is to land on lies behind
/// the decoder, and has to be sought. A move that sought has the decoder at its
/// target and does not seek again.
pub open spec fn overran(p: PlayState) -> bool {
    p.skip_until is Some && short_of(p.current_ns as int, p.skip_until->0 as int)
}

/// The stream ran out. A precise move past the last frame lands on the frame
/// skipped last, or seeks for it if none has been skipped on the way; playing
/// holds on what is on screen.
pub open spec fn drained(c: Control, held: Seq<Picture>) -> Turn {
    if c.skipped && c.play.skip_until is Some {
        Turn {
            control: Control {
                play: PlayState { skip_until: None, hold_after: true, ..c.play },
                skipped: false,
                phase: Phase::Recalling,
                ..c
            },
            held,
            doing: Doing::Recall,
            report: None,
        }
    } else if overran(c.play) {
        polling(
            Control {
                play: PlayState {
                    skip_until: None,
                    pending_seek: Some((c.play.skip_until->0, true)),
                    ..c.play
                },
                skipped: false,
                ..c
            },
            held,
            None,
        )
    } else {
        polling(
            Control {
                play: PlayState { skip_until: None, paused: true, ..c.play },
                skipped: false,
                ..c
            },
            held,
            None,
        )
    }
}

/// The decoder answered.
pub open spec fn received(
    c0: Control,
    held: Seq<Picture>,
    since: u64,
    r: Received,
    t: i64,
    now: u64,
) -> Turn {
    let (pump, step) = pump::pumped(c0.pump, r);
    let c = Control { pump, ..c0 };
    match step {
        PumpStep::Frame => arrived(
            Control { profile: decode_noted(c.profile, span(now, since), true), ..c },
            held,
            t,
            now,
        ),
        PumpStep::Drained => drained(
            Control { profile: decode_noted(c.profile, span(now, since), false), ..c },
            held,
        ),
        PumpStep::SendEof => Turn {
            control: Control { phase: Phase::Flushing(since), ..c },
            held,
            doing: Doing::SendEof,
            report: None,
        },
        PumpStep::ReadPacket => Turn {
            control: Control { phase: Phase::Reading(since), ..c },
            held,
            doing: Doing::ReadPacket,
            report: None,
        },
        _ => ended(c, held),
    }
}

/// Asking the decoder again, within a decode that began at `since`.
pub open spec fn receiving(c: Control, held: Seq<Picture>, since: u64) -> Turn {
    Turn {
        control: Control { phase: Phase::Receiving(since), ..c },
        held,
        doing: Doing::Receive,
        report: None,
    }
}

/// The frame was scaled: count it, keep it if a scrub shows it, hand it on.
pub open spec fn emitting(
    c: Control,
    held: Seq<Picture>,
    frame_dur: int,
    t: i64,
    rgba: Seq<u8>,
) -> Turn {
    let (pace, closed) = pace::counted(c.pace);
    let picture = Picture { time_ns: t, width: c.out.0, height: c.out.1, rgba };
    Turn {
        control: Control { pace, phase: Phase::Emitting(t), ..c },
        held: if c.play.hold_after {
            scrub_cache::with_frame(held, frame_dur, picture)
        } else {
            held
        },
        doing: Doing::Emit(
            ShownFrame { picture, src_w: c.shape.src_w, src_h: c.shape.src_h },
        ),
        report: match closed {
            Some(p) => Some(Report::Pace(p)),
            None => None,
        },
    }
}

/// A decoded frame is on screen: a scrub's move is over and holds on it.
pub open spec fn shown(c: Control, held: Seq<Picture>, t: i64, now: u64) -> Turn {
    polling(
        Control {
            play: PlayState {
                shown_ns: Some(t),
                paused: c.play.paused || c.play.hold_after,
                hold_after: false,
                ..c.play
            },
            profile: None,
            ..c
        },
        held,
        match c.profile {
            Some(p) => Some(Report::Landed(p, span(now, p.start_ns), t)),
            None => None,
        },
    )
}

/// A held frame is on screen: the scrub is over, and the decoder has not moved.
pub open spec fn served(c: Control, held: Seq<Picture>, t: i64, now: u64) -> Turn {
    polling(
        Control {
            play: PlayState {
                shown_ns: Some(t),
                skip_until: None,
                pending_seek: None,
                hold_after: false,
                paused: true,
                anchor: None,
                ..c.play
            },
            profile: None,
            ..c
        },
        held,
        match c.profile {
            Some(p) => Some(Report::Cached(p, span(now, p.start_ns), t)),
            None => None,
        },
    )
}

/// The seek is done: its cost is noted, and decoding resumes from there.
pub open spec fn sought(c: Control, held: Seq<Picture>, since: u64, now: u64) -> Turn {
    resumed(
        Control {
            profile: match c.profile {
                Some(p) => Some(SeekProfile { seek_ns: span(now, since), ..p }),
                None => None,
            },
            ..c
        },
        held,
        None,
        now,
    )
}

/// Whether the machine waits for this kind of event.
pub open spec fn awaits(phase: Phase, event: Event) -> bool {
    match phase {
        Phase::Polling | Phase::Pacing(_) => event is Command || event is Idle
            || event is Disconnected,
        Phase::Blocking => event is Command || event is Disconnected,
        Phase::Serving(_) | Phase::Emitting(_) => event is Delivered,
        Phase::Seeking(_) => event is Done || event is Failed,
        Phase::Receiving(_) => event is Decoded || event is Again || event is Eof
            || event is Failed,
        Phase::Flushing(_) | Phase::Buffering => event is Done,
        Phase::Reading(_) => event is Packet,
        Phase::Recalling => event is Decoded,
        Phase::Converting(_) => event is Scaled || event is Failed,
        Phase::Over => false,
    }
}

/// What the machine does with an event it waits for.
pub open spec fn next(
    c: Control,
    held: Seq<Picture>,
    frame_dur: int,
    event: Event,
    now: u64,
) -> Turn {
    match (c.phase, event) {
        (_, Event::Command(cmd)) => commanded(c, held, cmd, now),
        (Phase::Pacing(t), Event::Idle) => converting(c, held, t),
        (_, Event::Idle) => acted(c, held, frame_dur, now),
        (Phase::Seeking(since), Event::Done) => sought(c, held, since, now),
        (Phase::Flushing(since), Event::Done) => receiving(c, held, since),
        (_, Event::Done) => polling(c, held, None),
        (Phase::Recalling, Event::Decoded(pts, best)) => arrived(
            c,
            held,
            time_of(c.shape, pts, best),
            now,
        ),
        (Phase::Receiving(since), Event::Decoded(pts, best)) => received(
            c,
            held,
            since,
            Received::Frame,
            time_of(c.shape, pts, best),
            now,
        ),
        (Phase::Receiving(since), Event::Again) => received(c, held, since, Received::Again, 0, now),
        (Phase::Receiving(since), Event::Eof) => received(c, held, since, Received::Eof, 0, now),
        (Phase::Reading(since), Event::Packet(found)) => receiving(
            Control { pump: pump::after_read(c.pump, found), ..c },
            held,
            since,
        ),
        (Phase::Converting(t), Event::Scaled(rgba)) => emitting(c, held, frame_dur, t, rgba@),
        (Phase::Emitting(t), Event::Delivered(ok)) => if ok {
            shown(c, held, t, now)
        } else {
            ended(c, held)
        },
        (Phase::Serving(t), Event::Delivered(ok)) => if ok {
            served(c, held, t, now)
        } else {
            ended(c, held)
        },
        _ => ended(c, held),
    }
}

/// What holds of the machine while it waits: past polling no move is left to
/// begin and frames are scaled to the size asked for; while it decodes it is
/// not holding; a frame on its way to the screen is no longer short of
/// anything; and nothing is paced until a precise move has landed.
pub open spec fn orderly(c: Control) -> bool {
    let decoding = c.phase is Receiving || c.phase is Flushing || c.phase is Reading || c.phase is
        Buffering || c.phase is Recalling;
    let going_out = c.phase is Pacing || c.phase is Converting || c.phase is Emitting;
    &&& (decoding || going_out || c.phase is Blocking || c.phase is Seeking)
        ==> c.play.pending_seek is None && c.play.move_start is None && c.out == wanted_size(c)
    &&& (decoding || going_out) ==> !c.play.paused
    &&& c.phase is Blocking ==> c.play.paused
    &&& (c.phase is Recalling || going_out) ==> c.play.skip_until is None
    &&& c.phase is Buffering ==> c.skipped && c.play.skip_until is Some
    &&& going_out ==> c.play.anchor is Some
    &&& c.phase is Serving ==> c.play.hold_after
    &&& (c.play.skip_until is Some || c.phase is Recalling) ==> c.play.anchor is None
}

/// The machine stays in order whatever happens outside.
pub proof fn every_turn_leaves_the_machine_in_order(
    c: Control,
    held: Seq<Picture>,
    frame_dur: int,
    event: Event,
    now: u64,
)
    requires
        orderly(c),
        awaits(c.phase, event),
    ensures
        orderly(next(c, held, frame_dur, event, now).control),
{
    let n = next(c, held, frame_dur, event, now);
    match event {
        Event::Command(cmd) => {
            assert(n == commanded(c, held, cmd, now));
            assert(n.control.phase is Polling || n.control.phase is Over);
        },
        Event::Idle => match c.phase {
            Phase::Pacing(t) => assert(n == converting(c, held, t)),
            _ => {
                assert(n == acted(c, held, frame_dur, now));
                lemma_acting_is_orderly(c, held, frame_dur, now);
            },
        },
        Event::Done => match c.phase {
            Phase::Seeking(since) => assert(n == sought(c, held, since, now)),
            Phase::Flushing(since) => assert(n == receiving(c, held, since)),
            _ => assert(n.control.phase is Polling),
        },
        Event::Decoded(pts, best) => {
            let t = time_of(c.shape, pts, best);
            match c.phase {
                Phase::Receiving(since) => lemma_receiving_is_orderly(
                    c,
                    held,
                    since,
                    Received::Frame,
                    t,
                    now,
                ),
                _ => lemma_arriving_is_orderly(c, held, t, now),
            }
        },
        Event::Again => lemma_receiving_is_orderly(
            c,
            held,
            c.phase->Receiving_0,
            Received::Again,
            0,
            now,
        ),
        Event::Eof => lemma_receiving_is_orderly(
            c,
            held,
            c.phase->Receiving_0,
            Received::Eof,
            0,
            now,
        ),
        Event::Packet(found) => {},
        Event::Scaled(rgba) => {
            assert(n == emitting(c, held, frame_dur, c.phase->Converting_0, rgba@));
        },
        Event::Delivered(ok) => assert(n.control.phase is Polling || n.control.phase is Over),
        Event::Disconnected | Event::Failed => assert(n == ended(c, held)),
    }
}

proof fn lemma_acting_is_orderly(c0: Control, held0: Seq<Picture>, frame_dur: int, now: u64)
    requires
        c0.play.skip_until is Some ==> c0.play.anchor is None,
    ensures
        orderly(acted(c0, held0, frame_dur, now).control),
{
    let (c1, held, report) = resized(c0, held0);
    assert(c1.out == wanted_size(c1));
    let c = profiled(c1);
    assert(c.out == wanted_size(c));
    assert(c.play.move_start is None);
}

proof fn lemma_arriving_is_orderly(c: Control, held: Seq<Picture>, t: i64, now: u64)
    requires
        c.play.pending_seek is None,
        c.play.move_start is None,
        c.out == wanted_size(c),
        !c.play.paused,
        c.play.skip_until is Some ==> c.play.anchor is None,
    ensures
        orderly(arrived(c, held, t, now).control),
{
}

proof fn lemma_receiving_is_orderly(
    c: Control,
    held: Seq<Picture>,
    since: u64,
    r: Received,
    t: i64,
    now: u64,
)
    requires
        c.play.pending_seek is None,
        c.play.move_start is None,
        c.out == wanted_size(c),
        !c.play.paused,
        c.play.skip_until is Some ==> c.play.anchor is None,
    ensures
        orderly(received(c, held, since, r, t, now).control),
{
    let (pump, step) = pump::pumped(c.pump, r);
    let d = Control {
        pump,
        profile: decode_noted(c.profile, span(now, since), step == PumpStep::Frame),
        ..c
    };
    match step {
        PumpStep::Frame => lemma_arriving_is_orderly(d, held, t, now),
        PumpStep::Drained => assert(received(c, held, since, r, t, now) == drained(d, held)),
        _ => {},
    }
}

/// What the machine does next, and what it reports.
pub struct Step {
    pub action: Action,
    pub report: Option<Report>,
}

/// A playback session.
pub struct PlaySession {
    control: Control,
    cache: ScrubCache,
}

impl PlaySession {
    /// What the machine decides by.
    pub closed spec fn control(self) -> Control {
        self.control
    }

    /// The frames it holds, oldest first.
    pub closed spec fn held(self) -> Seq<Picture> {
        self.cache@
    }

    /// The nominal frame duration it holds frames by.
    pub closed spec fn frame_dur(self) -> int {
        self.cache.frame_dur()
    }

    /// A session on a valid stream, whose bookkeeping is in order.
    pub closed spec fn wf(self) -> bool {
        &&& self.control.shape.valid()
        &&& self.cache.wf()
        &&& self.control.pace.wf(self.control.phase is Converting)
        &&& orderly(self.control)
    }

    /// What [`Self::wf`] says while a turn is being taken.
    spec fn wf_within(self) -> bool {
        &&& self.control.shape.valid()
        &&& self.cache.wf()
        &&& self.control.pace.wf(self.control.phase is Converting)
    }

    /// What a session in order is, to those who cannot see inside it: its stream
    /// is valid and its machine in order, so that what holds of such a machine
    /// holds of it.
    pub proof fn a_session_is_orderly(self)
        requires
            self.wf(),
        ensures
            self.control().shape.valid(),
            orderly(self.control()),
    {
    }

    /// What a turn that left the machine like this was.
    spec fn turn(self, action: Action, report: Option<Report>) -> Turn {
        Turn { control: self.control, held: self.cache@, doing: action@, report }
    }

    /// A session on a stream of this shape and frame rate (`rate.0 / rate.1`
    /// frames per second), opening at the keyframe before `from_ns`. The first
    /// thing it wants is a command.
    pub fn new(shape: StreamShape, rate: (i32, i32), from_ns: i64, long_side: u32) -> (s:
        PlaySession)
        requires
            shape.valid(),
        ensures
            s.wf(),
            s.held() == Seq::<Picture>::empty(),
            s.frame_dur() == clock::frame_duration(rate.0 as int, rate.1 as int),
            s.control() == (Control {
                shape,
                play: PlayState {
                    paused: false,
                    skip_until: None,
                    hold_after: false,
                    anchor: None,
                    pending_seek: Some((from_ns, false)),
                    current_ns: from_ns,
                    shown_ns: None,
                    move_start: None,
                    long_side,
                },
                out: (0, 0),
                pump: Pump { demux_eof: false, eof_sent: false },
                skipped: false,
                profile: None,
                pace: PaceReport { out_w: 0, out_h: 0, frames: 0, late: 0, worst_ns: 0 },
                phase: Phase::Polling,
            }),
    {
        PlaySession {
            control: Control {
                shape,
                play: PlayState::new(from_ns, long_side),
                out: (0, 0),
                pump: Pump::new(),
                skipped: false,
                profile: None,
                pace: PaceReport::new(),
                phase: Phase::Polling,
            },
            cache: ScrubCache::new(clock::frame_dur_ns(rate.0, rate.1)),
        }
    }

    /// Take an event the machine waits for, at wall time `now_ns`, and say what
    /// to do next.
    pub fn step(&mut self, event: Event, now_ns: u64) -> (s: Step)
        requires
            old(self).wf(),
            awaits(old(self).control().phase, event),
        ensures
            final(self).wf(),
            final(self).frame_dur() == old(self).frame_dur(),
            (Turn {
                control: final(self).control(),
                held: final(self).held(),
                doing: s.action@,
                report: s.report,
            }) == next(
                old(self).control(),
                old(self).held(),
                old(self).frame_dur(),
                event,
                now_ns,
            ),
    {
        proof {
            every_turn_leaves_the_machine_in_order(
                self.control,
                self.cache@,
                self.cache.frame_dur(),
                event,
                now_ns,
            );
        }
        match event {
            Event::Command(cmd) => self.command(cmd, now_ns),
            Event::Idle => match self.control.phase {
                Phase::Pacing(t) => self.convert(t),
                _ => self.act(now_ns),
            },
            Event::Done => match self.control.phase {
                Phase::Seeking(since) => self.seek_done(since, now_ns),
                Phase::Flushing(since) => {
                    self.control.phase = Phase::Receiving(since);
                    Step { action: Action::Receive, report: None }
                },
                _ => self.poll(None),
            },
            Event::Decoded(pts, best_effort) => {
                let t: i64 = clock::frame_time(
                    clock::frame_pts(pts, best_effort),
                    self.control.shape.start,
                    self.control.shape.time_base,
                );
                match self.control.phase {
                    Phase::Receiving(since) => self.receive(since, Received::Frame, t, now_ns),
                    _ => self.arrive(t, now_ns),
                }
            },
            Event::Again => match self.control.phase {
                Phase::Receiving(since) => self.receive(since, Received::Again, 0, now_ns),
                _ => self.end(),
            },
            Event::Eof => match self.control.phase {
                Phase::Receiving(since) => self.receive(since, Received::Eof, 0, now_ns),
                _ => self.end(),
            },
            Event::Packet(found) => match self.control.phase {
                Phase::Reading(since) => {
                    let _ = self.control.pump.packet(found);
                    self.control.phase = Phase::Receiving(since);
                    Step { action: Action::Receive, report: None }
                },
                _ => self.end(),
            },
            Event::Scaled(rgba) => match self.control.phase {
                Phase::Converting(t) => self.emit(t, rgba),
                _ => self.end(),
            },
            Event::Delivered(ok) => {
                if !ok {
                    self.end()
                } else {
                    match self.control.phase {
                        Phase::Emitting(t) => self.show(t, now_ns),
                        Phase::Serving(t) => self.serve(t, now_ns),
                        _ => self.end(),
                    }
                }
            },
            Event::Disconnected | Event::Failed => self.end(),
        }
    }

    fn end(&mut self) -> (s: Step)
        requires
            old(self).wf_within(),
        ensures
            final(self).wf_within(),
            final(self).frame_dur() == old(self).frame_dur(),
            final(self).turn(s.action, s.report) == ended(old(self).control, old(self).cache@),
    {
        let closed = self.control.pace.flush();
        self.control.phase = Phase::Over;
        Step {
            action: Action::End,
            report: match closed {
                Some(p) => Some(Report::Pace(p)),
                None => None,
            },
        }
    }

    fn poll(&mut self, report: Option<Report>) -> (s: Step)
        requires
            old(self).wf_within(),
            !(old(self).control.phase is Converting),
        ensures
            final(self).wf_within(),
            final(self).frame_dur() == old(self).frame_dur(),
            final(self).turn(s.action, s.report) == polling(
                old(self).control,
                old(self).cache@,
                report,
            ),
    {
        self.control.phase = Phase::Polling;
        Step { action: Action::Poll, report }
    }

    fn command(&mut self, cmd: PlayCommand, now_ns: u64) -> (s: Step)
        requires
            old(self).wf_within(),
            !(old(self).control.phase is Converting),
        ensures
            final(self).wf_within(),
            final(self).frame_dur() == old(self).frame_dur(),
            final(self).turn(s.action, s.report) == commanded(
                old(self).control,
                old(self).cache@,
                cmd,
                now_ns,
            ),
    {
        if self.control.play.apply(cmd, now_ns) {
            self.poll(None)
        } else {
            self.end()
        }
    }

    fn convert(&mut self, t: i64) -> (s: Step)
        requires
            old(self).wf_within() || (old(self).control.shape.valid() && old(self).cache.wf() && old(
                self,
            ).control.pace.wf(true)),
        ensures
            final(self).wf_within(),
            final(self).frame_dur() == old(self).frame_dur(),
            final(self).turn(s.action, s.report) == converting(
                old(self).control,
                old(self).cache@,
                t,
            ),
    {
        self.control.phase = Phase::Converting(t);
        Step { action: Action::Convert(self.control.out.0, self.control.out.1), report: None }
    }

    fn resize(&mut self) -> (report: Option<Report>)
        requires
            old(self).wf_within(),
            !(old(self).control.phase is Converting),
        ensures
            final(self).wf_within(),
            final(self).frame_dur() == old(self).frame_dur(),
            final(self).control.phase == old(self).control.phase,
            (final(self).control, final(self).cache@, report) == resized(
                old(self).control,
                old(self).cache@,
            ),
    {
        let size = sizing::output_size(
            self.control.shape.src_w,
            self.control.shape.src_h,
            self.control.play.long_side,
        );
        if self.control.out.0 == size.0 && self.control.out.1 == size.1 {
            return None;
        }
        self.control.out = size;
        self.cache.clear();
        match self.control.pace.rebox(size.0, size.1) {
            Some(p) => Some(Report::Pace(p)),
            None => None,
        }
    }

    fn profile_move(&mut self)
        requires
            old(self).wf_within(),
        ensures
            final(self).wf_within(),
            final(self).frame_dur() == old(self).frame_dur(),
            final(self).cache@ == old(self).cache@,
            final(self).control == profiled(old(self).control),
    {
        if let Some(start) = self.control.play.move_start {
            let target_ns: i64 = match self.control.play.target() {
                Some(t) => t,
                None => self.control.play.current_ns,
            };
            self.control.play.move_start = None;
            self.control.profile = Some(
                SeekProfile { start_ns: start, target_ns, seek_ns: 0, decoded: 0, decode_ns: 0 },
            );
        }
    }

    /// The held frame that answers the scrub in flight, copied.
    fn look_up(&self) -> (t: Option<Thumbnail>)
        requires
            self.wf_within(),
        ensures
            match t {
                Some(f) => hit(self.control, self.cache@, self.cache.frame_dur()) == Some(f@),
                None => hit(self.control, self.cache@, self.cache.frame_dur()) is None,
            },
    {
        if !self.control.play.hold_after {
            return None;
        }
        match self.control.play.target() {
            Some(t) => match self.cache.get(t) {
                Some(f) => {
                    proof {
                        let held = self.cache@;
                        let d = self.cache.frame_dur();
                        let i = choose|i: int| #[trigger]
                            scrub_cache::serves(held, d, t as int, i) && f@ == held[i];
                        assert(scrub_cache::answered(held, d, t as int));
                        let j = choose|j: int| scrub_cache::serves(held, d, t as int, j);
                        assert(i == j) by {
                            assert(held[i].time_ns <= held[j].time_ns);
                            assert(held[j].time_ns <= held[i].time_ns);
                        }
                    }
                    Some(f.copy())
                },
                None => None,
            },
            None => None,
        }
    }

    fn act(&mut self, now_ns: u64) -> (s: Step)
        requires
            old(self).wf_within(),
            !(old(self).control.phase is Converting),
        ensures
            final(self).wf_within(),
            final(self).frame_dur() == old(self).frame_dur(),
            final(self).turn(s.action, s.report) == acted(
                old(self).control,
                old(self).cache@,
                old(self).cache.frame_dur(),
                now_ns,
            ),
    {
        let report = self.resize();
        self.profile_move();
        if let Some(f) = self.look_up() {
            self.control.phase = Phase::Serving(f.time_ns);
            let frame = PlaybackFrame {
                time_ns: f.time_ns,
                width: f.width,
                height: f.height,
                src_w: self.control.shape.src_w,
                src_h: self.control.shape.src_h,
                rgba: f.rgba,
            };
            return Step { action: Action::Emit(frame), report };
        }
        match self.control.play.pending_seek {
            Some((t, precise)) => {
                let us: i64 = clock::seek_target_us(
                    t,
                    clock::start_ns(self.control.shape.start, self.control.shape.time_base),
                );
                self.control.play.pending_seek = None;
                self.control.play.skip_until = if precise {
                    Some(t)
                } else {
                    None
                };
                self.control.play.anchor = None;
                self.control.play.current_ns = t;
                self.control.pump = Pump::new();
                self.control.skipped = false;
                self.control.phase = Phase::Seeking(now_ns);
                Step { action: Action::Seek(us), report }
            },
            None => self.resume(report, now_ns),
        }
    }

    fn resume(&mut self, report: Option<Report>, now_ns: u64) -> (s: Step)
        requires
            old(self).wf_within(),
            !(old(self).control.phase is Converting),
        ensures
            final(self).wf_within(),
            final(self).frame_dur() == old(self).frame_dur(),
            final(self).turn(s.action, s.report) == resumed(
                old(self).control,
                old(self).cache@,
                report,
                now_ns,
            ),
    {
        if self.control.play.paused {
            self.control.phase = Phase::Blocking;
            Step { action: Action::Block, report }
        } else {
            self.control.phase = Phase::Receiving(now_ns);
            Step { action: Action::Receive, report }
        }
    }

    fn seek_done(&mut self, since: u64, now_ns: u64) -> (s: Step)
        requires
            old(self).wf_within(),
            !(old(self).control.phase is Converting),
        ensures
            final(self).wf_within(),
            final(self).frame_dur() == old(self).frame_dur(),
            final(self).turn(s.action, s.report) == sought(
                old(self).control,
                old(self).cache@,
                since,
                now_ns,
            ),
    {
        if let Some(p) = self.control.profile {
            self.control.profile = Some(
                SeekProfile { seek_ns: clock::since(now_ns, since), ..p },
            );
        }
        self.resume(None, now_ns)
    }

    fn note_decode(&mut self, took: u64, frame: bool)
        requires
            old(self).wf_within(),
        ensures
            final(self).wf_within(),
            final(self).frame_dur() == old(self).frame_dur(),
            final(self).cache@ == old(self).cache@,
            final(self).control == (Control {
                profile: decode_noted(old(self).control.profile, took, frame),
                ..old(self).control
            }),
    {
        if let Some(p) = self.control.profile {
            self.control.profile = Some(
                SeekProfile {
                    decode_ns: p.decode_ns.saturating_add(took),
                    decoded: if frame && p.decoded < u32::MAX {
                        p.decoded + 1
                    } else {
                        p.decoded
                    },
                    ..p
                },
            );
        }
    }

    fn receive(&mut self, since: u64, r: Received, t: i64, now_ns: u64) -> (s: Step)
        requires
            old(self).wf_within(),
            !(old(self).control.phase is Converting),
        ensures
            final(self).wf_within(),
            final(self).frame_dur() == old(self).frame_dur(),
            final(self).turn(s.action, s.report) == received(
                old(self).control,
                old(self).cache@,
                since,
                r,
                t,
                now_ns,
            ),
    {
        let step = self.control.pump.received(r);
        match step {
            PumpStep::Frame => {
                self.note_decode(clock::since(now_ns, since), true);
                self.arrive(t, now_ns)
            },
            PumpStep::Drained => {
                self.note_decode(clock::since(now_ns, since), false);
                self.drain()
            },
            PumpStep::SendEof => {
                self.control.phase = Phase::Flushing(since);
                Step { action: Action::SendEof, report: None }
            },
            PumpStep::ReadPacket => {
                self.control.phase = Phase::Reading(since);
                Step { action: Action::ReadPacket, report: None }
            },
            PumpStep::Receive | PumpStep::Failed => self.end(),
        }
    }

    fn drain(&mut self) -> (s: Step)
        requires
            old(self).wf_within(),
            !(old(self).control.phase is Converting),
        ensures
            final(self).wf_within(),
            final(self).frame_dur() == old(self).frame_dur(),
            final(self).turn(s.action, s.report) == drained(old(self).control, old(self).cache@),
    {
        let recall: bool = self.control.skipped;
        self.control.skipped = false;
        if let Some(t) = self.control.play.skip_until {
            self.control.play.skip_until = None;
            if recall {
                self.control.play.hold_after = true;
                self.control.phase = Phase::Recalling;
                return Step { action: Action::Recall, report: None };
            }
            if (self.control.play.current_ns as i128) + (clock::FRAME_EPS_NS as i128) < t as i128 {
                self.control.play.pending_seek = Some((t, true));
                return self.poll(None);
            }
        }
        self.control.play.paused = true;
        self.poll(None)
    }

    fn arrive(&mut self, t: i64, now_ns: u64) -> (s: Step)
        requires
            old(self).wf_within(),
            !(old(self).control.phase is Converting),
        ensures
            final(self).wf_within(),
            final(self).frame_dur() == old(self).frame_dur(),
            final(self).turn(s.action, s.report) == arrived(
                old(self).control,
                old(self).cache@,
                t,
                now_ns,
            ),
    {
        self.control.play.current_ns = t;
        if let Some(u) = self.control.play.skip_until {
            if (t as i128) + (clock::FRAME_EPS_NS as i128) < u as i128 {
                self.control.skipped = true;
                self.control.phase = Phase::Buffering;
                return Step { action: Action::Buffer, report: None };
            }
            self.control.play.skip_until = None;
        }
        self.control.skipped = false;
        self.pace(t, now_ns)
    }

    fn pace(&mut self, t: i64, now_ns: u64) -> (s: Step)
        requires
            old(self).wf_within(),
            !(old(self).control.phase is Converting),
        ensures
            final(self).wf_within(),
            final(self).frame_dur() == old(self).frame_dur(),
            final(self).turn(s.action, s.report) == paced(
                old(self).control,
                old(self).cache@,
                t,
                now_ns,
            ),
    {
        match self.control.play.anchor {
            None => {
                self.control.play.anchor = Some((now_ns, t));
                self.convert(t)
            },
            Some((wall0, media0)) => {
                let ahead: u64 = if t > media0 {
                    (t as i128 - media0 as i128) as u64
                } else {
                    0
                };
                let at: u64 = wall0.saturating_add(ahead);
                if at >= now_ns {
                    self.control.phase = Phase::Pacing(t);
                    Step { action: Action::Wait(at - now_ns), report: None }
                } else {
                    self.control.pace.miss(now_ns - at);
                    self.convert(t)
                }
            },
        }
    }

    fn emit(&mut self, t: i64, rgba: Vec<u8>) -> (s: Step)
        requires
            old(self).wf_within(),
            old(self).control.phase is Converting,
        ensures
            final(self).wf_within(),
            final(self).frame_dur() == old(self).frame_dur(),
            final(self).turn(s.action, s.report) == emitting(
                old(self).control,
                old(self).cache@,
                old(self).cache.frame_dur(),
                t,
                rgba@,
            ),
    {
        let closed = self.control.pace.count();
        self.control.phase = Phase::Emitting(t);
        let thumb = Thumbnail {
            time_ns: t,
            width: self.control.out.0,
            height: self.control.out.1,
            rgba,
        };
        if self.control.play.hold_after {
            self.cache.put(&thumb);
        }
        let frame = PlaybackFrame {
            time_ns: t,
            width: thumb.width,
            height: thumb.height,
            src_w: self.control.shape.src_w,
            src_h: self.control.shape.src_h,
            rgba: thumb.rgba,
        };
        Step {
            action: Action::Emit(frame),
            report: match closed {
                Some(p) => Some(Report::Pace(p)),
                None => None,
            },
        }
    }

    fn show(&mut self, t: i64, now_ns: u64) -> (s: Step)
        requires
            old(self).wf_within(),
            !(old(self).control.phase is Converting),
        ensures
            final(self).wf_within(),
            final(self).frame_dur() == old(self).frame_dur(),
            final(self).turn(s.action, s.report) == shown(
                old(self).control,
                old(self).cache@,
                t,
                now_ns,
            ),
    {
        let report = match self.control.profile {
            Some(p) => Some(Report::Landed(p, clock::since(now_ns, p.start_ns), t)),
            None => None,
        };
        self.control.profile = None;
        self.control.play.shown_ns = Some(t);
        if self.control.play.hold_after {
            self.control.play.hold_after = false;
            self.control.play.paused = true;
        }
        self.poll(report)
    }

    fn serve(&mut self, t: i64, now_ns: u64) -> (s: Step)
        requires
            old(self).wf_within(),
            !(old(self).control.phase is Converting),
        ensures
            final(self).wf_within(),
            final(self).frame_dur() == old(self).frame_dur(),
            final(self).turn(s.action, s.report) == served(
                old(self).control,
                old(self).cache@,
                t,
                now_ns,
            ),
    {
        let report = match self.control.profile {
            Some(p) => Some(Report::Cached(p, clock::since(now_ns, p.start_ns), t)),
            None => None,
        };
        self.control.profile = None;
        self.control.play.shown_ns = Some(t);
        self.control.play.skip_until = None;
        self.control.play.pending_seek = None;
        self.control.play.hold_after = false;
        self.control.play.paused = true;
        self.control.play.anchor = None;
        self.poll(report)
    }
}

} // verus!
