//! What a playback session promises over several turns.

use vstd::prelude::*;

use crate::clock;
use crate::pace;
use crate::play_state;
use crate::play_state::{PlayCommand, PlayState};
use crate::scrub_cache;
use crate::scrub_cache::Picture;
use crate::session;
use crate::session::{
    Action, Control, Doing, Event, Phase, PlaybackFrame, Report, SeekProfile, Turn,
};
use crate::sizing;

verus! {

/// A machine on its way to the target `until` of a precise move, which no held
/// frame answers: between two frames, or in the middle of decoding one.
pub open spec fn on_course(c: Control, held: Seq<Picture>, frame_dur: int, until: i64) -> bool {
    &&& c.phase is Receiving || c.phase is Flushing || c.phase is Reading || c.phase is Buffering
        || c.phase is Polling
    &&& c.play.skip_until == Some(until)
    &&& c.play.pending_seek is None
    &&& c.play.move_start is None
    &&& !c.play.paused
    &&& c.out == session::wanted_size(c)
    &&& session::hit(c, held, frame_dur) is None
}

/// A machine on its way that has just asked the decoder for a frame.
pub open spec fn heading(c: Control, held: Seq<Picture>, frame_dur: int, until: i64) -> bool {
    c.phase is Receiving && on_course(c, held, frame_dur, until)
}

/// An event that leaves the machine on its way to `until`: no command, no
/// failure, not the end of the stream, and no frame but one that falls short.
pub open spec fn quiet(c: Control, event: Event, until: i64) -> bool {
    match event {
        Event::Idle | Event::Done | Event::Packet(_) => true,
        Event::Again => !(c.pump.demux_eof && c.pump.eof_sent),
        Event::Decoded(pts, best) => session::short_of(
            session::time_of(c.shape, pts, best) as int,
            until as int,
        ),
        _ => false,
    }
}

/// An action that puts nothing on screen and ends nothing.
pub open spec fn shows_nothing(doing: Doing) -> bool {
    doing is Poll || doing is Receive || doing is SendEof || doing is ReadPacket || doing is Buffer
}

/// On its way to the target of a precise move the machine shows nothing, and
/// stays on its way: frames that fall short are set aside, packets are fed, and
/// nothing of the move changes but where the decoder is.
pub proof fn nothing_is_shown_short_of_the_target(
    c: Control,
    held: Seq<Picture>,
    frame_dur: int,
    until: i64,
    event: Event,
    now: u64,
)
    requires
        on_course(c, held, frame_dur, until),
        session::awaits(c.phase, event),
        quiet(c, event, until),
    ensures
        ({
            let n = session::next(c, held, frame_dur, event, now);
            &&& on_course(n.control, held, frame_dur, until)
            &&& n.held == held
            &&& shows_nothing(n.doing)
            &&& n.control.shape == c.shape
            &&& n.control.out == c.out
            &&& n.control.play == (PlayState {
                current_ns: n.control.play.current_ns,
                ..c.play
            })
        }),
{
    let n = session::next(c, held, frame_dur, event, now);
    match event {
        Event::Idle => {
            assert(n == session::acted(c, held, frame_dur, now));
            assert(session::resized(c, held) == (c, held, None::<session::Report>));
            assert(session::profiled(c) == c);
            assert(session::hit(n.control, held, frame_dur) == session::hit(c, held, frame_dur));
        },
        Event::Decoded(pts, best) => {
            let t = session::time_of(c.shape, pts, best);
            let noted = Control {
                profile: session::decode_noted(
                    c.profile,
                    session::span(now, c.phase->Receiving_0),
                    true,
                ),
                ..c
            };
            assert(n == session::arrived(noted, held, t, now));
            assert(session::hit(n.control, held, frame_dur) == session::hit(c, held, frame_dur));
        },
        _ => {
            assert(session::hit(n.control, held, frame_dur) == session::hit(c, held, frame_dur));
        },
    }
}

/// The turn the machine takes on the event numbered `n`, the ones before it
/// having been taken; each comes with its wall time.
pub open spec fn turn_at(
    c: Control,
    held: Seq<Picture>,
    frame_dur: int,
    events: Seq<(Event, u64)>,
    n: int,
) -> Turn {
    let (d, h) = before_turn(c, held, frame_dur, events, n as nat);
    session::next(d, h, frame_dur, events[n].0, events[n].1)
}

/// The machine and what it holds once the first `n` of these events have come.
pub open spec fn before_turn(
    c: Control,
    held: Seq<Picture>,
    frame_dur: int,
    events: Seq<(Event, u64)>,
    n: nat,
) -> (Control, Seq<Picture>)
    decreases n,
{
    if n == 0 {
        (c, held)
    } else {
        let (d, h) = before_turn(c, held, frame_dur, events, (n - 1) as nat);
        let t = session::next(d, h, frame_dur, events[n - 1].0, events[n - 1].1);
        (t.control, t.held)
    }
}

/// Whether all of the first `n` of these events are awaited when they come and
/// leave the machine on its way to `until`.
pub open spec fn all_quiet(
    c: Control,
    held: Seq<Picture>,
    frame_dur: int,
    until: i64,
    events: Seq<(Event, u64)>,
    n: nat,
) -> bool {
    forall|i: int|
        0 <= i < n ==> {
            let d = (#[trigger] before_turn(c, held, frame_dur, events, i as nat)).0;
            session::awaits(d.phase, events[i].0) && quiet(d, events[i].0, until)
        }
}

proof fn lemma_course_is_kept(
    c: Control,
    held: Seq<Picture>,
    frame_dur: int,
    until: i64,
    events: Seq<(Event, u64)>,
    n: nat,
)
    requires
        on_course(c, held, frame_dur, until),
        n <= events.len(),
        all_quiet(c, held, frame_dur, until, events, n),
    ensures
        ({
            let (d, h) = before_turn(c, held, frame_dur, events, n);
            &&& h == held
            &&& on_course(d, held, frame_dur, until)
            &&& d.shape == c.shape
            &&& d.out == c.out
            &&& d.play == (PlayState { current_ns: d.play.current_ns, ..c.play })
        }),
        forall|i: int|
            0 <= i < n ==> shows_nothing(
                (#[trigger] turn_at(c, held, frame_dur, events, i)).doing,
            ),
    decreases n,
{
    if n > 0 {
        let m = (n - 1) as nat;
        lemma_course_is_kept(c, held, frame_dur, until, events, m);
        let (d, h) = before_turn(c, held, frame_dur, events, m);
        nothing_is_shown_short_of_the_target(
            d,
            held,
            frame_dur,
            until,
            events[m as int].0,
            events[m as int].1,
        );
        assert forall|i: int| 0 <= i < n implies shows_nothing(
            (#[trigger] turn_at(c, held, frame_dur, events, i)).doing,
        ) by {
            if i == m {
                assert(turn_at(c, held, frame_dur, events, i) == session::next(
                    d,
                    h,
                    frame_dur,
                    events[i].0,
                    events[i].1,
                ));
            }
        }
    }
}

/// A precise move lands on the exact frame. Whatever packets are fed and frames
/// are decoded on the way, however long each takes: as long as no command comes
/// and the frames fall short of the target, nothing goes to the screen; and the
/// first that does not fall short goes there, at the size asked for and without
/// waiting. Whether the player then holds on it is as the move said.
pub proof fn a_precise_move_lands_on_the_target_frame(
    c: Control,
    held: Seq<Picture>,
    frame_dur: int,
    until: i64,
    events: Seq<(Event, u64)>,
    pts: Option<i64>,
    best: Option<i64>,
    now: u64,
)
    requires
        on_course(c, held, frame_dur, until),
        c.play.anchor is None,
        all_quiet(c, held, frame_dur, until, events, events.len()),
        before_turn(c, held, frame_dur, events, events.len()).0.phase is Receiving,
        !session::short_of(session::time_of(c.shape, pts, best) as int, until as int),
    ensures
        forall|i: int|
            0 <= i < events.len() ==> shows_nothing(
                (#[trigger] turn_at(c, held, frame_dur, events, i)).doing,
            ),
        ({
            let (d, h) = before_turn(c, held, frame_dur, events, events.len());
            let t = session::time_of(c.shape, pts, best);
            let n = session::next(d, h, frame_dur, Event::Decoded(pts, best), now);
            &&& n.doing == Doing::Convert(c.out.0, c.out.1)
            &&& n.control.phase == Phase::Converting(t)
            &&& n.control.play.current_ns == t
            &&& n.control.play.skip_until is None
            &&& n.control.play.hold_after == c.play.hold_after
            &&& n.held == held
        }),
{
    lemma_course_is_kept(c, held, frame_dur, until, events, events.len());
    let (d, h) = before_turn(c, held, frame_dur, events, events.len());
    let t = session::time_of(d.shape, pts, best);
    let noted = Control {
        profile: session::decode_noted(d.profile, session::span(now, d.phase->Receiving_0), true),
        ..d
    };
    assert(session::next(d, h, frame_dur, Event::Decoded(pts, best), now) == session::arrived(
        noted,
        h,
        t,
        now,
    ));
}

/// Whether `p` is a held frame that serves a scrub to `t`.
pub open spec fn serves_it(held: Seq<Picture>, frame_dur: int, t: i64, p: Picture) -> bool {
    exists|i: int| #[trigger]
        scrub_cache::serves(held, frame_dur, t as int, i) && p == held[i]
}

/// A move is under way to its target once no further command is queued: a scrub
/// over held ground hands on the held frame that serves it; a short hop forward
/// decodes on from where the decoder is; anything else seeks to before the target
/// and then decodes. A scrub holds on the frame it lands on, a play does not.
pub proof fn a_move_heads_for_its_target(
    c: Control,
    held: Seq<Picture>,
    frame_dur: int,
    t: i64,
    hold: bool,
    first: u64,
    second: u64,
    third: u64,
)
    requires
        c.phase is Polling || c.phase is Blocking || c.phase is Pacing,
    ensures
        ({
            let cmd = if hold {
                PlayCommand::Scrub(t)
            } else {
                PlayCommand::Play(t)
            };
            let a = session::next(c, held, frame_dur, Event::Command(cmd), first);
            let b = session::next(a.control, a.held, frame_dur, Event::Idle, second);
            let d = session::next(b.control, b.held, frame_dur, Event::Done, third);
            &&& a.doing == Doing::Poll
            &&& if hold && scrub_cache::answered(b.held, frame_dur, t as int) {
                &&& b.doing is Emit
                &&& serves_it(b.held, frame_dur, t, b.doing->Emit_0.picture)
            } else if play_state::in_place(c.play.current_ns as int, t as int) {
                &&& b.doing == Doing::Receive
                &&& heading(b.control, b.held, frame_dur, t)
                &&& b.control.play.anchor is None
                &&& b.control.play.hold_after == hold
            } else {
                &&& b.doing is Seek
                &&& b.doing->Seek_0 == clock::seek_us(
                    t as int,
                    clock::saturated(
                        clock::ticks_ns(clock::origin(c.shape.start) as int, c.shape.time_base),
                    ),
                ) as i64
                &&& d.doing == Doing::Receive
                &&& d.held == b.held
                &&& heading(d.control, d.held, frame_dur, t)
                &&& d.control.play.anchor is None
                &&& d.control.play.hold_after == hold
            }
        }),
{
    let cmd = if hold {
        PlayCommand::Scrub(t)
    } else {
        PlayCommand::Play(t)
    };
    let a = session::next(c, held, frame_dur, Event::Command(cmd), first);
    assert(a == session::commanded(c, held, cmd, first));
    let b = session::next(a.control, a.held, frame_dur, Event::Idle, second);
    assert(b == session::acted(a.control, a.held, frame_dur, second));
    let (r, left, report) = session::resized(a.control, a.held);
    let p = session::profiled(r);
    assert(b.held == left);
    assert(r.out == session::wanted_size(r));
    assert(p.out == session::wanted_size(p));
    assert(play_state::destination(p.play) == Some(t));
    if hold && scrub_cache::answered(b.held, frame_dur, t as int) {
        let i = choose|i: int| scrub_cache::serves(left, frame_dur, t as int, i);
        assert(scrub_cache::serves(left, frame_dur, t as int, i));
        assert(session::hit(p, left, frame_dur) == Some(left[i]));
        assert(b.doing->Emit_0.picture == left[i]);
        assert(serves_it(left, frame_dur, t, left[i]));
    } else if play_state::in_place(c.play.current_ns as int, t as int) {
        assert(b == session::resumed(p, left, report, second));
        assert(session::hit(b.control, left, frame_dur) == session::hit(p, left, frame_dur));
    } else {
        let d = session::next(b.control, b.held, frame_dur, Event::Done, third);
        assert(d == session::sought(b.control, b.held, second, third));
        assert(session::hit(d.control, left, frame_dur) is None);
    }
}

/// A scrub shows exactly one frame and then holds: its frame is handed on, and
/// once it is on screen the player is paused and, with no command queued, waits
/// for one.
pub proof fn a_scrub_shows_one_frame_and_holds(
    c: Control,
    held: Seq<Picture>,
    frame_dur: int,
    rgba: Vec<u8>,
    first: u64,
    second: u64,
    third: u64,
)
    requires
        c.phase is Converting,
        session::orderly(c),
        c.play.hold_after,
    ensures
        ({
            let t = c.phase->Converting_0;
            let a = session::next(c, held, frame_dur, Event::Scaled(rgba), first);
            let b = session::next(a.control, a.held, frame_dur, Event::Delivered(true), second);
            let d = session::next(b.control, b.held, frame_dur, Event::Idle, third);
            &&& a.doing is Emit
            &&& a.doing->Emit_0.picture == (Picture {
                time_ns: t,
                width: c.out.0,
                height: c.out.1,
                rgba: rgba@,
            })
            &&& b.doing == Doing::Poll
            &&& b.control.play.paused
            &&& b.control.play.shown_ns == Some(t)
            &&& d.doing == Doing::Block
        }),
{
    let t = c.phase->Converting_0;
    let a = session::next(c, held, frame_dur, Event::Scaled(rgba), first);
    assert(a == session::emitting(c, held, frame_dur, t, rgba@));
    let b = session::next(a.control, a.held, frame_dur, Event::Delivered(true), second);
    assert(b == session::shown(a.control, a.held, t, second));
    let d = session::next(b.control, b.held, frame_dur, Event::Idle, third);
    assert(d == session::acted(b.control, b.held, frame_dur, third));
    assert(session::resized(b.control, b.held) == (b.control, b.held, None::<session::Report>));
    assert(session::profiled(b.control) == b.control);
    assert(play_state::destination(b.control.play) is None);
}

/// A scrub that a held frame serves hands on that very frame, without decoding
/// and without moving the decoder.
pub proof fn a_held_frame_is_shown_again(
    c: Control,
    held: Seq<Picture>,
    frame_dur: int,
    target: i64,
    p: Picture,
    first: u64,
    second: u64,
)
    requires
        c.phase is Polling || c.phase is Blocking || c.phase is Pacing,
        c.out == session::wanted_size(c),
        serves_it(held, frame_dur, target, p),
    ensures
        ({
            let scrub = PlayCommand::Scrub(target);
            let a = session::next(c, held, frame_dur, Event::Command(scrub), first);
            let b = session::next(a.control, a.held, frame_dur, Event::Idle, second);
            &&& a.doing == Doing::Poll
            &&& b.doing is Emit
            &&& b.doing->Emit_0.picture == p
            &&& b.held == held
            &&& b.control.phase == Phase::Serving(p.time_ns)
            &&& b.control.play.current_ns == c.play.current_ns
        }),
{
    let scrub = PlayCommand::Scrub(target);
    let a = session::next(c, held, frame_dur, Event::Command(scrub), first);
    assert(a == session::commanded(c, held, scrub, first));
    let b = session::next(a.control, a.held, frame_dur, Event::Idle, second);
    assert(b == session::acted(a.control, a.held, frame_dur, second));
    assert(session::resized(a.control, a.held) == (a.control, a.held, None::<session::Report>));
    let d = session::profiled(a.control);
    assert(play_state::destination(d.play) == Some(target));
    let i = choose|i: int| #[trigger]
        scrub_cache::serves(held, frame_dur, target as int, i) && p == held[i];
    assert(scrub_cache::answered(held, frame_dur, target as int));
    let j = choose|j: int| scrub_cache::serves(held, frame_dur, target as int, j);
    assert(scrub_cache::serves(held, frame_dur, target as int, j));
    assert(i == j) by {
        assert(held[i].time_ns <= held[j].time_ns <= held[i].time_ns);
    }
}

/// Scrubbing to a position twice shows the same frame both times: once the frame
/// a decode landed on, no held frame serving the scrub, is on screen, another
/// scrub to the same target hands on that very picture, to the pixel, without
/// decoding and without moving the decoder. So does one that comes after other
/// scrubs, whose frames have been kept since, as long as all fit the cache
/// together.
///
/// It holds at a constant frame rate below a thousand frames a second, where the
/// frame lies within one frame of the target and fits the cache on its own.
pub proof fn re_scrubbing_a_position_shows_the_same_frame(
    c: Control,
    held: Seq<Picture>,
    frame_dur: int,
    times: Seq<int>,
    target: i64,
    k: int,
    rgba: Vec<u8>,
    more: Seq<Picture>,
    later: Control,
    first: u64,
    second: u64,
    third: u64,
    fourth: u64,
)
    requires
        c.phase is Converting,
        session::orderly(c),
        c.play.hold_after,
        frame_dur > clock::FRAME_EPS_NS,
        scrub_cache::steady(times, frame_dur),
        scrub_cache::held_from(held, times),
        !scrub_cache::answered(held, frame_dur, target as int),
        scrub_cache::decode_lands_on(times, target as int, k),
        times[k] == c.phase->Converting_0,
        times[k] - scrub_cache::landing_bound(target as int) < frame_dur,
        rgba@.len() <= scrub_cache::SCRUB_CACHE_BYTES,
    ensures
        ({
            let picture = Picture {
                time_ns: times[k] as i64,
                width: c.out.0,
                height: c.out.1,
                rgba: rgba@,
            };
            let scrub = Event::Command(PlayCommand::Scrub(target));
            let a = session::next(c, held, frame_dur, Event::Scaled(rgba), first);
            let b = session::next(a.control, a.held, frame_dur, Event::Delivered(true), second);
            let d = session::next(b.control, b.held, frame_dur, scrub, third);
            let e = session::next(d.control, d.held, frame_dur, Event::Idle, fourth);
            let kept = scrub_cache::with_frames(b.held, frame_dur, more);
            let g = session::next(later, kept, frame_dur, scrub, third);
            let h = session::next(g.control, g.held, frame_dur, Event::Idle, fourth);
            &&& a.doing is Emit
            &&& a.doing->Emit_0.picture == picture
            &&& e.doing is Emit
            &&& e.doing->Emit_0.picture == picture
            &&& e.control.phase == Phase::Serving(times[k] as i64)
            &&& e.control.play.current_ns == c.play.current_ns
            // Once the frames in `more` have been shown and kept as well.
            &&& (later.phase is Polling || later.phase is Blocking || later.phase is Pacing)
                && later.out == session::wanted_size(later) && scrub_cache::held_from(more, times)
                && scrub_cache::held_bytes(b.held) + scrub_cache::held_bytes(more)
                <= scrub_cache::SCRUB_CACHE_BYTES ==> h.doing is Emit
                && h.doing->Emit_0.picture == picture && h.control.play.current_ns
                == later.play.current_ns
        }),
{
    let t = c.phase->Converting_0;
    let picture = Picture { time_ns: t, width: c.out.0, height: c.out.1, rgba: rgba@ };
    let a = session::next(c, held, frame_dur, Event::Scaled(rgba), first);
    assert(a == session::emitting(c, held, frame_dur, t, rgba@));
    assert(a.held == scrub_cache::with_frame(held, frame_dur, picture));
    let b = session::next(a.control, a.held, frame_dur, Event::Delivered(true), second);
    assert(b == session::shown(a.control, a.held, t, second));
    scrub_cache::a_shown_frame_answers_its_target_again(
        held,
        times,
        frame_dur,
        target as int,
        k,
        picture,
    );
    assert(serves_it(b.held, frame_dur, target, picture));
    a_held_frame_is_shown_again(
        b.control,
        b.held,
        frame_dur,
        target,
        picture,
        third,
        fourth,
    );
    if (later.phase is Polling || later.phase is Blocking || later.phase is Pacing) && later.out
        == session::wanted_size(later) && scrub_cache::held_from(more, times)
        && scrub_cache::held_bytes(b.held) + scrub_cache::held_bytes(more)
        <= scrub_cache::SCRUB_CACHE_BYTES {
        scrub_cache::a_shown_frame_answers_after_others(
            b.held,
            times,
            frame_dur,
            target as int,
            k,
            picture,
            more,
        );
        let kept = scrub_cache::with_frames(b.held, frame_dur, more);
        assert(serves_it(kept, frame_dur, target, picture));
        a_held_frame_is_shown_again(later, kept, frame_dur, target, picture, third, fourth);
    }
}

/// Asking for another scale while a frame is held brings that very frame back:
/// the frames held at the old scale are dropped, the machine seeks to before the
/// held frame's time, heads for that time, and scales to the new size.
pub proof fn a_rescale_shows_the_held_frame_again(
    c: Control,
    held: Seq<Picture>,
    frame_dur: int,
    long: u32,
    shown: i64,
    first: u64,
    second: u64,
    third: u64,
)
    requires
        c.phase is Blocking,
        session::orderly(c),
        c.play.shown_ns == Some(shown),
        session::wanted_size(Control { play: PlayState { long_side: long, ..c.play }, ..c })
            != c.out,
    ensures
        ({
            let a = session::next(
                c,
                held,
                frame_dur,
                Event::Command(PlayCommand::SetLongSide(long)),
                first,
            );
            let b = session::next(a.control, a.held, frame_dur, Event::Idle, second);
            let d = session::next(b.control, b.held, frame_dur, Event::Done, third);
            &&& a.doing == Doing::Poll
            &&& b.held == Seq::<Picture>::empty()
            &&& b.doing is Seek
            &&& b.doing->Seek_0 == clock::seek_us(
                shown as int,
                clock::saturated(
                    clock::ticks_ns(clock::origin(c.shape.start) as int, c.shape.time_base),
                ),
            ) as i64
            &&& d.doing == Doing::Receive
            &&& heading(d.control, b.held, frame_dur, shown)
            &&& d.control.play.anchor is None
            &&& d.control.play.hold_after
            &&& d.control.out == session::wanted_size(
                Control { play: PlayState { long_side: long, ..c.play }, ..c },
            )
        }),
{
    let cmd = PlayCommand::SetLongSide(long);
    let a = session::next(c, held, frame_dur, Event::Command(cmd), first);
    assert(a == session::commanded(c, held, cmd, first));
    assert(long != c.play.long_side);
    assert(a.control.play == play_state::rescaled(c.play, long));
    let b = session::next(a.control, a.held, frame_dur, Event::Idle, second);
    assert(b == session::acted(a.control, a.held, frame_dur, second));
    let (r, empty, _) = session::resized(a.control, a.held);
    assert(empty == Seq::<Picture>::empty());
    assert(session::hit(session::profiled(r), empty, frame_dur) is None) by {
        assert(!scrub_cache::answered(empty, frame_dur, shown as int));
    }
    let d = session::next(b.control, b.held, frame_dur, Event::Done, third);
    assert(d == session::sought(b.control, b.held, b.control.phase->Seeking_0, third));
    assert(session::hit(d.control, empty, frame_dur) is None) by {
        assert(!scrub_cache::answered(empty, frame_dur, shown as int));
    }
}

/// Whatever the machine waits for, a `Stop`, a closed command channel and a
/// receiver that takes no more frames end the session, and nothing follows the
/// end.
pub proof fn playback_ends_when_told(
    c: Control,
    held: Seq<Picture>,
    frame_dur: int,
    event: Event,
    now: u64,
)
    requires
        session::awaits(c.phase, event),
        event == Event::Command(PlayCommand::Stop) || event is Disconnected || event
            == Event::Delivered(false),
    ensures
        session::next(c, held, frame_dur, event, now).doing == Doing::End,
        session::next(c, held, frame_dur, event, now).control.phase == Phase::Over,
        forall|after: Event| !session::awaits(Phase::Over, after),
{
}

/// The end of the stream never ends the session: a move past the last frame
/// brings back the frame set aside last and shows it at once, to hold on it; one
/// that found no frame ahead of the decoder seeks to before its target and heads
/// for it again; and playing through to the end holds on what is on screen. That
/// the frame brought back is the last of the clip, `clip_laws` says.
pub proof fn the_end_of_the_stream_holds_on_the_last_frame(
    c: Control,
    held: Seq<Picture>,
    frame_dur: int,
    pts: Option<i64>,
    best: Option<i64>,
    first: u64,
    second: u64,
    third: u64,
)
    requires
        c.phase is Receiving,
        session::orderly(c),
    ensures
        ({
            let a = session::next(c, held, frame_dur, Event::Eof, first);
            let b = session::next(a.control, a.held, frame_dur, Event::Decoded(pts, best), second);
            let d = session::next(a.control, a.held, frame_dur, Event::Idle, second);
            let e = session::next(d.control, d.held, frame_dur, Event::Done, third);
            if c.skipped && c.play.skip_until is Some {
                &&& a.doing == Doing::Recall
                &&& b.doing == Doing::Convert(c.out.0, c.out.1)
                &&& b.control.phase == Phase::Converting(session::time_of(c.shape, pts, best))
                &&& b.control.play.hold_after
            } else if session::overran(c.play) {
                &&& a.doing == Doing::Poll
                &&& !a.control.play.paused
                // Unless a held frame serves it.
                &&& session::hit(a.control, held, frame_dur) is None ==> {
                    &&& d.doing is Seek
                    &&& e.doing == Doing::Receive
                    &&& e.control.play.skip_until == c.play.skip_until
                    &&& e.control.play.hold_after == c.play.hold_after
                    &&& !session::overran(e.control.play)
                }
            } else {
                &&& a.doing == Doing::Poll
                &&& a.control.play.paused
                &&& d.doing == Doing::Block
            }
        }),
{
    let since = c.phase->Receiving_0;
    let a = session::next(c, held, frame_dur, Event::Eof, first);
    let noted = Control {
        profile: session::decode_noted(c.profile, session::span(first, since), false),
        ..c
    };
    assert(a == session::drained(noted, held));
    if !(c.skipped && c.play.skip_until is Some) {
        let d = session::next(a.control, a.held, frame_dur, Event::Idle, second);
        assert(d == session::acted(a.control, a.held, frame_dur, second));
        assert(session::resized(a.control, a.held) == (
            a.control,
            a.held,
            None::<session::Report>,
        ));
        assert(session::profiled(a.control) == a.control);
        if session::overran(c.play) && session::hit(a.control, held, frame_dur) is None {
            let e = session::next(d.control, d.held, frame_dur, Event::Done, third);
            assert(e == session::sought(d.control, d.held, second, third));
        }
    }
}

/// No frame goes out before it is due: the wait the machine asks for ends when
/// the media time since the anchor has passed on the wall clock, and a frame
/// goes out without waiting only when it sets the pace or that moment has
/// passed.
pub proof fn frames_keep_real_time(c: Control, held: Seq<Picture>, t: i64, now: u64)
    ensures
        match c.play.anchor {
            None => session::paced(c, held, t, now).control.play.anchor == Some((now, t)),
            Some(anchor) => {
                let turn = session::paced(c, held, t, now);
                &&& turn.doing is Wait ==> now + turn.doing->Wait_0 == session::due(anchor, t)
                &&& turn.doing is Convert ==> now > session::due(anchor, t)
                &&& turn.control.play.anchor == Some(anchor)
            },
        },
{
}

/// Whether every held frame is scaled to `out`.
pub open spec fn scaled_to(held: Seq<Picture>, out: (u32, u32)) -> bool {
    forall|i: int|
        0 <= i < held.len() ==> (#[trigger] held[i]).width == out.0 && held[i].height == out.1
}

/// Every held frame is at the scale frames are shown at, whatever happens: a
/// rescale drops them all before one could be shown at the wrong scale.
pub proof fn held_frames_are_at_the_current_scale(
    c: Control,
    held: Seq<Picture>,
    frame_dur: int,
    event: Event,
    now: u64,
)
    requires
        session::awaits(c.phase, event),
        scaled_to(held, c.out),
    ensures
        ({
            let n = session::next(c, held, frame_dur, event, now);
            &&& scaled_to(n.held, n.control.out)
            &&& n.doing is Emit ==> n.doing->Emit_0.picture.width == n.control.out.0
                && n.doing->Emit_0.picture.height == n.control.out.1
        }),
{
    let n = session::next(c, held, frame_dur, event, now);
    match event {
        Event::Idle => match c.phase {
            Phase::Pacing(t) => {},
            _ => {
                assert(n == session::acted(c, held, frame_dur, now));
                let (r, left, _) = session::resized(c, held);
                assert(scaled_to(left, r.out));
                let p = session::profiled(r);
                assert(p.out == r.out);
                if session::hit(p, left, frame_dur) is Some {
                    let t = play_state::destination(p.play)->0;
                    let i = choose|i: int| scrub_cache::serves(left, frame_dur, t as int, i);
                    assert(scrub_cache::serves(left, frame_dur, t as int, i));
                }
            },
        },
        Event::Scaled(rgba) => {
            let t = c.phase->Converting_0;
            let picture = Picture { time_ns: t, width: c.out.0, height: c.out.1, rgba: rgba@ };
            assert(n == session::emitting(c, held, frame_dur, t, rgba@));
            lemma_scaled_with_frame(held, frame_dur, picture, c.out);
        },
        Event::Decoded(pts, best) => {},
        _ => {},
    }
}

proof fn lemma_scaled_with_frame(
    held: Seq<Picture>,
    frame_dur: int,
    f: Picture,
    out: (u32, u32),
)
    requires
        scaled_to(held, out),
        f.width == out.0,
        f.height == out.1,
    ensures
        scaled_to(scrub_cache::with_frame(held, frame_dur, f), out),
{
    let all = held.push(f);
    scrub_cache::the_newest_frames_that_fit_are_held(all);
    let kept = scrub_cache::within_budget(all);
    assert forall|i: int| 0 <= i < kept.len() implies (#[trigger] kept[i]).width == out.0
        && kept[i].height == out.1 by {
        assert(kept[i] == all[all.len() - kept.len() + i]);
    }
}

/// Only frames that a scrub shows are kept: whatever else happens, the frames
/// held stay as they are, unless a rescale drops them.
pub proof fn only_frames_a_scrub_shows_are_kept(
    c: Control,
    held: Seq<Picture>,
    frame_dur: int,
    event: Event,
    now: u64,
)
    requires
        session::awaits(c.phase, event),
    ensures
        ({
            let n = session::next(c, held, frame_dur, event, now);
            n.held == held || (n.held == Seq::<Picture>::empty() && n.control.out != c.out) || (
            c.play.hold_after && n.doing is Emit && n.held == scrub_cache::with_frame(
                held,
                frame_dur,
                n.doing->Emit_0.picture,
            ))
        }),
{
    let n = session::next(c, held, frame_dur, event, now);
    match event {
        Event::Idle => match c.phase {
            Phase::Pacing(t) => {},
            _ => {
                assert(n == session::acted(c, held, frame_dur, now));
            },
        },
        Event::Scaled(rgba) => {
            assert(n == session::emitting(c, held, frame_dur, c.phase->Converting_0, rgba@));
        },
        _ => {},
    }
}

/// A frame is due as long after the one that set the pace on the wall clock as it
/// is in the clip, so that two frames are due as far apart as they lie; one from
/// before it is due at once.
pub proof fn frames_are_due_as_far_apart_as_they_lie(anchor: (u64, i64), a: i64, b: i64)
    requires
        anchor.1 <= a <= b,
        anchor.0 + (b - anchor.1) <= u64::MAX,
    ensures
        session::due(anchor, anchor.1) == anchor.0,
        session::due(anchor, b) - session::due(anchor, a) == b - a,
        forall|t: i64| t <= anchor.1 ==> #[trigger] session::due(anchor, t) == anchor.0,
{
}

/// A frame that comes early is waited for until it is due, one that comes when its
/// slot has passed goes out at once and is counted late by how much, and the first
/// after a move goes out at once and sets the pace. Nothing else is decided by
/// the clock.
pub proof fn a_frame_goes_out_when_it_is_due(c: Control, held: Seq<Picture>, t: i64, now: u64)
    requires
        c.pace.late < u32::MAX,
    ensures
        ({
            let n = session::paced(c, held, t, now);
            &&& n.held == held
            &&& n.report is None
            &&& c.play.anchor is None ==> n.doing == Doing::Convert(c.out.0, c.out.1)
                && n.control.phase == Phase::Converting(t) && n.control.play.anchor == Some((now, t))
                && n.control.pace == c.pace
            &&& c.play.anchor matches Some(anchor) ==> {
                let at = session::due(anchor, t);
                &&& now <= at ==> n.doing is Wait && now + n.doing->Wait_0 == at && n.control.phase
                    == Phase::Pacing(t) && n.control.pace == c.pace
                &&& now > at ==> n.doing == Doing::Convert(c.out.0, c.out.1) && n.control.phase
                    == Phase::Converting(t) && n.control.pace.late == c.pace.late + 1
                    && n.control.pace.worst_ns >= now - at && n.control.pace.frames
                    == c.pace.frames
                &&& n.control.play == c.play
            }
            &&& (n.control.shape, n.control.out, n.control.pump, n.control.skipped) == (
                c.shape,
                c.out,
                c.pump,
                c.skipped,
            )
            &&& n.control.profile == c.profile
        }),
{
}

/// A command is folded into what the player is doing, and nothing else changes;
/// the machine then looks for the next one.
pub proof fn a_command_only_changes_what_is_played(
    c: Control,
    held: Seq<Picture>,
    frame_dur: int,
    cmd: PlayCommand,
    now: u64,
)
    requires
        cmd != PlayCommand::Stop,
    ensures
        ({
            let n = session::next(c, held, frame_dur, Event::Command(cmd), now);
            &&& n.doing == Doing::Poll
            &&& n.held == held
            &&& n.report is None
            &&& n.control == (Control {
                play: play_state::folded(c.play, cmd, now),
                phase: Phase::Polling,
                ..c
            })
        }),
{
}

/// A failure of what was asked for ends the session, whatever it was.
pub proof fn a_failure_ends_the_session(
    c: Control,
    held: Seq<Picture>,
    frame_dur: int,
    now: u64,
)
    requires
        session::awaits(c.phase, Event::Failed),
    ensures
        session::next(c, held, frame_dur, Event::Failed, now).doing == Doing::End,
        session::next(c, held, frame_dur, Event::Failed, now).control.phase == Phase::Over,
{
}

/// A move is timed from its command on: once nothing more is queued its profile
/// starts with the time of the command and its target, and with nothing sought or
/// decoded; a state without a new move keeps the profile it has.
pub proof fn a_move_is_timed_from_its_command(c: Control)
    ensures
        c.play.move_start is None ==> session::profiled(c) == c,
        c.play.move_start matches Some(start) ==> {
            let d = session::profiled(c);
            &&& d.profile is Some
            &&& d.profile->0.start_ns == start
            &&& play_state::destination(c.play) matches Some(t) ==> d.profile->0.target_ns == t
            &&& (d.profile->0.seek_ns, d.profile->0.decoded, d.profile->0.decode_ns) == (
                0u64,
                0u32,
                0u64,
            )
            &&& d.play.move_start is None
            &&& Control {
                play: PlayState { move_start: Some(start), ..d.play },
                profile: c.profile,
                ..d
            } == c
        },
{
}

/// The profile of a move takes in what the seek cost, and of every decode what it
/// cost and whether it gave a frame.
pub proof fn a_profile_takes_in_every_cost(
    c: Control,
    held: Seq<Picture>,
    frame_dur: int,
    p: SeekProfile,
    since: u64,
    now: u64,
    pts: Option<i64>,
    best: Option<i64>,
)
    requires
        c.profile == Some(p),
        since <= now,
        p.decode_ns + (now - since) <= u64::MAX,
        p.decoded < u32::MAX,
    ensures
        c.phase == Phase::Seeking(since) ==> ({
            let n = session::next(c, held, frame_dur, Event::Done, now);
            &&& n.control.profile is Some
            &&& n.control.profile->0.seek_ns == now - since
            &&& SeekProfile { seek_ns: p.seek_ns, ..n.control.profile->0 } == p
        }),
        c.phase == Phase::Receiving(since) ==> ({
            let n = session::next(c, held, frame_dur, Event::Decoded(pts, best), now);
            let e = session::next(c, held, frame_dur, Event::Eof, now);
            &&& n.control.profile is Some && e.control.profile is Some
            &&& n.control.profile->0.decoded == p.decoded + 1
            &&& e.control.profile->0.decoded == p.decoded
            &&& n.control.profile->0.decode_ns == p.decode_ns + (now - since)
            &&& e.control.profile->0.decode_ns == p.decode_ns + (now - since)
            &&& (n.control.profile->0.start_ns, n.control.profile->0.target_ns) == (
                p.start_ns,
                p.target_ns,
            )
            &&& n.control.profile->0.seek_ns == p.seek_ns
        }),
{
    let noted = Control {
        profile: session::decode_noted(c.profile, session::span(now, since), true),
        ..c
    };
    let end = Control {
        profile: session::decode_noted(c.profile, session::span(now, since), false),
        ..c
    };
    if c.phase == Phase::Receiving(since) {
        let t = session::time_of(c.shape, pts, best);
        assert(session::next(c, held, frame_dur, Event::Decoded(pts, best), now)
            == session::arrived(noted, held, t, now));
        assert(session::next(c, held, frame_dur, Event::Eof, now) == session::drained(end, held));
    }
}

/// A move is reported once, when its frame is on screen: with its profile, the
/// time since its command, and where it landed; as cached when a held frame
/// answered it. Frames that no move led to are not reported.
pub proof fn a_move_is_reported_when_it_lands(
    c: Control,
    held: Seq<Picture>,
    frame_dur: int,
    t: i64,
    now: u64,
)
    requires
        c.phase == Phase::Emitting(t) || c.phase == Phase::Serving(t),
        c.profile matches Some(p) ==> p.start_ns <= now,
    ensures
        ({
            let n = session::next(c, held, frame_dur, Event::Delivered(true), now);
            &&& n.doing == Doing::Poll
            &&& n.held == held
            &&& n.control.profile is None
            &&& n.control.play.shown_ns == Some(t)
            &&& c.profile is None ==> n.report is None
            &&& c.profile matches Some(p) ==> {
                &&& c.phase == Phase::Emitting(t) ==> n.report == Some(
                    Report::Landed(p, (now - p.start_ns) as u64, t),
                )
                &&& c.phase == Phase::Serving(t) ==> n.report == Some(
                    Report::Cached(p, (now - p.start_ns) as u64, t),
                )
            }
            &&& c.phase == Phase::Emitting(t) ==> n.control.play == (PlayState {
                shown_ns: Some(t),
                paused: c.play.paused || c.play.hold_after,
                hold_after: false,
                ..c.play
            })
            &&& c.phase == Phase::Serving(t) ==> n.control.play.paused && destination_is_met(
                n.control.play,
            ) && n.control.play.current_ns == c.play.current_ns
        }),
{
}

/// Whether nothing is left of a move.
pub open spec fn destination_is_met(p: PlayState) -> bool {
    p.skip_until is None && p.pending_seek is None && !p.hold_after && p.anchor is None
}

/// Every frame that goes out is counted in its stretch, and a stretch that closes
/// is reported: a long one by itself, any other at the end of the session and when
/// the output box changes.
pub proof fn every_stretch_is_reported_when_it_closes(
    c: Control,
    held: Seq<Picture>,
    frame_dur: int,
    rgba: Vec<u8>,
    now: u64,
)
    ensures
        c.phase is Converting ==> ({
            let n = session::next(c, held, frame_dur, Event::Scaled(rgba), now);
            let (stretch, closed) = pace::counted(c.pace);
            &&& n.control.pace == stretch
            &&& closed is None ==> n.report is None
            &&& closed matches Some(p) ==> n.report == Some(Report::Pace(p))
            &&& n.doing->Emit_0.src_w == c.shape.src_w && n.doing->Emit_0.src_h == c.shape.src_h
            &&& !c.play.hold_after ==> n.held == held
        }),
        ({
            let n = session::next(c, held, frame_dur, Event::Disconnected, now);
            &&& pace::closing(c.pace) is None ==> n.report is None
            &&& pace::closing(c.pace) matches Some(p) ==> n.report == Some(Report::Pace(p))
        }),
        ({
            let (d, left, report) = session::resized(c, held);
            let size = session::wanted_size(c);
            let (stretch, closed) = pace::reboxed(c.pace, size.0, size.1);
            &&& d.out == size
            &&& c.out == size ==> d == c && left == held && report is None
            &&& c.out != size ==> left.len() == 0 && d.pace == stretch
            &&& c.out != size && closed is None ==> report is None
            &&& c.out != size ==> (closed matches Some(p) ==> report == Some(Report::Pace(p)))
            &&& Control { out: c.out, pace: c.pace, ..d } == c
        }),
{
}

/// Frames are scaled to what the long side asked for amounts to, and placed at
/// their own timestamp from the start that the stream declares.
pub proof fn frames_are_scaled_and_placed_by_the_stream(
    c: Control,
    p: i64,
    start: i64,
    best: Option<i64>,
)
    requires
        c.shape.valid(),
    ensures
        (session::wanted_size(c).0 as int, session::wanted_size(c).1 as int)
            == sizing::playback_size(
            c.shape.src_w as int,
            c.shape.src_h as int,
            c.play.long_side as int,
        ),
        session::time_of(c.shape, Some(p), best) == session::time_of(c.shape, None, Some(p)),
        c.shape.start is None ==> session::time_of(c.shape, Some(p), best) == clock::media_ns(
            p as int,
            0,
            c.shape.time_base,
        ),
        c.shape.start == Some(start) ==> session::time_of(c.shape, Some(p), best)
            == clock::media_ns(p as int, start as int, c.shape.time_base),
{
    let (w, h) = (c.shape.src_w as int, c.shape.src_h as int);
    sizing::playback_never_invents_pixels(w, h, c.play.long_side as int);
    sizing::fitted_frames_fill_their_box(w, h, c.play.long_side as int);
    sizing::fitted_frames_fill_their_box(w, h, sizing::long_side_of(w, h));
}

/// A span is the time between two readings of the clock, and spans add up, as far
/// as they can be told.
pub proof fn spans_are_the_time_between(now: u64, then: u64, a: u64, b: u64)
    ensures
        then <= now ==> then + session::span(now, then) == now,
        now < then ==> session::span(now, then) == 0,
        a + b <= u64::MAX ==> session::span_sum(a, b) == a + b,
        a + b > u64::MAX ==> session::span_sum(a, b) == u64::MAX,
{
}

/// What is handed on is the frame itself: its own pixels, at its own size and
/// time, and the size of its source; and what is to be done is what is said.
pub proof fn what_is_handed_on_is_the_frame(f: PlaybackFrame, a: Action)
    ensures
        f@.picture.rgba == f.rgba@,
        (f@.picture.time_ns, f@.picture.width, f@.picture.height) == (f.time_ns, f.width, f.height),
        (f@.src_w, f@.src_h) == (f.src_w, f.src_h),
        a matches Action::Emit(g) ==> a@ == Doing::Emit(g@),
        a matches Action::Wait(ns) ==> a@ == Doing::Wait(ns),
        a matches Action::Seek(us) ==> a@ == Doing::Seek(us),
        a matches Action::Convert(w, h) ==> a@ == Doing::Convert(w, h),
        a is Poll <==> a@ is Poll,
        a is Block <==> a@ is Block,
        a is Receive <==> a@ is Receive,
        a is SendEof <==> a@ is SendEof,
        a is ReadPacket <==> a@ is ReadPacket,
        a is Buffer <==> a@ is Buffer,
        a is Recall <==> a@ is Recall,
        a is End <==> a@ is End,
{
}

} // verus!
