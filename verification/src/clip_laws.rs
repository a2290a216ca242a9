//! What a playback session shows of a clip, over whole runs of events.
//!
//! The laws are about a session that plays one clip: its decoder gives the
//! clip's frames one after the other from where it stands, a seek puts it no
//! later than the time sought, and scaling a frame to a size gives that frame's
//! pixels at that size.

use vstd::prelude::*;

use crate::clock;
use crate::play_state;
use crate::play_state::PlayCommand;
use crate::pump;
use crate::scrub_cache;
use crate::scrub_cache::Picture;
use crate::session;
use crate::session::{Control, Doing, Event, Phase, StreamShape, Turn};

verus! {

/// A clip as decoding and scaling give it.
pub struct Film {
    /// The media times of its frames, in the order they are decoded in.
    pub times: Seq<int>,
    /// The pixels of the frame with this number, scaled to this size.
    pub looks: spec_fn(int, (u32, u32)) -> Seq<u8>,
    /// The nominal duration of a frame; zero if the clip declares no rate.
    pub frame_dur: int,
    /// How many packets it has.
    pub packets: int,
}

impl Film {
    /// A clip that has frames, each later than the one before.
    pub open spec fn valid(self) -> bool {
        &&& self.times.len() > 0
        &&& forall|i: int| 0 <= i < self.times.len() ==> 0 <= #[trigger] self.times[i] <= i64::MAX
        &&& forall|i: int, j: int|
            0 <= i < j < self.times.len() ==> #[trigger] self.times[i] < #[trigger] self.times[j]
    }

    /// A clip whose frames lie at least its nominal frame duration apart, as a
    /// constant frame rate has them, or which declares no rate.
    pub open spec fn even(self) -> bool {
        self.frame_dur > 0 ==> scrub_cache::steady(self.times, self.frame_dur)
    }

    /// Whether no frame of these but `k` answers a scrub to `t`: none does at all,
    /// or the one that does is `k`.
    pub open spec fn answered_truly(self, held: Seq<Picture>, t: int, k: int) -> bool {
        forall|i: int| #[trigger]
            scrub_cache::serves(held, self.frame_dur, t, i) ==> held[i].time_ns == self.times[k]
    }

    /// Frame number `k`, scaled to a size.
    pub open spec fn picture(self, k: int, out: (u32, u32)) -> Picture {
        Picture {
            time_ns: self.times[k] as i64,
            width: out.0,
            height: out.1,
            rgba: (self.looks)(k, out),
        }
    }

    /// Whether a picture is one of the clip's frames, scaled to a size.
    pub open spec fn has(self, p: Picture, out: (u32, u32)) -> bool {
        exists|k: int| 0 <= k < self.times.len() && p == #[trigger] self.picture(k, out)
    }

    /// The frames from number `a` up to, and not counting, number `b`.
    pub open spec fn stretch(self, a: int, b: int, out: (u32, u32)) -> Seq<Picture> {
        Seq::new((b - a) as nat, |i: int| self.picture(a + i, out))
    }

    /// Whether all the frames before number `n` fall short of `t`.
    pub open spec fn short_before(self, n: int, t: int) -> bool {
        forall|j: int| 0 <= j < n ==> #[trigger] self.times[j] < scrub_cache::landing_bound(t)
    }

    /// Whether `k` is the frame a precise move to `t` lands on: the first that
    /// does not fall short of it, or the last of all if every frame does.
    pub open spec fn lands_on(self, t: int, k: int) -> bool {
        ||| scrub_cache::decode_lands_on(self.times, t, k)
        ||| k == self.times.len() - 1 && self.short_before(self.times.len() as int, t)
    }
}

/// Where the outside world is in the clip.
pub struct Feed {
    /// The frame the decoder gives next.
    pub next: int,
    /// How many packets the demuxer has left.
    pub packets: int,
    /// The frame it gave or brought back last.
    pub hand: int,
    /// The frame set aside last.
    pub aside: int,
    /// The microseconds sought last.
    pub sought: int,
}

/// A session on a clip: its machine, what it holds, and where the clip is.
pub struct Showing {
    pub control: Control,
    pub held: Seq<Picture>,
    pub feed: Feed,
}

/// Something that happens outside, when it happens, and, if it is the end of a
/// seek, the frame that the decoder now gives next and the packets left from
/// there.
pub struct Moment {
    pub event: Event,
    pub now: u64,
    pub landed: int,
    pub left: int,
}

/// Where a stream starts on the timeline that seeks go by.
pub open spec fn starts_at(shape: StreamShape) -> int {
    clock::saturated(clock::ticks_ns(clock::origin(shape.start) as int, shape.time_base))
}

/// Whether what happens is awaited, and is what happens with this clip.
pub open spec fn true_to(film: Film, w: Showing, m: Moment) -> bool {
    let c = w.control;
    let f = w.feed;
    &&& session::awaits(c.phase, m.event)
    &&& match (c.phase, m.event) {
        // The decoder gives the next frame; it has none only at the end.
        (Phase::Receiving(_), Event::Decoded(pts, best)) => f.next < film.times.len()
            && session::time_of(c.shape, pts, best) == film.times[f.next],
        (Phase::Receiving(_), Event::Again) => c.pump.demux_eof && c.pump.eof_sent ==> f.next
            == film.times.len(),
        (Phase::Receiving(_), Event::Eof) => f.next == film.times.len(),
        (Phase::Recalling, Event::Decoded(pts, best)) => session::time_of(c.shape, pts, best)
            == film.times[f.aside],
        (Phase::Converting(_), Event::Scaled(rgba)) => rgba@ == (film.looks)(f.hand, c.out),
        // A seek lands on a frame no later than the time sought, or on the first.
        (Phase::Seeking(_), Event::Done) => 0 <= m.landed < film.times.len() && (m.landed == 0
            || film.times[m.landed] + starts_at(c.shape) <= f.sought * 1000) && 0 <= m.left
            <= film.packets,
        (Phase::Reading(_), Event::Packet(found)) => found ==> f.packets > 0,
        _ => true,
    }
}

/// The turn the machine takes.
pub open spec fn turn(film: Film, w: Showing, m: Moment) -> Turn {
    session::next(w.control, w.held, film.frame_dur, m.event, m.now)
}

/// Where the clip is once the machine has answered what happened.
pub open spec fn fed(w: Showing, m: Moment, doing: Doing) -> Feed {
    let f = w.feed;
    let hand = match (w.control.phase, m.event) {
        (Phase::Receiving(_), Event::Decoded(_, _)) => f.next,
        (Phase::Recalling, Event::Decoded(_, _)) => f.aside,
        _ => f.hand,
    };
    Feed {
        next: match (w.control.phase, m.event) {
            (Phase::Receiving(_), Event::Decoded(_, _)) => f.next + 1,
            (Phase::Seeking(_), Event::Done) => m.landed,
            _ => f.next,
        },
        packets: match (w.control.phase, m.event) {
            (Phase::Reading(_), Event::Packet(found)) => if found {
                f.packets - 1
            } else {
                f.packets
            },
            (Phase::Seeking(_), Event::Done) => m.left,
            _ => f.packets,
        },
        hand,
        aside: if doing is Buffer {
            hand
        } else {
            f.aside
        },
        sought: match doing {
            Doing::Seek(us) => us as int,
            _ => f.sought,
        },
    }
}

/// The session once this has happened.
pub open spec fn after(film: Film, w: Showing, m: Moment) -> Showing {
    let t = turn(film, w, m);
    Showing { control: t.control, held: t.held, feed: fed(w, m, t.doing) }
}

/// What holds of a session on a clip at all times: the frames it holds are the
/// clip's; no frame the decoder has passed is later than where the machine takes
/// the decoder to be; a frame set aside is the one decoded last; and a frame on
/// its way to the screen is the one in hand.
pub open spec fn in_step(film: Film, w: Showing) -> bool {
    let c = w.control;
    let f = w.feed;
    &&& film.valid()
    &&& starts_at(c.shape) >= 0
    &&& session::orderly(c)
    &&& forall|i: int| 0 <= i < w.held.len() ==> film.has(#[trigger] w.held[i], c.out)
    &&& 0 <= f.next <= film.times.len()
    &&& 0 <= f.packets <= film.packets
    &&& if c.phase is Seeking {
        f.sought == clock::seek_us(c.play.current_ns as int, starts_at(c.shape)) && !c.skipped
    } else {
        c.phase is Over || forall|j: int|
            0 <= j < f.next ==> #[trigger] film.times[j] <= c.play.current_ns
    }
    &&& c.skipped ==> f.next > 0 && f.aside == f.next - 1
    &&& c.phase is Recalling ==> f.aside == film.times.len() - 1
    &&& match c.phase {
        Phase::Pacing(t) | Phase::Converting(t) | Phase::Emitting(t) => 0 <= f.hand
            < film.times.len() && t == film.times[f.hand],
        _ => true,
    }
}

/// A session that has just been made is in step with a clip that its decoder has
/// yet to give the first frame of.
pub proof fn a_new_session_is_in_step(film: Film, w: Showing)
    requires
        film.valid(),
        starts_at(w.control.shape) >= 0,
        session::orderly(w.control),
        w.control.phase is Polling,
        !w.control.skipped,
        w.held.len() == 0,
        w.feed.next == 0,
        0 <= w.feed.packets <= film.packets,
    ensures
        in_step(film, w),
{
}

proof fn lemma_seek_lands_short(t: int, start: int, landed: int)
    requires
        start >= 0,
        landed >= 0,
        landed + start <= clock::seek_us(t, start) * 1000,
    ensures
        landed == 0 || landed <= scrub_cache::landing_bound(t),
{
    if clock::seek_us(t, start) > 0 {
        assert(t + start >= 0);
        clock::seek_aims_before_the_target(t, start);
    }
}

/// After a seek the frames passed over are short of its target.
proof fn lemma_passed_over(film: Film, t: int, start: int, landed: int)
    requires
        film.valid(),
        start >= 0,
        0 <= landed < film.times.len(),
        landed == 0 || film.times[landed] + start <= clock::seek_us(t, start) * 1000,
    ensures
        film.short_before(landed, t),
{
    if landed > 0 {
        assert(film.times[0] < film.times[landed]);
        lemma_seek_lands_short(t, start, film.times[landed]);
        assert forall|j: int| 0 <= j < landed implies #[trigger] film.times[j]
            < scrub_cache::landing_bound(t) by {
            assert(film.times[j] < film.times[landed]);
        }
    }
}

proof fn lemma_kept_frames_are_the_clips(
    film: Film,
    held: Seq<Picture>,
    f: Picture,
    out: (u32, u32),
)
    requires
        forall|i: int| 0 <= i < held.len() ==> film.has(#[trigger] held[i], out),
        film.has(f, out),
    ensures
        forall|i: int|
            0 <= i < scrub_cache::with_frame(held, film.frame_dur, f).len() ==> film.has(
                #[trigger] scrub_cache::with_frame(held, film.frame_dur, f)[i],
                out,
            ),
{
    let all = held.push(f);
    scrub_cache::the_newest_frames_that_fit_are_held(all);
    let kept = scrub_cache::within_budget(all);
    assert forall|i: int| 0 <= i < kept.len() implies film.has(#[trigger] kept[i], out) by {
        assert(kept[i] == all[all.len() - kept.len() + i]);
    }
}

proof fn lemma_acting_keeps_in_step(film: Film, w: Showing, m: Moment)
    requires
        in_step(film, w),
        true_to(film, w, m),
        m.event is Idle,
        w.control.phase is Polling,
    ensures
        in_step(film, after(film, w, m)),
{
    session::every_turn_leaves_the_machine_in_order(
        w.control,
        w.held,
        film.frame_dur,
        m.event,
        m.now,
    );
    assert(turn(film, w, m) == session::acted(w.control, w.held, film.frame_dur, m.now));
    let (r, left, report) = session::resized(w.control, w.held);
    let p = session::profiled(r);
    assert(p.out == r.out && p.skipped == w.control.skipped && p.shape == w.control.shape);
    assert(p.play.current_ns == w.control.play.current_ns);
    assert(forall|i: int| 0 <= i < left.len() ==> film.has(#[trigger] left[i], r.out));
}

/// Whatever happens with the clip, a session that is in step with it stays so.
pub proof fn every_moment_keeps_in_step(film: Film, w: Showing, m: Moment)
    requires
        in_step(film, w),
        true_to(film, w, m),
    ensures
        in_step(film, after(film, w, m)),
{
    let c = w.control;
    let f = w.feed;
    let n = after(film, w, m);
    session::every_turn_leaves_the_machine_in_order(c, w.held, film.frame_dur, m.event, m.now);
    match m.event {
        Event::Command(cmd) => {
            assert(turn(film, w, m) == session::commanded(c, w.held, cmd, m.now));
        },
        Event::Idle => match c.phase {
            Phase::Pacing(t) => {},
            _ => lemma_acting_keeps_in_step(film, w, m),
        },
        Event::Done => match c.phase {
            Phase::Seeking(since) => {
                assert(turn(film, w, m) == session::sought(c, w.held, since, m.now));
                lemma_passed_over(
                    film,
                    c.play.current_ns as int,
                    starts_at(c.shape),
                    m.landed,
                );
            },
            _ => {},
        },
        Event::Decoded(pts, best) => {
            let t = session::time_of(c.shape, pts, best);
            match c.phase {
                Phase::Receiving(since) => {
                    let noted = Control {
                        profile: session::decode_noted(
                            c.profile,
                            session::span(m.now, since),
                            true,
                        ),
                        ..c
                    };
                    assert(turn(film, w, m) == session::arrived(noted, w.held, t, m.now));
                },
                _ => {
                    assert(turn(film, w, m) == session::arrived(c, w.held, t, m.now));
                },
            }
            assert(n.control.play.current_ns == t);
            assert forall|j: int| 0 <= j < n.feed.next implies #[trigger] film.times[j]
                <= n.control.play.current_ns by {
                assert(film.times[j] <= film.times[n.feed.hand]);
            }
        },
        Event::Scaled(rgba) => {
            let t = c.phase->Converting_0;
            assert(turn(film, w, m) == session::emitting(c, w.held, film.frame_dur, t, rgba@));
            let p = Picture { time_ns: t, width: c.out.0, height: c.out.1, rgba: rgba@ };
            assert(p == film.picture(f.hand, c.out));
            lemma_kept_frames_are_the_clips(film, w.held, p, c.out);
        },
        Event::Again => {
            let r = session::received(
                c,
                w.held,
                c.phase->Receiving_0,
                pump::Received::Again,
                0,
                m.now,
            );
            assert(turn(film, w, m) == r);
            assert(n.held == w.held && n.control.out == c.out && n.feed.next == f.next);
        },
        Event::Eof => {
            let noted = Control {
                profile: session::decode_noted(
                    c.profile,
                    session::span(m.now, c.phase->Receiving_0),
                    false,
                ),
                ..c
            };
            assert(turn(film, w, m) == session::drained(noted, w.held));
        },
        Event::Packet(found) => {},
        Event::Delivered(ok) => {
            assert(n.control.phase is Polling || n.control.phase is Over);
        },
        Event::Disconnected | Event::Failed => {
            assert(turn(film, w, m) == session::ended(c, w.held));
        },
    }
}

/// The session once the first `n` of these have happened.
pub open spec fn run(film: Film, w: Showing, ms: Seq<Moment>, n: nat) -> Showing
    decreases n,
{
    if n == 0 {
        w
    } else {
        after(film, run(film, w, ms, (n - 1) as nat), ms[n - 1])
    }
}

/// The pictures handed on while the first `n` of these happened.
pub open spec fn shown(film: Film, w: Showing, ms: Seq<Moment>, n: nat) -> Seq<Picture>
    decreases n,
{
    if n == 0 {
        Seq::empty()
    } else {
        let before = shown(film, w, ms, (n - 1) as nat);
        match turn(film, run(film, w, ms, (n - 1) as nat), ms[n - 1]).doing {
            Doing::Emit(f) => before.push(f.picture),
            _ => before,
        }
    }
}

/// Whether the first `n` of these are what happens with the clip.
pub open spec fn all_true(film: Film, w: Showing, ms: Seq<Moment>, n: nat) -> bool {
    forall|i: int| 0 <= i < n ==> true_to(film, #[trigger] run(film, w, ms, i as nat), ms[i])
}

/// Whether no command comes and nothing fails: what happens is only what the
/// machine asked for.
pub open spec fn undisturbed(m: Moment) -> bool {
    match m.event {
        Event::Command(_) | Event::Disconnected | Event::Failed => false,
        Event::Delivered(ok) => ok,
        _ => true,
    }
}

/// No run of what happens puts a session out of step with its clip, so that what
/// is said of one scrub holds wherever in a session it comes.
pub proof fn every_run_keeps_in_step(film: Film, w: Showing, ms: Seq<Moment>, n: nat)
    requires
        in_step(film, w),
        n <= ms.len(),
        all_true(film, w, ms, n),
    ensures
        in_step(film, run(film, w, ms, n)),
    decreases n,
{
    if n > 0 {
        let m = (n - 1) as nat;
        every_run_keeps_in_step(film, w, ms, m);
        let d = run(film, w, ms, m);
        assert(true_to(film, d, ms[m as int]));
        every_moment_keeps_in_step(film, d, ms[m as int]);
    }
}

/// A session on its way to show frame `k` for a scrub to `t` and then to hold,
/// `done` once the frame has been handed on.
spec fn scrubbing(film: Film, w: Showing, t: i64, k: int, size: (u32, u32), done: bool) -> bool {
    let c = w.control;
    let f = w.feed;
    // The frame is yet to come from the decoder, or has just been set aside.
    // It lies behind the decoder if that is at the end, and is sought then.
    let coming = film.short_before(f.next, t as int) && (f.next < film.times.len() || c.skipped
        || session::short_of(c.play.current_ns as int, t as int));
    &&& in_step(film, w)
    &&& film.lands_on(t as int, k)
    &&& !done ==> film.answered_truly(w.held, t as int, k)
    &&& session::wanted_size(c) == size
    &&& match c.phase {
        Phase::Polling => if done {
            &&& c.play.paused
            &&& !c.play.hold_after
            &&& c.out == size
            &&& c.play.move_start is None
            &&& c.play.skip_until is None
            &&& c.play.pending_seek is None
            &&& c.play.shown_ns == Some(film.times[k] as i64)
        } else {
            &&& c.play.hold_after
            &&& !c.play.paused
            &&& match c.play.pending_seek {
                Some(p) => p == (t, true) && c.play.skip_until is None,
                None => c.play.skip_until == Some(t) && coming,
            }
        },
        Phase::Seeking(_) => {
            &&& !done
            &&& c.play.hold_after
            &&& !c.play.paused
            &&& c.play.skip_until == Some(t)
            &&& c.play.current_ns == t
        },
        Phase::Receiving(_) | Phase::Flushing(_) | Phase::Reading(_) | Phase::Buffering => {
            &&& !done
            &&& c.play.hold_after
            &&& c.play.skip_until == Some(t)
            &&& coming
            &&& c.phase is Reading ==> !c.pump.demux_eof
        },
        Phase::Recalling => {
            &&& !done
            &&& c.play.hold_after
            &&& k == film.times.len() - 1
        },
        Phase::Converting(_) => !done && c.play.hold_after && f.hand == k,
        Phase::Emitting(x) => done && c.play.hold_after && x == film.times[k],
        Phase::Serving(x) => {
            &&& done
            &&& x == film.times[k]
            &&& c.out == size
            &&& c.play.move_start is None
        },
        Phase::Blocking => {
            &&& done
            &&& c.play.paused
            &&& c.play.shown_ns == Some(film.times[k] as i64)
        },
        _ => false,
    }
}

/// On a clip of a constant frame rate the held frame that answers a scrub is the
/// one it lands on.
pub proof fn an_even_clip_is_answered_truly(
    film: Film,
    held: Seq<Picture>,
    out: (u32, u32),
    t: int,
    k: int,
)
    requires
        film.valid(),
        film.even(),
        film.lands_on(t, k),
        forall|i: int| 0 <= i < held.len() ==> film.has(#[trigger] held[i], out),
    ensures
        film.answered_truly(held, t, k),
{
    let d = film.frame_dur;
    assert forall|i: int| #[trigger] scrub_cache::serves(held, d, t, i) implies held[i].time_ns
        == film.times[k] by {
        assert(d > 0);
        assert(scrub_cache::held_from(held, film.times)) by {
            assert forall|x: int| 0 <= x < held.len() implies film.times.contains(
                #[trigger] held[x].time_ns as int,
            ) by {
                assert(film.has(held[x], out));
                let y = choose|y: int|
                    0 <= y < film.times.len() && held[x] == #[trigger] film.picture(y, out);
                assert(film.times[y] == held[x].time_ns);
            }
        }
        scrub_cache::a_hit_is_what_a_decode_lands_on(held, film.times, d, t, i);
        let l = choose|l: int| #[trigger]
            scrub_cache::decode_lands_on(film.times, t, l) && film.times[l] == held[i].time_ns;
        assert(l == k) by {
            assert(film.times[l] >= scrub_cache::landing_bound(t));
            if l < k {
                assert(film.times[l] < scrub_cache::landing_bound(t));
            }
            if k < l {
                assert(film.times[k] < scrub_cache::landing_bound(t));
            }
        }
    }
}

proof fn lemma_hit_is_the_frame(film: Film, c: Control, held: Seq<Picture>, t: i64, k: int)
    requires
        film.valid(),
        0 <= k < film.times.len(),
        film.answered_truly(held, t as int, k),
        forall|i: int| 0 <= i < held.len() ==> film.has(#[trigger] held[i], c.out),
        play_state::destination(c.play) == Some(t),
        session::hit(c, held, film.frame_dur) is Some,
    ensures
        session::hit(c, held, film.frame_dur) == Some(film.picture(k, c.out)),
{
    let d = film.frame_dur;
    let i = choose|i: int| scrub_cache::serves(held, d, t as int, i);
    assert(scrub_cache::serves(held, d, t as int, i));
    assert(film.has(held[i], c.out));
    let j = choose|j: int|
        0 <= j < film.times.len() && held[i] == #[trigger] film.picture(j, c.out);
    assert(film.times[j] == film.times[k]);
    assert(j == k);
}

/// How many undisturbed moments a move may still take before the session waits
/// for a command, at most.
spec fn patience(film: Film, w: Showing, done: bool) -> int {
    let c = w.control;
    let f = w.feed;
    let most = 6 * film.times.len() + 3 * film.packets + 20;
    let left = 10 + 6 * (film.times.len() - f.next) + 3 * f.packets + (if c.pump.demux_eof {
        0int
    } else {
        3
    }) + (if c.pump.eof_sent {
        0int
    } else {
        3
    });
    // A hop that finds the decoder at the end has a seek ahead of it yet.
    let seek = if f.next == film.times.len() && !c.skipped {
        most + 10
    } else {
        0
    };
    match c.phase {
        Phase::Polling => if done {
            1
        } else if c.play.pending_seek is Some {
            most + 2
        } else {
            left + seek + 3
        },
        Phase::Seeking(_) => most + 1,
        Phase::Receiving(_) => left + seek + 2,
        Phase::Reading(_) => left + seek + 1,
        Phase::Flushing(_) => left + seek + 3,
        Phase::Buffering => left + seek + 4,
        Phase::Recalling => 4,
        Phase::Converting(_) => 3,
        Phase::Emitting(_) | Phase::Serving(_) => 2,
        _ => 0,
    }
}

/// How many moments a move takes at most, from its command until the session
/// waits for the next.
pub open spec fn longest_move(film: Film) -> int {
    12 * film.times.len() + 6 * film.packets + 60
}

/// What an undisturbed moment leaves of a scrub: it goes on, hands on its frame
/// once, and comes closer to its end.
spec fn scrub_goes_on(
    film: Film,
    w: Showing,
    m: Moment,
    t: i64,
    k: int,
    size: (u32, u32),
    done: bool,
) -> bool {
    let doing = turn(film, w, m).doing;
    let n = after(film, w, m);
    &&& scrubbing(film, n, t, k, size, done || doing is Emit)
    &&& doing is Emit ==> !done && doing->Emit_0.picture == film.picture(k, size)
    &&& 0 <= patience(film, n, done || doing is Emit) < patience(film, w, done)
}

proof fn lemma_scrub_acts(
    film: Film,
    w: Showing,
    m: Moment,
    t: i64,
    k: int,
    size: (u32, u32),
    done: bool,
)
    requires
        scrubbing(film, w, t, k, size, done),
        true_to(film, w, m),
        undisturbed(m),
        w.control.phase is Polling,
    ensures
        scrub_goes_on(film, w, m, t, k, size, done),
{
    every_moment_keeps_in_step(film, w, m);
    let c = w.control;
    let f = w.feed;
    let tt = turn(film, w, m);
    assert(tt == session::acted(c, w.held, film.frame_dur, m.now));
    let (r, left, report) = session::resized(c, w.held);
    let p = session::profiled(r);
    assert(session::wanted_size(p) == size);
    assert(p.out == size);
    assert(forall|i: int| 0 <= i < left.len() ==> film.has(#[trigger] left[i], p.out));
    if done {
        assert(play_state::destination(p.play) is None);
        assert(tt == session::resumed(p, left, report, m.now));
    } else {
        assert(film.answered_truly(left, t as int, k));
        assert(play_state::destination(p.play) == Some(t));
        if session::hit(p, left, film.frame_dur) is Some {
            lemma_hit_is_the_frame(film, p, left, t, k);
        } else if p.play.pending_seek is None {
            assert(tt == session::resumed(p, left, report, m.now));
        }
    }
}

proof fn lemma_scrub_receives(
    film: Film,
    w: Showing,
    m: Moment,
    t: i64,
    k: int,
    size: (u32, u32),
    done: bool,
)
    requires
        scrubbing(film, w, t, k, size, done),
        true_to(film, w, m),
        undisturbed(m),
        w.control.phase is Receiving,
    ensures
        scrub_goes_on(film, w, m, t, k, size, done),
{
    every_moment_keeps_in_step(film, w, m);
    let c = w.control;
    let f = w.feed;
    let tt = turn(film, w, m);
    let since = c.phase->Receiving_0;
    match m.event {
        Event::Decoded(pts, best) => {
            let x = session::time_of(c.shape, pts, best);
            let noted = Control {
                profile: session::decode_noted(c.profile, session::span(m.now, since), true),
                ..c
            };
            assert(tt == session::arrived(noted, w.held, x, m.now));
            if !session::short_of(x as int, t as int) {
                assert(f.next == k) by {
                    assert(film.times[f.next] >= scrub_cache::landing_bound(t as int));
                    if k < f.next {
                        assert(film.times[k] < scrub_cache::landing_bound(t as int));
                    }
                }
            }
        },
        Event::Again => {
            let r = session::received(c, w.held, since, pump::Received::Again, 0, m.now);
            assert(tt == r);
            if c.pump.demux_eof && c.pump.eof_sent {
                let noted = Control {
                    profile: session::decode_noted(c.profile, session::span(m.now, since), false),
                    ..c
                };
                assert(tt == session::drained(noted, w.held));
                assert(film.short_before(film.times.len() as int, t as int));
            }
        },
        _ => {
            let noted = Control {
                profile: session::decode_noted(c.profile, session::span(m.now, since), false),
                ..c
            };
            assert(tt == session::drained(noted, w.held));
            assert(film.short_before(film.times.len() as int, t as int));
        },
    }
}

/// One undisturbed moment of a scrub.
proof fn lemma_scrub_moment(
    film: Film,
    w: Showing,
    m: Moment,
    t: i64,
    k: int,
    size: (u32, u32),
    done: bool,
)
    requires
        scrubbing(film, w, t, k, size, done),
        true_to(film, w, m),
        undisturbed(m),
    ensures
        scrub_goes_on(film, w, m, t, k, size, done),
{
    every_moment_keeps_in_step(film, w, m);
    let c = w.control;
    let f = w.feed;
    let tt = turn(film, w, m);
    match c.phase {
        Phase::Polling => lemma_scrub_acts(film, w, m, t, k, size, done),
        Phase::Receiving(_) => lemma_scrub_receives(film, w, m, t, k, size, done),
        Phase::Seeking(since) => {
            assert(tt == session::sought(c, w.held, since, m.now));
            lemma_passed_over(film, t as int, starts_at(c.shape), m.landed);
        },
        Phase::Recalling => {
            let x = session::time_of(c.shape, m.event->Decoded_0, m.event->Decoded_1);
            assert(tt == session::arrived(c, w.held, x, m.now));
        },
        Phase::Converting(x) => {
            assert(tt == session::emitting(
                c,
                w.held,
                film.frame_dur,
                x,
                m.event->Scaled_0@,
            ));
            assert(tt.doing->Emit_0.picture == film.picture(k, size));
        },
        Phase::Emitting(x) => {
            assert(tt == session::shown(c, w.held, x, m.now));
        },
        Phase::Serving(x) => {
            assert(tt == session::served(c, w.held, x, m.now));
        },
        _ => {},
    }
}

proof fn lemma_scrub_begins(film: Film, w: Showing, m: Moment, t: i64, k: int)
    requires
        in_step(film, w),
        true_to(film, w, m),
        m.event == Event::Command(PlayCommand::Scrub(t)),
        film.lands_on(t as int, k),
        film.answered_truly(w.held, t as int, k),
    ensures
        scrubbing(film, after(film, w, m), t, k, session::wanted_size(w.control), false),
        !(turn(film, w, m).doing is Emit),
        patience(film, after(film, w, m), false) < longest_move(film),
{
    every_moment_keeps_in_step(film, w, m);
    let cmd = PlayCommand::Scrub(t);
    let c = w.control;
    assert(turn(film, w, m) == session::commanded(c, w.held, cmd, m.now));
    if play_state::in_place(c.play.current_ns as int, t as int) {
        assert(film.short_before(w.feed.next, t as int)) by {
            assert forall|j: int| 0 <= j < w.feed.next implies #[trigger] film.times[j]
                < scrub_cache::landing_bound(t as int) by {
                assert(film.times[j] <= c.play.current_ns);
            }
        }
    }
}

/// What a run that begins with a scrub to `t` comes to.
proof fn lemma_scrub_run(film: Film, w: Showing, ms: Seq<Moment>, t: i64, k: int, n: nat)
    requires
        in_step(film, w),
        0 < n <= ms.len(),
        all_true(film, w, ms, n),
        ms[0].event == Event::Command(PlayCommand::Scrub(t)),
        forall|i: int| 0 < i < n ==> undisturbed(#[trigger] ms[i]),
        film.lands_on(t as int, k),
        film.answered_truly(w.held, t as int, k),
    ensures
        ({
            let size = session::wanted_size(w.control);
            let out = shown(film, w, ms, n);
            let d = run(film, w, ms, n);
            &&& out.len() == 0 || out == seq![film.picture(k, size)]
            &&& scrubbing(film, d, t, k, size, out.len() > 0)
            &&& n + patience(film, d, out.len() > 0) <= longest_move(film)
        }),
    decreases n,
{
    let m = (n - 1) as nat;
    let size = session::wanted_size(w.control);
    assert(true_to(film, run(film, w, ms, m), ms[m as int]));
    if m == 0 {
        assert(run(film, w, ms, 0) == w);
        assert(shown(film, w, ms, 0) == Seq::<Picture>::empty());
        lemma_scrub_begins(film, w, ms[0], t, k);
    } else {
        lemma_scrub_run(film, w, ms, t, k, m);
        let before = shown(film, w, ms, m);
        let d = run(film, w, ms, m);
        assert(undisturbed(ms[m as int]));
        lemma_scrub_moment(film, d, ms[m as int], t, k, size, before.len() > 0);
        if turn(film, d, ms[m as int]).doing is Emit {
            assert(before.len() == 0);
            assert(before.push(film.picture(k, size)) =~= seq![film.picture(k, size)]);
        }
    }
}

/// Whether a run that begins at `w` hands on the frame `k` and nothing else, and
/// comes to hold on it: whatever it has come to, it has shown that frame once or
/// is still on its way there, it can only be on its way for so long, and once the
/// session waits for a command the frame has been shown and is being held.
pub open spec fn shows_one_and_holds(film: Film, w: Showing, ms: Seq<Moment>, k: int) -> bool {
    let p = film.picture(k, session::wanted_size(w.control));
    let out = shown(film, w, ms, ms.len());
    let c = run(film, w, ms, ms.len()).control;
    &&& out.len() == 0 || out == seq![p]
    &&& c.phase is Blocking ==> out == seq![p] && c.play.paused && c.play.shown_ns == Some(
        p.time_ns,
    )
    &&& !(c.phase is Over)
    &&& ms.len() <= longest_move(film)
    &&& in_step(film, run(film, w, ms, ms.len()))
}

/// A run of what happens with the clip, which begins with a scrub to `t` and in
/// which no other command comes and nothing fails.
pub open spec fn scrub_alone(film: Film, w: Showing, ms: Seq<Moment>, t: i64) -> bool {
    &&& in_step(film, w)
    &&& ms.len() > 0
    &&& all_true(film, w, ms, ms.len())
    &&& ms[0].event == Event::Command(PlayCommand::Scrub(t))
    &&& forall|i: int| 0 < i < ms.len() ==> undisturbed(#[trigger] ms[i])
}

/// Whether the frames held cannot mislead a scrub to `t`, which lands on `k`: at
/// a constant frame rate they never do, and at any other they do not where none
/// answers it, or `k` does.
pub open spec fn trusts_held(film: Film, w: Showing, t: i64, k: int) -> bool {
    film.even() || film.answered_truly(w.held, t as int, k)
}

proof fn lemma_scrub_lands(film: Film, w: Showing, ms: Seq<Moment>, t: i64, k: int)
    requires
        scrub_alone(film, w, ms, t),
        film.lands_on(t as int, k),
        trusts_held(film, w, t, k),
    ensures
        shows_one_and_holds(film, w, ms, k),
{
    if film.even() {
        an_even_clip_is_answered_truly(film, w.held, w.control.out, t as int, k);
    }
    lemma_scrub_run(film, w, ms, t, k, ms.len());
}

/// A scrub shows the exact frame at its target and then holds on it. Whatever the
/// session was doing, wherever the decoder stands, whether the frame comes from
/// the decoder or from those held, and however long everything takes: exactly one
/// frame is handed on, it is the first of the clip whose time is not short of the
/// target, and nothing follows it until the next command.
///
/// It holds of any clip, even or not, as long as no other held frame answers the
/// target, which at a constant frame rate none does.
pub proof fn a_scrub_shows_exactly_the_frame_at_its_target(
    film: Film,
    w: Showing,
    ms: Seq<Moment>,
    t: i64,
    k: int,
)
    requires
        scrub_alone(film, w, ms, t),
        scrub_cache::decode_lands_on(film.times, t as int, k),
        trusts_held(film, w, t, k),
    ensures
        shows_one_and_holds(film, w, ms, k),
{
    lemma_scrub_lands(film, w, ms, t, k);
}

/// A scrub to the time of the frame on screen, or of any other frame of the clip,
/// shows that very frame, on a clip whose frames lie further apart than the
/// tolerance of a landing. The frame the decoder stands on is no exception.
pub proof fn a_scrub_to_a_frames_time_shows_that_frame(
    film: Film,
    w: Showing,
    ms: Seq<Moment>,
    k: int,
)
    requires
        0 <= k < film.times.len(),
        k > 0 ==> film.times[k] - film.times[k - 1] > clock::FRAME_EPS_NS,
        scrub_alone(film, w, ms, film.times[k] as i64),
        trusts_held(film, w, film.times[k] as i64, k),
    ensures
        shows_one_and_holds(film, w, ms, k),
{
    assert forall|j: int| 0 <= j < k implies #[trigger] film.times[j]
        < scrub_cache::landing_bound(film.times[k]) by {
        if j < k - 1 {
            assert(film.times[j] < film.times[k - 1]);
        }
    }
    a_scrub_shows_exactly_the_frame_at_its_target(film, w, ms, film.times[k] as i64, k);
}

/// Whether a command asks for another scale.
pub open spec fn rescales(m: Moment) -> bool {
    m.event matches Event::Command(cmd) && cmd is SetLongSide
}

/// Whether two states of a session ask for the same box.
spec fn same_box(a: Control, b: Control) -> bool {
    a.shape == b.shape && a.play.long_side == b.play.long_side
}

proof fn lemma_box_stays(film: Film, w: Showing, m: Moment)
    requires
        true_to(film, w, m),
        !rescales(m),
    ensures
        same_box(after(film, w, m).control, w.control),
{
    let c = w.control;
    let t = turn(film, w, m);
    match m.event {
        Event::Command(cmd) => {
            assert(t == session::commanded(c, w.held, cmd, m.now));
        },
        Event::Idle => match c.phase {
            Phase::Pacing(at) => {},
            _ => {
                assert(t == session::acted(c, w.held, film.frame_dur, m.now));
                let (r, left, report) = session::resized(c, w.held);
                assert(same_box(r, c));
                assert(same_box(session::profiled(r), c));
            },
        },
        Event::Decoded(pts, best) => {
            let at = session::time_of(c.shape, pts, best);
            match c.phase {
                Phase::Receiving(since) => {
                    assert(t == session::received(
                        c,
                        w.held,
                        since,
                        pump::Received::Frame,
                        at,
                        m.now,
                    ));
                },
                _ => {
                    assert(t == session::arrived(c, w.held, at, m.now));
                },
            }
        },
        _ => {},
    }
}

proof fn lemma_run_keeps_box(film: Film, w: Showing, ms: Seq<Moment>, n: nat)
    requires
        n <= ms.len(),
        all_true(film, w, ms, n),
        forall|i: int| 0 <= i < n ==> !rescales(#[trigger] ms[i]),
    ensures
        same_box(run(film, w, ms, n).control, w.control),
    decreases n,
{
    if n > 0 {
        let m = (n - 1) as nat;
        lemma_run_keeps_box(film, w, ms, m);
        let d = run(film, w, ms, m);
        assert(true_to(film, d, ms[m as int]));
        assert(!rescales(ms[m as int]));
        lemma_box_stays(film, d, ms[m as int]);
    }
}

/// A position always shows the same frame: of two scrubs to it, with anything in
/// between but a change of scale, other scrubs among it, both hand on the same
/// picture, to the pixel, whether it is decoded or was held. Repeating a scrub
/// never steps off the frame it showed, nor does one past the end.
pub proof fn a_position_always_shows_the_same_picture(
    film: Film,
    w: Showing,
    between: Seq<Moment>,
    first: Seq<Moment>,
    second: Seq<Moment>,
    t: i64,
    k: int,
)
    requires
        scrub_alone(film, w, first, t),
        all_true(film, w, between, between.len()),
        forall|i: int| 0 <= i < between.len() ==> !rescales(#[trigger] between[i]),
        scrub_alone(film, run(film, w, between, between.len()), second, t),
        run(film, w, first, first.len()).control.phase is Blocking,
        run(film, run(film, w, between, between.len()), second, second.len()).control.phase
            is Blocking,
        film.lands_on(t as int, k),
        trusts_held(film, w, t, k),
        trusts_held(film, run(film, w, between, between.len()), t, k),
    ensures
        shown(film, run(film, w, between, between.len()), second, second.len()) == shown(
            film,
            w,
            first,
            first.len(),
        ),
        shown(film, w, first, first.len()).len() == 1,
{
    let v = run(film, w, between, between.len());
    lemma_run_keeps_box(film, w, between, between.len());
    lemma_scrub_lands(film, w, first, t, k);
    lemma_scrub_lands(film, v, second, t, k);
}

/// No held frame answers a target past the end.
proof fn lemma_nothing_answers(film: Film, w: Showing, t: int, k: int)
    requires
        in_step(film, w),
        film.short_before(film.times.len() as int, t),
    ensures
        film.answered_truly(w.held, t, k),
{
    assert forall|i: int| !(#[trigger] scrub_cache::serves(w.held, film.frame_dur, t, i)) by {
        if scrub_cache::serves(w.held, film.frame_dur, t, i) {
            assert(film.has(w.held[i], w.control.out));
        }
    }
}

/// A scrub past the end lands on the last frame and holds on it, whether the
/// decoder has that frame still to give or stands at the end already: exactly
/// that frame is handed on, the session goes on waiting for a command, and a
/// scrub back into the clip then shows the frame at its own target.
pub proof fn a_scrub_past_the_end_lands_on_the_last_frame(
    film: Film,
    w: Showing,
    ms: Seq<Moment>,
    t: i64,
    later: Seq<Moment>,
    u: i64,
    k: int,
)
    requires
        scrub_alone(film, w, ms, t),
        film.times.last() < scrub_cache::landing_bound(t as int),
    ensures
        shows_one_and_holds(film, w, ms, film.times.len() - 1),
        scrub_alone(film, run(film, w, ms, ms.len()), later, u) && film.lands_on(u as int, k)
            && trusts_held(film, run(film, w, ms, ms.len()), u, k) ==> shows_one_and_holds(
            film,
            run(film, w, ms, ms.len()),
            later,
            k,
        ),
{
    let last = film.times.len() - 1;
    assert(film.short_before(film.times.len() as int, t as int)) by {
        assert forall|j: int| 0 <= j < film.times.len() implies #[trigger] film.times[j]
            < scrub_cache::landing_bound(t as int) by {
            assert(film.times[j] <= film.times[last]);
        }
    }
    lemma_nothing_answers(film, w, t as int, last);
    lemma_scrub_lands(film, w, ms, t, last);
    let v = run(film, w, ms, ms.len());
    if scrub_alone(film, v, later, u) && film.lands_on(u as int, k) && trusts_held(film, v, u, k) {
        lemma_scrub_lands(film, v, later, u, k);
    }
}

/// A session that plays on, with nothing left to skip, having shown the frames
/// from number `a` on that it was given.
spec fn playing(film: Film, w: Showing, a: int, size: (u32, u32), out: Seq<Picture>) -> bool {
    let c = w.control;
    let f = w.feed;
    &&& in_step(film, w)
    &&& 0 <= a <= f.next
    &&& !c.play.hold_after
    &&& c.play.skip_until is None
    &&& c.play.pending_seek is None
    &&& c.play.move_start is None
    &&& c.out == size
    &&& session::wanted_size(c) == size
    &&& c.play.paused ==> f.next == film.times.len()
    &&& match c.phase {
        Phase::Polling
        | Phase::Receiving(_)
        | Phase::Flushing(_)
        | Phase::Reading(_)
        | Phase::Blocking => out == film.stretch(a, f.next, size),
        Phase::Emitting(t) => f.hand == f.next - 1 && out == film.stretch(a, f.next, size),
        Phase::Pacing(_) | Phase::Converting(_) => a < f.next && f.hand == f.next - 1 && out
            == film.stretch(a, f.next - 1, size),
        _ => false,
    }
}

proof fn lemma_playing_moment(
    film: Film,
    w: Showing,
    m: Moment,
    a: int,
    size: (u32, u32),
    out: Seq<Picture>,
)
    requires
        playing(film, w, a, size, out),
        true_to(film, w, m),
        undisturbed(m),
    ensures
        playing(
            film,
            after(film, w, m),
            a,
            size,
            match turn(film, w, m).doing {
                Doing::Emit(f) => out.push(f.picture),
                _ => out,
            },
        ),
{
    every_moment_keeps_in_step(film, w, m);
    let c = w.control;
    let f = w.feed;
    let tt = turn(film, w, m);
    match c.phase {
        Phase::Polling => {
            assert(tt == session::acted(c, w.held, film.frame_dur, m.now));
            assert(session::resized(c, w.held) == (c, w.held, None::<session::Report>));
            assert(session::profiled(c) == c);
            assert(play_state::destination(c.play) is None);
        },
        Phase::Receiving(since) => match m.event {
            Event::Decoded(pts, best) => {
                let x = session::time_of(c.shape, pts, best);
                let noted = Control {
                    profile: session::decode_noted(c.profile, session::span(m.now, since), true),
                    ..c
                };
                assert(tt == session::arrived(noted, w.held, x, m.now));
            },
            Event::Again => {
                assert(tt == session::received(
                    c,
                    w.held,
                    since,
                    pump::Received::Again,
                    0,
                    m.now,
                ));
            },
            _ => {
                let noted = Control {
                    profile: session::decode_noted(c.profile, session::span(m.now, since), false),
                    ..c
                };
                assert(tt == session::drained(noted, w.held));
            },
        },
        Phase::Converting(x) => {
            assert(tt == session::emitting(
                c,
                w.held,
                film.frame_dur,
                x,
                m.event->Scaled_0@,
            ));
            let p = film.picture(f.hand, size);
            assert(tt.doing->Emit_0.picture == p);
            assert(film.stretch(a, f.next - 1, size).push(p) =~= film.stretch(a, f.next, size));
        },
        Phase::Emitting(x) => {
            assert(tt == session::shown(c, w.held, x, m.now));
        },
        _ => {},
    }
}

proof fn lemma_playing_run(film: Film, w: Showing, ms: Seq<Moment>, a: int, n: nat)
    requires
        playing(film, w, a, w.control.out, Seq::empty()),
        n <= ms.len(),
        all_true(film, w, ms, n),
        forall|i: int| 0 <= i < n ==> undisturbed(#[trigger] ms[i]),
    ensures
        playing(film, run(film, w, ms, n), a, w.control.out, shown(film, w, ms, n)),
    decreases n,
{
    if n > 0 {
        let m = (n - 1) as nat;
        lemma_playing_run(film, w, ms, a, m);
        let d = run(film, w, ms, m);
        assert(true_to(film, d, ms[m as int]));
        assert(undisturbed(ms[m as int]));
        lemma_playing_moment(
            film,
            d,
            ms[m as int],
            a,
            w.control.out,
            shown(film, w, ms, m),
        );
    }
}

/// Playing shows every frame and ends on the last: with no command, the frames
/// handed on are those of the clip from where the decoder stands, in order and
/// with none left out, and once the session waits for a command the last of the
/// clip has been shown and is being held. The session does not end there, and a
/// scrub back into the clip then shows the frame at its target.
pub proof fn playing_through_holds_on_the_last_frame(
    film: Film,
    w: Showing,
    ms: Seq<Moment>,
    later: Seq<Moment>,
    u: i64,
    k: int,
)
    requires
        in_step(film, w),
        w.control.phase is Receiving,
        w.control.play.skip_until is None,
        !w.control.play.hold_after,
        all_true(film, w, ms, ms.len()),
        forall|i: int| 0 <= i < ms.len() ==> undisturbed(#[trigger] ms[i]),
    ensures
        ({
            let out = shown(film, w, ms, ms.len());
            let c = run(film, w, ms, ms.len()).control;
            let a = w.feed.next;
            &&& a + out.len() <= film.times.len()
            &&& out == film.stretch(a, a + out.len(), w.control.out)
            &&& c.phase is Blocking ==> c.play.paused && out == film.stretch(
                a,
                film.times.len() as int,
                w.control.out,
            )
            &&& c.phase is Blocking && a < film.times.len() ==> out.last() == film.picture(
                film.times.len() - 1,
                w.control.out,
            )
            &&& !(c.phase is Over)
        }),
        scrub_alone(film, run(film, w, ms, ms.len()), later, u) && film.lands_on(u as int, k)
            && trusts_held(film, run(film, w, ms, ms.len()), u, k) ==> shows_one_and_holds(
            film,
            run(film, w, ms, ms.len()),
            later,
            k,
        ),
{
    let a = w.feed.next;
    assert(film.stretch(a, a, w.control.out) =~= Seq::<Picture>::empty());
    lemma_playing_run(film, w, ms, a, ms.len());
    let v = run(film, w, ms, ms.len());
    if scrub_alone(film, v, later, u) && film.lands_on(u as int, k) && trusts_held(film, v, u, k) {
        lemma_scrub_lands(film, v, later, u, k);
    }
}

/// A session on its way to play from frame `k`, which a precise move to `t` lands
/// on, and which has not come yet.
spec fn bound_to_play(film: Film, w: Showing, t: i64, k: int, size: (u32, u32)) -> bool {
    let c = w.control;
    let f = w.feed;
    let coming = film.short_before(f.next, t as int) && (f.next < film.times.len() || c.skipped
        || session::short_of(c.play.current_ns as int, t as int));
    &&& in_step(film, w)
    &&& film.lands_on(t as int, k)
    &&& session::wanted_size(c) == size
    &&& !c.play.hold_after
    &&& !c.play.paused
    &&& match c.phase {
        Phase::Polling => match c.play.pending_seek {
            Some(p) => p == (t, true) && c.play.skip_until is None,
            None => c.play.skip_until == Some(t) && coming,
        },
        Phase::Seeking(_) => c.play.skip_until == Some(t) && c.play.current_ns == t,
        Phase::Receiving(_) | Phase::Flushing(_) | Phase::Reading(_) | Phase::Buffering => {
            c.play.skip_until == Some(t) && coming
        },
        _ => false,
    }
}

/// What a move to play from `t` has come to, having shown `out`: it is on its
/// way, plays, or has landed on the last frame and holds.
spec fn play_stage(
    film: Film,
    w: Showing,
    t: i64,
    k: int,
    size: (u32, u32),
    out: Seq<Picture>,
) -> bool {
    ||| bound_to_play(film, w, t, k, size) && out.len() == 0
    ||| playing(film, w, k, size, out) && 0 <= k < film.times.len() && k < w.feed.next
    ||| {
        &&& k == film.times.len() - 1
        &&& out.len() == 0 || out == seq![film.picture(k, size)]
        &&& scrubbing(film, w, t, k, size, out.len() > 0)
    }
}

proof fn lemma_play_receives(
    film: Film,
    w: Showing,
    m: Moment,
    t: i64,
    k: int,
    size: (u32, u32),
)
    requires
        bound_to_play(film, w, t, k, size),
        w.control.phase is Receiving,
        true_to(film, w, m),
        undisturbed(m),
    ensures
        !(turn(film, w, m).doing is Emit),
        play_stage(film, after(film, w, m), t, k, size, Seq::empty()),
{
    every_moment_keeps_in_step(film, w, m);
    let c = w.control;
    let f = w.feed;
    let n = after(film, w, m);
    let tt = turn(film, w, m);
    let since = c.phase->Receiving_0;
    let last = film.times.len() - 1;
    match m.event {
        Event::Decoded(pts, best) => {
            let x = session::time_of(c.shape, pts, best);
            let noted = Control {
                profile: session::decode_noted(c.profile, session::span(m.now, since), true),
                ..c
            };
            assert(tt == session::arrived(noted, w.held, x, m.now));
            if !session::short_of(x as int, t as int) {
                assert(f.next == k) by {
                    assert(film.times[f.next] >= scrub_cache::landing_bound(t as int));
                    if k < f.next {
                        assert(film.times[k] < scrub_cache::landing_bound(t as int));
                    }
                }
                assert(film.stretch(k, k, size) =~= Seq::<Picture>::empty());
                assert(playing(film, n, k, size, Seq::empty()));
            } else {
                assert(bound_to_play(film, n, t, k, size));
            }
        },
        Event::Again if !(c.pump.demux_eof && c.pump.eof_sent) => {
            let r = session::received(c, w.held, since, pump::Received::Again, 0, m.now);
            assert(tt == r);
            assert(bound_to_play(film, n, t, k, size));
        },
        _ => {
            let noted = Control {
                profile: session::decode_noted(c.profile, session::span(m.now, since), false),
                ..c
            };
            assert(tt == session::drained(noted, w.held));
            assert(film.short_before(film.times.len() as int, t as int));
            assert(k == last) by {
                if k < last {
                    assert(film.times[k] < scrub_cache::landing_bound(t as int));
                }
            }
            if c.skipped {
                lemma_nothing_answers(film, n, t as int, k);
                assert(scrubbing(film, n, t, k, size, false));
            } else {
                assert(bound_to_play(film, n, t, k, size));
            }
        },
    }
}

proof fn lemma_play_moment(
    film: Film,
    w: Showing,
    m: Moment,
    t: i64,
    k: int,
    size: (u32, u32),
)
    requires
        bound_to_play(film, w, t, k, size),
        true_to(film, w, m),
        undisturbed(m),
    ensures
        !(turn(film, w, m).doing is Emit),
        play_stage(film, after(film, w, m), t, k, size, Seq::empty()),
{
    every_moment_keeps_in_step(film, w, m);
    let c = w.control;
    let n = after(film, w, m);
    let tt = turn(film, w, m);
    match c.phase {
        Phase::Polling => {
            assert(tt == session::acted(c, w.held, film.frame_dur, m.now));
            let (r, left, report) = session::resized(c, w.held);
            let p = session::profiled(r);
            assert(session::hit(p, left, film.frame_dur) is None);
            assert(bound_to_play(film, n, t, k, size));
        },
        Phase::Receiving(_) => lemma_play_receives(film, w, m, t, k, size),
        Phase::Seeking(since) => {
            assert(tt == session::sought(c, w.held, since, m.now));
            lemma_passed_over(film, t as int, starts_at(c.shape), m.landed);
            assert(bound_to_play(film, n, t, k, size));
        },
        _ => {
            assert(bound_to_play(film, n, t, k, size));
        },
    }
}

proof fn lemma_play_run(film: Film, w: Showing, ms: Seq<Moment>, t: i64, k: int, n: nat)
    requires
        in_step(film, w),
        0 < n <= ms.len(),
        all_true(film, w, ms, n),
        ms[0].event == Event::Command(PlayCommand::Play(t)),
        forall|i: int| 0 < i < n ==> undisturbed(#[trigger] ms[i]),
        film.lands_on(t as int, k),
    ensures
        play_stage(
            film,
            run(film, w, ms, n),
            t,
            k,
            session::wanted_size(w.control),
            shown(film, w, ms, n),
        ),
    decreases n,
{
    let m = (n - 1) as nat;
    let size = session::wanted_size(w.control);
    let d = run(film, w, ms, m);
    let out = shown(film, w, ms, m);
    assert(true_to(film, d, ms[m as int]));
    if m == 0 {
        assert(d == w);
        assert(out == Seq::<Picture>::empty());
        every_moment_keeps_in_step(film, w, ms[0]);
        let c = w.control;
        assert(turn(film, w, ms[0]) == session::commanded(
            c,
            w.held,
            PlayCommand::Play(t),
            ms[0].now,
        ));
        if play_state::in_place(c.play.current_ns as int, t as int) {
            assert forall|j: int| 0 <= j < w.feed.next implies #[trigger] film.times[j]
                < scrub_cache::landing_bound(t as int) by {
                assert(film.times[j] <= c.play.current_ns);
            }
        }
        assert(bound_to_play(film, after(film, w, ms[0]), t, k, size));
    } else {
        lemma_play_run(film, w, ms, t, k, m);
        assert(undisturbed(ms[m as int]));
        if bound_to_play(film, d, t, k, size) && out.len() == 0 {
            assert(out =~= Seq::<Picture>::empty());
            lemma_play_moment(film, d, ms[m as int], t, k, size);
        } else if playing(film, d, k, size, out) && k < d.feed.next {
            lemma_playing_moment(film, d, ms[m as int], k, size, out);
        } else {
            lemma_scrub_moment(film, d, ms[m as int], t, k, size, out.len() > 0);
            if turn(film, d, ms[m as int]).doing is Emit {
                assert(out =~= Seq::<Picture>::empty());
                assert(out.push(film.picture(k, size)) =~= seq![film.picture(k, size)]);
            }
        }
    }
}

/// A play goes to the exact frame at its target and on from there: with no other
/// command, what is handed on are the frames of the clip from the first that is
/// not short of the target, in order and with none left out, and once the session
/// waits for a command the last of the clip has been shown and is being held. One
/// past the end shows the last frame.
pub proof fn a_play_shows_the_clip_from_its_target_on(
    film: Film,
    w: Showing,
    ms: Seq<Moment>,
    t: i64,
    k: int,
)
    requires
        in_step(film, w),
        ms.len() > 0,
        all_true(film, w, ms, ms.len()),
        ms[0].event == Event::Command(PlayCommand::Play(t)),
        forall|i: int| 0 < i < ms.len() ==> undisturbed(#[trigger] ms[i]),
        film.lands_on(t as int, k),
    ensures
        ({
            let size = session::wanted_size(w.control);
            let out = shown(film, w, ms, ms.len());
            let c = run(film, w, ms, ms.len()).control;
            &&& k + out.len() <= film.times.len()
            &&& out == film.stretch(k, k + out.len(), size)
            &&& c.phase is Blocking ==> c.play.paused && out == film.stretch(
                k,
                film.times.len() as int,
                size,
            )
            &&& !(c.phase is Over)
        }),
{
    lemma_play_run(film, w, ms, t, k, ms.len());
    let size = session::wanted_size(w.control);
    assert(film.stretch(k, k, size) =~= Seq::<Picture>::empty());
    assert(film.stretch(k, k + 1, size) =~= seq![film.picture(k, size)]);
}

} // verus!
