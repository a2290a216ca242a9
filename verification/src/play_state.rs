//! What the live player is asked to do, and the state those commands leave it
//! in.

use vstd::prelude::*;

use crate::clock::{FRAME_EPS_NS, NS_PER_S};
use crate::scrub_cache;

verus! {

/// A forward move whose target is within this much of the current position
/// decodes forward in place instead of seeking back to a keyframe and decoding
/// the whole group again.
pub const FORWARD_SCRUB_LIMIT_NS: i64 = 2_000_000_000;

/// A command to the live player. One decoder stays open for the whole session
/// and reacts to these, so seeking is a flush rather than a fresh decode.
#[derive(Clone, Copy, Debug, PartialEq, Eq, Structural)]
pub enum PlayCommand {
    /// Seek to this media time, show exactly that frame, then hold on it.
    Scrub(i64),
    /// Seek to this media time and play forward from there in real time.
    Play(i64),
    /// Hold on the current frame.
    Pause,
    /// Resume playing from the current position.
    Resume,
    /// Scale later frames to fit a box whose long side is this many pixels,
    /// capped at the source's own long side.
    SetLongSide(u32),
    /// End playback.
    Stop,
}

/// The state the commands act on.
#[derive(Clone, Copy, Debug, PartialEq, Eq)]
pub struct PlayState {
    /// Holding on the frame on screen.
    pub paused: bool,
    /// Skip decoded frames earlier than this media time.
    pub skip_until: Option<i64>,
    /// Hold on the next frame shown.
    pub hold_after: bool,
    /// Wall and media time that pacing counts from; reset on every move.
    pub anchor: Option<(u64, i64)>,
    /// A seek to apply before decoding resumes, and whether it goes on to the
    /// exact frame rather than opening at the keyframe.
    pub pending_seek: Option<(i64, bool)>,
    /// Where the decoder is: the media time of the frame decoded last, or the one
    /// a seek since then went to.
    pub current_ns: i64,
    /// Media time of the frame on screen. A scrub over held ground shows frames
    /// without moving the decoder, so the two may differ.
    pub shown_ns: Option<i64>,
    /// When the move in flight began.
    pub move_start: Option<u64>,
    /// Long side of the box frames are scaled into.
    pub long_side: u32,
}

/// Whether a move from `current` to `t` is a short hop forward: the decoder is
/// still short of `t`, so that the frame at `t` is yet to come. A frame the
/// decoder stands on already is not reached by decoding on.
pub open spec fn in_place(current: int, t: int) -> bool {
    current < scrub_cache::landing_bound(t) && t - current <= FORWARD_SCRUB_LIMIT_NS
}

/// The state once a move to `t` has begun at `now`, holding on the frame it
/// lands on when `hold`.
pub open spec fn moved(s: PlayState, t: i64, hold: bool, now_ns: u64) -> PlayState {
    let hop = in_place(s.current_ns as int, t as int);
    PlayState {
        skip_until: if hop {
            Some(t)
        } else {
            None
        },
        pending_seek: if hop {
            None
        } else {
            Some((t, true))
        },
        hold_after: hold,
        paused: false,
        anchor: None,
        move_start: Some(now_ns),
        ..s
    }
}

/// The media time of the frame being held: the one on screen, or where the
/// decoder is while none has been shown.
pub open spec fn held_time(s: PlayState) -> i64 {
    match s.shown_ns {
        Some(t) => t,
        None => s.current_ns,
    }
}

/// The state once a new long side has been asked for. A held frame is landed on
/// again at the new scale; nothing else would ever decode it again.
pub open spec fn rescaled(s: PlayState, long: u32) -> PlayState {
    if long == s.long_side {
        s
    } else if s.paused {
        PlayState {
            long_side: long,
            pending_seek: Some((held_time(s), true)),
            skip_until: None,
            hold_after: true,
            paused: false,
            anchor: None,
            ..s
        }
    } else {
        PlayState { long_side: long, ..s }
    }
}

/// The state once `cmd`, received at `now`, has been folded in. `Stop` leaves
/// the state alone: it ends playback instead.
pub open spec fn folded(s: PlayState, cmd: PlayCommand, now_ns: u64) -> PlayState {
    match cmd {
        PlayCommand::Scrub(t) => moved(s, t, true, now_ns),
        PlayCommand::Play(t) => moved(s, t, false, now_ns),
        PlayCommand::Pause => PlayState { paused: true, ..s },
        PlayCommand::Resume => PlayState { paused: false, anchor: None, ..s },
        PlayCommand::SetLongSide(long) => rescaled(s, long),
        PlayCommand::Stop => s,
    }
}

/// The media time the move in flight is headed for, if there is one.
pub open spec fn destination(s: PlayState) -> Option<i64> {
    match s.skip_until {
        Some(t) => Some(t),
        None => match s.pending_seek {
            Some((t, _)) => Some(t),
            None => None,
        },
    }
}

impl PlayState {
    /// The state of a player that opens at the keyframe before `from_ns`.
    pub fn new(from_ns: i64, long_side: u32) -> (s: PlayState)
        ensures
            s == (PlayState {
                paused: false,
                skip_until: None,
                hold_after: false,
                anchor: None,
                pending_seek: Some((from_ns, false)),
                current_ns: from_ns,
                shown_ns: None,
                move_start: None,
                long_side,
            }),
    {
        PlayState {
            paused: false,
            skip_until: None,
            hold_after: false,
            anchor: None,
            pending_seek: Some((from_ns, false)),
            current_ns: from_ns,
            shown_ns: None,
            move_start: None,
            long_side,
        }
    }

    /// Fold a command into the state. Returns `false` on `Stop`.
    pub fn apply(&mut self, cmd: PlayCommand, now_ns: u64) -> (go_on: bool)
        ensures
            *final(self) == folded(*old(self), cmd, now_ns),
            go_on == (cmd != PlayCommand::Stop),
    {
        match cmd {
            PlayCommand::Scrub(t) => self.start_move(t, true, now_ns),
            PlayCommand::Play(t) => self.start_move(t, false, now_ns),
            PlayCommand::Pause => {
                self.paused = true;
            },
            PlayCommand::Resume => {
                self.paused = false;
                self.anchor = None;
            },
            PlayCommand::SetLongSide(long) => self.set_long_side(long),
            PlayCommand::Stop => {
                return false;
            },
        }
        true
    }

    /// Take a new output scale, and land on the held frame again when there is
    /// one. That is a full seek to the frame on screen rather than a move from
    /// where the decoder stands, which would hand back the next frame.
    pub fn set_long_side(&mut self, long: u32)
        ensures
            *final(self) == rescaled(*old(self), long),
    {
        if long == self.long_side {
            return ;
        }
        self.long_side = long;
        if self.paused {
            let held: i64 = match self.shown_ns {
                Some(t) => t,
                None => self.current_ns,
            };
            self.pending_seek = Some((held, true));
            self.skip_until = None;
            self.hold_after = true;
            self.paused = false;
            self.anchor = None;
        }
    }

    /// Begin a precise move to `t`, holding on the landed frame when `hold`. A
    /// short hop forward decodes in place; anything else seeks to the keyframe
    /// before the target, a move to the very frame the decoder stands on too.
    pub fn start_move(&mut self, t: i64, hold: bool, now_ns: u64)
        ensures
            *final(self) == moved(*old(self), t, hold, now_ns),
    {
        let ahead: i128 = t as i128 - self.current_ns as i128;
        let hop: bool = ahead > FRAME_EPS_NS as i128 && ahead <= FORWARD_SCRUB_LIMIT_NS as i128;
        if hop {
            self.skip_until = Some(t);
            self.pending_seek = None;
        } else {
            self.pending_seek = Some((t, true));
            self.skip_until = None;
        }
        self.hold_after = hold;
        self.paused = false;
        self.anchor = None;
        self.move_start = Some(now_ns);
    }

    /// The media time the move in flight is headed for.
    pub fn target(&self) -> (t: Option<i64>)
        ensures
            t == destination(*self),
    {
        match self.skip_until {
            Some(t) => Some(t),
            None => match self.pending_seek {
                Some((t, _)) => Some(t),
                None => None,
            },
        }
    }
}

/// The state once a whole queue of commands has been folded in, oldest first.
pub open spec fn folded_all(s: PlayState, cmds: Seq<(PlayCommand, u64)>) -> PlayState
    decreases cmds.len(),
{
    if cmds.len() == 0 {
        s
    } else {
        folded(folded_all(s, cmds.drop_last()), cmds.last().0, cmds.last().1)
    }
}

/// Whether a command moves the player to another position.
pub open spec fn is_move(cmd: PlayCommand) -> bool {
    cmd is Scrub || cmd is Play
}

/// Of a queue that ends in a move, only that move's intent is left: the state is
/// the one it would have left on its own, at the last long side asked for.
pub proof fn the_last_move_wins(
    s: PlayState,
    cmds: Seq<(PlayCommand, u64)>,
    cmd: PlayCommand,
    now_ns: u64,
)
    requires
        is_move(cmd),
    ensures
        folded_all(s, cmds.push((cmd, now_ns))) == (PlayState {
            long_side: folded_all(s, cmds).long_side,
            ..folded(s, cmd, now_ns)
        }),
{
    assert(cmds.push((cmd, now_ns)).drop_last() =~= cmds);
    lemma_folding_moves_nothing(s, cmds);
}

/// Commands say where to go; they do not go there.
proof fn lemma_folding_moves_nothing(s: PlayState, cmds: Seq<(PlayCommand, u64)>)
    ensures
        folded_all(s, cmds).current_ns == s.current_ns,
        folded_all(s, cmds).shown_ns == s.shown_ns,
    decreases cmds.len(),
{
    if cmds.len() > 0 {
        lemma_folding_moves_nothing(s, cmds.drop_last());
    }
}

/// A move ends up either seeking or skipping in place, never both, and its
/// destination is what was asked for.
pub proof fn a_move_has_one_destination(s: PlayState, t: i64, hold: bool, now_ns: u64)
    ensures
        destination(moved(s, t, hold, now_ns)) == Some(t),
        moved(s, t, hold, now_ns).skip_until is Some != moved(
            s,
            t,
            hold,
            now_ns,
        ).pending_seek is Some,
        moved(s, t, hold, now_ns).skip_until is Some <==> s.current_ns + FRAME_EPS_NS < t
            <= s.current_ns + 2 * NS_PER_S,
{
}

/// A new long side on a held frame heads for that very frame, whatever the
/// decoder has moved on to; while playing it changes nothing else.
pub proof fn a_rescale_returns_to_the_held_frame(s: PlayState, long: u32, shown: i64)
    requires
        long != s.long_side,
        s.shown_ns == Some(shown),
    ensures
        s.paused ==> destination(rescaled(s, long)) == Some(shown) && rescaled(s, long).hold_after
            && rescaled(s, long).pending_seek == Some((shown, true)),
        !s.paused ==> rescaled(s, long) == (PlayState { long_side: long, ..s }),
{
}

/// A move decodes on in place when its target lies more than a millisecond ahead
/// of the decoder and no more than two seconds, and seeks otherwise. Holding on
/// what it lands on is the difference between scrubbing and playing; either way
/// it is no longer paused, paces itself anew, and leaves the frame on screen, the
/// decoder and the scale where they are.
pub proof fn a_move_starts_over_from_where_it_goes(s: PlayState, t: i64, now_ns: u64)
    ensures
        ({
            let a = folded(s, PlayCommand::Scrub(t), now_ns);
            let b = folded(s, PlayCommand::Play(t), now_ns);
            let ahead = t - s.current_ns;
            &&& a.hold_after && !b.hold_after
            &&& b == (PlayState { hold_after: false, ..a })
            &&& !a.paused
            &&& a.anchor is None
            &&& a.move_start == Some(now_ns)
            &&& 1_000_000 < ahead <= 2_000_000_000 ==> a.skip_until == Some(t)
                && a.pending_seek is None
            &&& !(1_000_000 < ahead <= 2_000_000_000) ==> a.pending_seek == Some((t, true))
                && a.skip_until is None
            &&& (a.current_ns, a.shown_ns, a.long_side) == (s.current_ns, s.shown_ns, s.long_side)
        }),
{
}

/// Pausing holds and changes nothing else; resuming takes the hold off and paces
/// anew, and changes nothing else; the scale already in use changes nothing, nor
/// does the end of playback.
pub proof fn pausing_and_resuming_touch_nothing_else(s: PlayState, now_ns: u64)
    ensures
        folded(s, PlayCommand::Pause, now_ns).paused,
        folded(s, PlayCommand::Pause, now_ns) == (PlayState {
            paused: folded(s, PlayCommand::Pause, now_ns).paused,
            ..s
        }),
        !folded(s, PlayCommand::Resume, now_ns).paused,
        folded(s, PlayCommand::Resume, now_ns).anchor is None,
        folded(s, PlayCommand::Resume, now_ns) == (PlayState {
            paused: folded(s, PlayCommand::Resume, now_ns).paused,
            anchor: folded(s, PlayCommand::Resume, now_ns).anchor,
            ..s
        }),
        folded(s, PlayCommand::SetLongSide(s.long_side), now_ns) == s,
        folded(s, PlayCommand::Stop, now_ns) == s,
{
}

/// A new scale is taken at once, and a held frame is gone back to, to be held
/// again: the one on screen, or where the decoder is before there is one.
pub proof fn a_new_scale_lands_on_the_held_frame(s: PlayState, long: u32, now_ns: u64)
    requires
        long != s.long_side,
    ensures
        ({
            let a = folded(s, PlayCommand::SetLongSide(long), now_ns);
            &&& a.long_side == long
            &&& (a.current_ns, a.shown_ns, a.move_start) == (s.current_ns, s.shown_ns, s.move_start)
            &&& !a.paused
            &&& s.paused && s.shown_ns is Some ==> a.pending_seek == Some((s.shown_ns->0, true))
            &&& s.paused && s.shown_ns is None ==> a.pending_seek == Some((s.current_ns, true))
            &&& s.paused ==> a.hold_after && a.skip_until is None && a.anchor is None
            &&& !s.paused ==> (a.pending_seek, a.skip_until, a.hold_after, a.anchor) == (
                s.pending_seek,
                s.skip_until,
                s.hold_after,
                s.anchor,
            )
        }),
{
}

/// A move in flight is headed for what it skips to, or else for what it seeks.
pub proof fn a_move_is_headed_somewhere_while_in_flight(s: PlayState)
    ensures
        destination(s) is None <==> s.skip_until is None && s.pending_seek is None,
        s.skip_until is Some ==> destination(s) == s.skip_until,
        s.skip_until is None ==> (s.pending_seek matches Some((t, _)) ==> destination(s) == Some(t)),
{
}

} // verus!
