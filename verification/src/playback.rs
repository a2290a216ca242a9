//! The player as its user drives it: pausing, stepping with the keys, and
//! seeking with the bar. Each turns into a command to the live session.

use vstd::prelude::*;

use crate::clock;
use crate::grid_view;
use crate::play_state::PlayCommand;

verus! {

/// Smallest move of the cursor that triggers a new seek while dragging.
pub const SCRUB_MIN_STEP_NS: i64 = 50_000_000;

/// How far a step key nudges the position.
pub const SEEK_STEP_NS: i64 = 500_000_000;

/// How long a step key is held before it repeats.
pub const SEEK_REPEAT_DELAY_NS: i64 = 350_000_000;

/// How often it then repeats.
pub const SEEK_REPEAT_INTERVAL_NS: i64 = 120_000_000;

/// Active playback of the clip on screen.
#[derive(Clone, Copy, Debug, PartialEq, Eq)]
pub struct Player {
    /// Media time of the last shown frame.
    pub position_ns: i64,
    /// Size of the last shown frame, once there is one.
    pub frame: Option<(u32, u32)>,
    pub paused: bool,
    /// While the bar is being dragged, the time under the cursor.
    pub scrub: Option<i64>,
}

/// What is kept of playback between repaints.
#[derive(Clone, Copy, Debug, PartialEq, Eq)]
pub struct Playback {
    pub player: Option<Player>,
    /// A seek fired from the bar has not produced its frame yet.
    pub scrub_in_flight: bool,
    /// Direction of the step key held: -1, 1, or 0 for none.
    pub seek_dir: i32,
    /// When the next repeat of the step key is due.
    pub seek_next_ns: i64,
    /// Where the last step went.
    pub seek_target_ns: i64,
}

/// The distance between two times.
pub open spec fn distance(a: int, b: int) -> int {
    if a < b {
        b - a
    } else {
        a - b
    }
}

/// The player that opens at `from`.
pub open spec fn opening(from: i64) -> Player {
    Player { position_ns: from, frame: None, paused: false, scrub: None }
}

/// The command that ends a seek: playback resumes, unless it was paused before.
pub open spec fn seek_command(p: Player, t: i64) -> PlayCommand {
    if p.paused {
        PlayCommand::Scrub(t)
    } else {
        PlayCommand::Play(t)
    }
}

/// Toggling the pause.
pub open spec fn toggled(s: Playback) -> (Playback, Option<PlayCommand>) {
    match s.player {
        Some(p) => (
            Playback { player: Some(Player { paused: !p.paused, ..p }), ..s },
            Some(
                if p.paused {
                    PlayCommand::Resume
                } else {
                    PlayCommand::Pause
                },
            ),
        ),
        None => (s, None),
    }
}

/// Holding where playback is.
pub open spec fn held(s: Playback) -> (Playback, Option<PlayCommand>) {
    match s.player {
        Some(p) => if p.paused {
            (s, None)
        } else {
            (
                Playback { player: Some(Player { paused: true, ..p }), ..s },
                Some(PlayCommand::Pause),
            )
        },
        None => (s, None),
    }
}

/// A frame of this time and size arrived and is on screen: any seek fired from
/// the bar has landed.
pub open spec fn arrived(s: Playback, t: i64, size: (u32, u32)) -> Playback {
    match s.player {
        Some(p) => Playback {
            player: Some(Player { position_ns: t, frame: Some(size), ..p }),
            scrub_in_flight: false,
            ..s
        },
        None => s,
    }
}

/// Whether the step key fires now: at once when it is newly pressed, then each
/// time a repeat is due and the last step has landed.
pub open spec fn fires(s: Playback, p: Player, dir: i32, now: i64) -> bool {
    dir != s.seek_dir || (now >= s.seek_next_ns && distance(
        p.position_ns as int,
        s.seek_target_ns as int,
    ) * 2 < SEEK_STEP_NS)
}

/// Whether the step keys held in direction `dir` move the position at `now`.
pub open spec fn steps(s: Playback, dir: i32, now: i64) -> bool {
    dir != 0 && s.player is Some && fires(s, s.player->0, dir, now)
}

/// Where the step key goes.
pub open spec fn step_target(s: Playback, p: Player, dir: i32, duration: i64) -> i64 {
    let base = if dir != s.seek_dir {
        p.position_ns
    } else {
        s.seek_target_ns
    };
    grid_view::clamped(base + dir * SEEK_STEP_NS, 0, duration as int) as i64
}

/// The step keys held in direction `dir` at `now`.
pub open spec fn nudged(s: Playback, dir: i32, now: i64, duration: i64) -> (
    Playback,
    Option<PlayCommand>,
) {
    if dir == 0 {
        (Playback { seek_dir: 0, ..s }, None)
    } else {
        match s.player {
            Some(p) => if fires(s, p, dir, now) {
                let target = step_target(s, p, dir, duration);
                (
                    Playback {
                        player: Some(Player { paused: true, ..p }),
                        seek_dir: dir,
                        seek_target_ns: target,
                        seek_next_ns: clock::saturated(
                            now + if dir != s.seek_dir {
                                SEEK_REPEAT_DELAY_NS
                            } else {
                                SEEK_REPEAT_INTERVAL_NS
                            },
                        ) as i64,
                        ..s
                    },
                    Some(PlayCommand::Scrub(target)),
                )
            } else {
                (s, None)
            },
            None => (s, None),
        }
    }
}

/// The bar being dragged, with the cursor at time `t`: the handle follows, and a
/// seek is fired once the cursor has moved off the shown frame and the last seek
/// has landed.
pub open spec fn dragged(s: Playback, p: Player, t: i64) -> (Playback, Option<PlayCommand>) {
    let fire = distance(t as int, p.position_ns as int) >= SCRUB_MIN_STEP_NS
        && !s.scrub_in_flight;
    (
        Playback {
            player: Some(Player { scrub: Some(t), ..p }),
            scrub_in_flight: s.scrub_in_flight || fire,
            ..s
        },
        if fire {
            Some(PlayCommand::Scrub(t))
        } else {
            None
        },
    )
}

/// What the seek bar does on a repaint: the bar is `drag`ged or not, was
/// `click`ed or not, and the pointer, if it is known, stands at time `at`.
pub open spec fn bar(s: Playback, drag: bool, click: bool, at: Option<i64>) -> (
    Playback,
    Option<PlayCommand>,
) {
    match s.player {
        None => (s, None),
        Some(p) => {
            let (next, cmd) = if drag {
                match at {
                    Some(t) => dragged(s, p, t),
                    None => (s, None),
                }
            } else {
                match p.scrub {
                    // The drag was released: seek to the exact spot.
                    Some(t) => (
                        Playback { player: Some(Player { scrub: None, ..p }), ..s },
                        Some(seek_command(p, t)),
                    ),
                    None => (s, None),
                }
            };
            match (click, at) {
                (true, Some(t)) => (next, Some(seek_command(p, t))),
                _ => (next, cmd),
            }
        },
    }
}

impl Playback {
    /// Nothing plays.
    pub fn new() -> (s: Playback)
        ensures
            s == (Playback {
                player: None,
                scrub_in_flight: false,
                seek_dir: 0,
                seek_next_ns: 0,
                seek_target_ns: 0,
            }),
    {
        Playback {
            player: None,
            scrub_in_flight: false,
            seek_dir: 0,
            seek_next_ns: 0,
            seek_target_ns: 0,
        }
    }

    /// Start playing from `from_ns`.
    pub fn start(&mut self, from_ns: i64)
        ensures
            *final(self) == (Playback { player: Some(opening(from_ns)), ..*old(self) }),
    {
        self.player = Some(
            Player { position_ns: from_ns, frame: None, paused: false, scrub: None },
        );
    }

    /// Leave playback.
    pub fn stop_playback(&mut self)
        ensures
            *final(self) == (Playback { player: None, ..*old(self) }),
    {
        self.player = None;
    }

    /// Toggle the pause; the session holds or resumes its own clock.
    pub fn toggle_pause(&mut self) -> (cmd: Option<PlayCommand>)
        ensures
            (*final(self), cmd) == toggled(*old(self)),
    {
        match self.player {
            Some(p) => {
                self.player = Some(Player { paused: !p.paused, ..p });
                Some(
                    if p.paused {
                        PlayCommand::Resume
                    } else {
                        PlayCommand::Pause
                    },
                )
            },
            None => None,
        }
    }

    /// Hold where playback is.
    pub fn hold(&mut self) -> (cmd: Option<PlayCommand>)
        ensures
            (*final(self), cmd) == held(*old(self)),
    {
        match self.player {
            Some(p) => if p.paused {
                None
            } else {
                self.player = Some(Player { paused: true, ..p });
                Some(PlayCommand::Pause)
            },
            None => None,
        }
    }

    /// Take the latest frame the session produced.
    pub fn show(&mut self, time_ns: i64, size: (u32, u32))
        ensures
            *final(self) == arrived(*old(self), time_ns, size),
    {
        if let Some(p) = self.player {
            self.player = Some(Player { position_ns: time_ns, frame: Some(size), ..p });
            self.scrub_in_flight = false;
        }
    }

    /// The step keys are held in direction `dir` (-1 back, 1 forward, 0 neither).
    /// Stepping pauses on the frame it lands on.
    pub fn nudge(&mut self, dir: i32, now_ns: i64, duration_ns: i64) -> (cmd: Option<PlayCommand>)
        requires
            -1 <= dir <= 1,
            steps(*old(self), dir, now_ns) ==> duration_ns >= 0,
        ensures
            (*final(self), cmd) == nudged(*old(self), dir, now_ns, duration_ns),
    {
        if dir == 0 {
            self.seek_dir = 0;
            return None;
        }
        match self.player {
            Some(p) => {
                let start: bool = dir != self.seek_dir;
                let away: i128 = p.position_ns as i128 - self.seek_target_ns as i128;
                let apart: i128 = if away < 0 {
                    -away
                } else {
                    away
                };
                let landed: bool = apart * 2 < SEEK_STEP_NS as i128;
                if !(start || (now_ns >= self.seek_next_ns && landed)) {
                    return None;
                }
                let base: i64 = if start {
                    p.position_ns
                } else {
                    self.seek_target_ns
                };
                let wanted: i128 = base as i128 + dir as i128 * SEEK_STEP_NS as i128;
                let target: i64 = if wanted < 0 {
                    0
                } else if wanted > duration_ns as i128 {
                    duration_ns
                } else {
                    wanted as i64
                };
                let wait: i64 = if start {
                    SEEK_REPEAT_DELAY_NS
                } else {
                    SEEK_REPEAT_INTERVAL_NS
                };
                self.player = Some(Player { paused: true, ..p });
                self.seek_target_ns = target;
                self.seek_dir = dir;
                self.seek_next_ns = clock::saturate(now_ns as i128 + wait as i128);
                Some(PlayCommand::Scrub(target))
            },
            None => None,
        }
    }

    /// The seek bar on a repaint: whether it is being dragged, whether it was
    /// clicked, and the time under the pointer, if it is known.
    pub fn seek_bar(&mut self, drag: bool, click: bool, at_ns: Option<i64>) -> (cmd: Option<
        PlayCommand,
    >)
        ensures
            (*final(self), cmd) == bar(*old(self), drag, click, at_ns),
    {
        match self.player {
            None => None,
            Some(p) => {
                let mut cmd: Option<PlayCommand> = None;
                if drag {
                    if let Some(t) = at_ns {
                        let away: i128 = t as i128 - p.position_ns as i128;
                        let apart: i128 = if away < 0 {
                            -away
                        } else {
                            away
                        };
                        self.player = Some(Player { scrub: Some(t), ..p });
                        if apart >= SCRUB_MIN_STEP_NS as i128 && !self.scrub_in_flight {
                            self.scrub_in_flight = true;
                            cmd = Some(PlayCommand::Scrub(t));
                        }
                    }
                } else if let Some(t) = p.scrub {
                    self.player = Some(Player { scrub: None, ..p });
                    cmd = Some(finish_seek(p, t));
                }
                if click {
                    if let Some(t) = at_ns {
                        cmd = Some(finish_seek(p, t));
                    }
                }
                cmd
            },
        }
    }
}

fn finish_seek(p: Player, t: i64) -> (cmd: PlayCommand)
    ensures
        cmd == seek_command(p, t),
{
    if p.paused {
        PlayCommand::Scrub(t)
    } else {
        PlayCommand::Play(t)
    }
}

/// The time at `x` along a track of `width` that stands for `duration`.
pub open spec fn time_along(x: int, width: int, duration: int) -> int {
    grid_view::clamped(x, 0, width) * duration / width
}

/// The time under a pointer that stands `x` along a track of `width`.
pub fn time_at(x: i64, width: i64, duration_ns: i64) -> (t: i64)
    requires
        width > 0,
    ensures
        t == time_along(x as int, width as int, duration_ns as int),
        duration_ns >= 0 ==> 0 <= t <= duration_ns,
{
    let along: i64 = if x < 0 {
        0
    } else if x > width {
        width
    } else {
        x
    };
    proof {
        lemma_share(along as int, width as int, duration_ns as int);
    }
    clock::floor_div(along as i128 * duration_ns as i128, width as i128) as i64
}

proof fn lemma_share(along: int, width: int, d: int)
    requires
        0 <= along <= width,
        0 < width <= i64::MAX,
        i64::MIN <= d <= i64::MAX,
    ensures
        -0x8000_0000_0000_0000 * 0x7fff_ffff_ffff_ffff <= along * d,
        along * d <= 0x7fff_ffff_ffff_ffff * 0x7fff_ffff_ffff_ffff,
        i64::MIN <= along * d / width <= i64::MAX,
        d >= 0 ==> 0 <= along * d / width <= d,
{
    assert(-0x8000_0000_0000_0000 * 0x7fff_ffff_ffff_ffff <= along * d <= 0x7fff_ffff_ffff_ffff
        * 0x7fff_ffff_ffff_ffff) by (nonlinear_arith)
        requires
            0 <= along <= 0x7fff_ffff_ffff_ffff,
            -0x8000_0000_0000_0000 <= d <= 0x7fff_ffff_ffff_ffff,
    ;
    if d >= 0 {
        assert(0 <= along * d / width <= d) by (nonlinear_arith)
            requires
                0 <= along <= width,
                0 < width,
                0 <= d,
        ;
    } else {
        assert(d <= along * d / width <= 0) by (nonlinear_arith)
            requires
                0 <= along <= width,
                0 < width,
                d < 0,
        ;
    }
}

/// How far along a track of `width` the handle stands.
pub open spec fn handle_along(position: int, width: int, duration: int) -> int {
    if duration > 0 {
        grid_view::clamped(position, 0, duration) * width / duration
    } else {
        0
    }
}

/// How far along a track of `width` the handle stands: at the cursor while the
/// bar is dragged, else at the position of the last shown frame.
pub fn handle_at(p: &Player, width: i64, duration_ns: i64) -> (x: i64)
    requires
        width >= 0,
    ensures
        x == handle_along(
            match p.scrub {
                Some(t) => t as int,
                None => p.position_ns as int,
            },
            width as int,
            duration_ns as int,
        ),
        0 <= x <= width,
{
    let position: i64 = match p.scrub {
        Some(t) => t,
        None => p.position_ns,
    };
    if duration_ns > 0 {
        time_at(position, duration_ns, width)
    } else {
        0
    }
}

/// A drag never has more than one seek in flight: one is fired only when none is,
/// and until a frame arrives no other is.
pub proof fn a_drag_has_one_seek_in_flight(s: Playback, at: Option<i64>, later: Option<i64>)
    ensures
        bar(s, true, false, at).1 is Some ==> !s.scrub_in_flight && bar(
            s,
            true,
            false,
            at,
        ).0.scrub_in_flight,
        s.scrub_in_flight ==> bar(s, true, false, at).1 is None && bar(
            s,
            true,
            false,
            at,
        ).0.scrub_in_flight,
        bar(s, true, false, at).1 is Some ==> bar(
            bar(s, true, false, at).0,
            true,
            false,
            later,
        ).1 is None,
{
}

/// Steps stay within the clip, always hold on what they land on, and one that
/// repeats goes on from where the last one went, once that one has landed.
pub proof fn steps_stay_within_the_clip(s: Playback, dir: i32, now: i64, duration: i64)
    requires
        -1 <= dir <= 1,
        duration >= 0,
    ensures
        nudged(s, dir, now, duration).1 matches Some(cmd) ==> cmd matches PlayCommand::Scrub(t)
            && 0 <= t <= duration && nudged(s, dir, now, duration).0.player->0.paused,
        nudged(s, dir, now, duration).1 is Some && dir == s.seek_dir ==> now >= s.seek_next_ns,
{
}

/// Pausing and resuming again leaves everything as it was.
pub proof fn toggling_twice_changes_nothing(s: Playback)
    ensures
        toggled(toggled(s).0).0 == s,
{
}

/// A seek made while paused never starts playback: it holds on what it lands on.
pub proof fn a_paused_seek_stays_paused(
    s: Playback,
    drag: bool,
    click: bool,
    at: Option<i64>,
)
    requires
        s.player is Some,
        s.player->0.paused,
    ensures
        bar(s, drag, click, at).1 matches Some(cmd) ==> cmd is Scrub,
        bar(s, drag, click, at).0.player->0.paused,
{
}

/// The pause is told to the session: resuming when playback was paused, pausing
/// when it was not; nothing but the pause changes. Holding pauses what is not
/// paused yet, and nothing is told where nothing plays.
pub proof fn the_session_is_told_of_every_pause(s: Playback, p: Player)
    ensures
        ({
            let on = Playback { player: Some(p), ..s };
            let (t, cmd) = toggled(on);
            let (h, hold) = held(on);
            &&& p.paused ==> cmd == Some(PlayCommand::Resume) && hold is None
            &&& !p.paused ==> cmd == Some(PlayCommand::Pause) && hold == Some(PlayCommand::Pause)
            &&& t.player is Some && t.player->0.paused != p.paused
            &&& h.player is Some && h.player->0.paused
            &&& Playback { player: Some(Player { paused: p.paused, ..t.player->0 }), ..t } == on
            &&& Playback { player: Some(Player { paused: p.paused, ..h.player->0 }), ..h } == on
        }),
        s.player is None ==> toggled(s) == (s, None::<PlayCommand>) && held(s) == (
            s,
            None::<PlayCommand>,
        ),
{
}

/// A frame that arrives is where playback is, and lands any seek of the bar;
/// nothing else changes.
pub proof fn a_frame_that_arrives_is_the_position(
    s: Playback,
    p: Player,
    t: i64,
    size: (u32, u32),
)
    ensures
        ({
            let a = arrived(Playback { player: Some(p), ..s }, t, size);
            &&& a.player is Some
            &&& a.player->0.position_ns == t
            &&& a.player->0.frame == Some(size)
            &&& (a.player->0.paused, a.player->0.scrub) == (p.paused, p.scrub)
            &&& !a.scrub_in_flight
            &&& (a.seek_dir, a.seek_next_ns, a.seek_target_ns) == (
                s.seek_dir,
                s.seek_next_ns,
                s.seek_target_ns,
            )
        }),
        s.player is None ==> arrived(s, t, size) == s,
{
}

/// A step key moves by half a second from the frame on screen when it is pressed,
/// and from where it last went while it is held, but not past the ends of the
/// clip. It fires at once, again after 350 milliseconds, and then every 120, each
/// time only once the last step has landed to within a quarter of a second.
pub proof fn a_step_key_moves_by_half_a_second(
    s: Playback,
    p: Player,
    dir: i32,
    now: i64,
    duration: i64,
)
    requires
        dir == 1 || dir == -1,
        duration >= 0,
        now <= 0x7fff_ffff_0000_0000,
    ensures
        ({
            let on = Playback { player: Some(p), ..s };
            let (a, cmd) = nudged(on, dir, now, duration);
            let pressed = dir != s.seek_dir;
            let away = p.position_ns - s.seek_target_ns;
            let due = now >= s.seek_next_ns && -250_000_000 < away < 250_000_000;
            let to = (if pressed {
                p.position_ns
            } else {
                s.seek_target_ns
            }) + dir * 500_000_000;
            let target = a.seek_target_ns;
            &&& cmd is Some <==> pressed || due
            &&& cmd is None ==> a == on
            &&& cmd is Some ==> {
                &&& cmd == Some(PlayCommand::Scrub(target))
                &&& 0 <= to <= duration ==> target == to
                &&& to < 0 ==> target == 0
                &&& to > duration ==> target == duration
                &&& a.seek_dir == dir
                &&& pressed ==> a.seek_next_ns == now + 350_000_000
                &&& !pressed ==> a.seek_next_ns == now + 120_000_000
                &&& a.player == Some(Player { paused: true, ..p })
                &&& a.scrub_in_flight == s.scrub_in_flight
            }
        }),
{
}

/// Letting go of the step keys only forgets their direction, and without a player
/// they do nothing.
pub proof fn letting_go_of_a_step_key_moves_nothing(s: Playback, dir: i32, now: i64, duration: i64)
    ensures
        nudged(s, 0, now, duration) == (Playback { seek_dir: 0, ..s }, None::<PlayCommand>),
        s.player is None && dir != 0 ==> nudged(s, dir, now, duration) == (s, None::<PlayCommand>),
{
}

/// While the bar is dragged the handle follows the cursor, and a seek to it is
/// fired when it is fifty milliseconds or more off the frame on screen and no
/// other is in flight.
pub proof fn a_drag_seeks_when_it_has_moved(s: Playback, p: Player, t: i64)
    ensures
        ({
            let on = Playback { player: Some(p), ..s };
            let (a, cmd) = bar(on, true, false, Some(t));
            let away = t - p.position_ns;
            &&& a.player == Some(Player { scrub: Some(t), ..p })
            &&& cmd is Some <==> !s.scrub_in_flight && (away >= 50_000_000 || away <= -50_000_000)
            &&& cmd is Some ==> cmd == Some(PlayCommand::Scrub(t))
            &&& a.scrub_in_flight <==> s.scrub_in_flight || cmd is Some
            &&& (a.seek_dir, a.seek_next_ns, a.seek_target_ns) == (
                s.seek_dir,
                s.seek_next_ns,
                s.seek_target_ns,
            )
            &&& bar(on, true, false, None) == (on, None::<PlayCommand>)
        }),
{
}

/// Letting go of the bar seeks to where the cursor was last, and a click to where
/// it is; playback goes on from there unless it was paused. A bar that is left
/// alone does nothing.
pub proof fn letting_go_of_the_bar_seeks(s: Playback, p: Player, at: Option<i64>, t: i64)
    ensures
        ({
            let on = Playback { player: Some(p), ..s };
            let (a, cmd) = bar(on, false, false, at);
            let (b, clicked) = bar(on, false, true, Some(t));
            let (d, both) = bar(on, true, true, Some(t));
            let seek = |x: i64|
                if p.paused {
                    PlayCommand::Scrub(x)
                } else {
                    PlayCommand::Play(x)
                };
            &&& p.scrub is None ==> a == on && cmd is None
            &&& p.scrub is Some ==> cmd == Some(seek(p.scrub->0))
            &&& a == (Playback { player: Some(Player { scrub: None, ..p }), ..on })
            &&& clicked == Some(seek(t)) && both == Some(seek(t))
            &&& b == a
            &&& d == bar(on, true, false, Some(t)).0
            &&& bar(on, false, true, None) == bar(on, false, false, None)
        }),
        s.player is None ==> bar(s, true, true, at) == (s, None::<PlayCommand>) && bar(
            s,
            false,
            true,
            at,
        ) == (s, None::<PlayCommand>) && bar(s, false, false, at) == (s, None::<PlayCommand>),
{
}

proof fn lemma_quotient(x: int, d: int)
    requires
        d > 0,
    ensures
        0 <= x - (x / d) * d < d,
{
    vstd::arithmetic::div_mod::lemma_fundamental_div_mod(x, d);
    vstd::arithmetic::mul::lemma_mul_is_commutative(x / d, d);
    vstd::arithmetic::div_mod::lemma_mod_bound(x, d);
}

/// The time along a track is in proportion to the way along it, to within one
/// nanosecond, from the start of the clip at one end to its end at the other; past
/// the ends it is theirs.
pub proof fn time_along_a_track_is_in_proportion(x: int, width: int, duration: int)
    requires
        width > 0,
        duration >= 0,
    ensures
        0 <= x <= width ==> 0 <= x * duration - time_along(x, width, duration) * width < width,
        x <= 0 ==> time_along(x, width, duration) == 0,
        x >= width ==> time_along(x, width, duration) == duration,
{
    lemma_quotient(x * duration, width);
    if x <= 0 {
        assert(0 * duration / width == 0) by (nonlinear_arith)
            requires
                width > 0,
        ;
    }
    if x >= width {
        assert(width * duration / width == duration) by (nonlinear_arith)
            requires
                width > 0,
        ;
    }
}

/// The handle stands in proportion to the position, to within one unit, and at
/// the ends for positions past them; on a clip without a length it stays at the
/// start.
pub proof fn the_handle_stands_in_proportion(position: int, width: int, duration: int)
    requires
        width >= 0,
    ensures
        duration > 0 && 0 <= position <= duration ==> 0 <= position * width - handle_along(
            position,
            width,
            duration,
        ) * duration < duration,
        duration > 0 && position <= 0 ==> handle_along(position, width, duration) == 0,
        duration > 0 && position >= duration ==> handle_along(position, width, duration) == width,
        duration <= 0 ==> handle_along(position, width, duration) == 0,
{
    if duration > 0 {
        time_along_a_track_is_in_proportion(position, duration, width);
    }
}

/// A handle dragged to a time stands at the point of the track that has it: going
/// from a point to its time and back leads at most one unit away.
pub proof fn a_handle_stands_where_it_was_dragged(x: int, width: int, duration: int)
    requires
        0 < width <= duration,
        0 <= x <= width,
    ensures
        x - 1 <= handle_along(time_along(x, width, duration), width, duration) <= x,
{
    let t = time_along(x, width, duration);
    time_along_a_track_is_in_proportion(x, width, duration);
    assert(0 <= t <= duration) by (nonlinear_arith)
        requires
            0 <= x * duration - t * width < width,
            0 <= x <= width,
            width > 0,
            duration >= 0,
    ;
    the_handle_stands_in_proportion(t, width, duration);
    let y = handle_along(t, width, duration);
    assert(x - 1 <= y <= x) by (nonlinear_arith)
        requires
            0 <= x * duration - t * width < width,
            0 <= t * width - y * duration < duration,
            width <= duration,
            duration > 0,
    ;
}

/// Playback opens at its time, going, with no frame yet and the bar left alone;
/// and the step keys move the position exactly when a command comes of them.
pub proof fn playback_opens_going(from: i64, s: Playback, dir: i32, now: i64, duration: i64)
    ensures
        opening(from).position_ns == from,
        !opening(from).paused,
        opening(from).frame is None,
        opening(from).scrub is None,
        steps(s, dir, now) <==> nudged(s, dir, now, duration).1 is Some,
{
}

} // verus!
