//! The app between repaints: which clip is on screen, what plays, what is being
//! written, and what each key and each outcome of outside work does to that.

use vstd::prelude::*;

use crate::grid_view;
use crate::naming;
use crate::naming::NameCheck;
use crate::overlay;
use crate::overlay::{Flash, FlashKind, Help, Opacity};
use crate::play_state::PlayCommand;
use crate::playback;
use crate::playback::{Playback, Player};
use crate::shelf;
use crate::shelf::{ClipPath, Loaded, Shelf, Source};
use crate::view;
use crate::view::{Point, ZOOM_ONE};

verus! {

/// The open rename dialog.
pub struct Rename {
    /// The name as typed so far.
    pub name: String,
    /// Whether the field has been handed the focus and the caret.
    pub seeded: bool,
    /// Why the last attempt was refused.
    pub error: Option<String>,
}

/// A still being written: of which clip, under what name beside it, and of which
/// time.
pub struct Saving {
    pub clip: ClipPath,
    pub out: String,
    pub time_ns: i64,
}

/// A message from the reader of the clip on screen.
pub enum GridMsg {
    /// The clip's duration and the size of its frames.
    Meta(i64, u32, u32),
    /// The thumbnail with this number, of this time.
    Thumb(usize, i64),
    /// The clip was read to the end.
    Done,
    /// Reading it failed.
    Failed(String),
    /// The reader went away without a word.
    Gone,
}

/// Whether the session still runs.
pub enum PlayEnd {
    Running,
    /// The session is over.
    Closed,
    /// The session failed.
    Failed(String),
}

/// What the rename dialog comes to on a repaint.
pub enum DialogStep {
    /// It is not up, or is closed now.
    Closed,
    /// It stays up.
    Open,
    /// Its name is to be given to the clip.
    Commit(Rename),
}

/// What comes of a name to be given to the clip on screen.
pub enum RenameCheck {
    /// There is nothing to do.
    Nothing,
    /// It cannot be the clip's name, for this reason.
    Refused(String),
    /// It could be, if it is not taken in the folder.
    Candidate(String),
}

/// What was stopped to free the clip's file.
pub struct Freed {
    /// Where playback was, if it was on.
    pub playing_at: Option<i64>,
    /// The reader that was stopped, if the clip was being read.
    pub reading: Option<u64>,
    /// Whether a still is being written, which is to be waited for.
    pub saving: bool,
}

/// What follows a rename that was tried.
pub struct RenameOutcome {
    /// Whether a reader has to be started for the clip.
    pub start_reader: bool,
    /// Where playback goes on, held, if it was on.
    pub resume_at: Option<i64>,
    /// The command that lands playback on the frame it showed.
    pub land: Option<PlayCommand>,
    /// Why the rename did not land, if it did not.
    pub refused: Option<String>,
}

/// Keys that act on the contact sheet.
#[derive(Clone, Copy, Debug, PartialEq, Eq, Structural)]
pub struct GridKeys {
    pub left: bool,
    pub right: bool,
    pub up: bool,
    pub down: bool,
    pub enter: bool,
    pub save: bool,
}

/// What the keys did to the contact sheet.
#[derive(Clone, Copy, Debug, PartialEq, Eq, Structural)]
pub struct GridOutcome {
    /// The cursor was moved.
    pub moved: bool,
    /// Play from this time.
    pub play_from: Option<i64>,
    /// Save the frame at this time.
    pub save_at: Option<i64>,
}

/// Keys that lead away from the frame being played.
#[derive(Clone, Copy, Debug, PartialEq, Eq, Structural)]
pub struct PlaybackKeys {
    pub prev: bool,
    pub next: bool,
    pub delete: bool,
    pub enter: bool,
    pub escape: bool,
}

/// What those keys lead to.
#[derive(Clone, Copy, Debug, PartialEq, Eq, Structural)]
pub enum PlaybackIntent {
    /// Open the neighbour and play it from its start.
    Step,
    /// Send the clip to the bin and play what comes next.
    Delete,
    /// Go back to the contact sheet.
    Leave,
    /// Close the app.
    Close,
    /// Go on playing.
    Stay,
}

/// Keys that act on the frame being played.
#[derive(Clone, Copy, Debug, PartialEq, Eq, Structural)]
pub struct FrameKeys {
    pub pause: bool,
    pub save: bool,
    /// Direction of the step key held: -1 back, 1 forward, 0 neither.
    pub dir: i32,
}

/// What a repaint of the frame being played comes to.
pub struct PlaybackTurn {
    /// Playback is over; the contact sheet is next.
    pub over: bool,
    /// A command from the pause key.
    pub pause: Option<PlayCommand>,
    /// A still to be written.
    pub save: Option<Saving>,
    /// A command from the step keys.
    pub step: Option<PlayCommand>,
}

/// Keys that act while the contact sheet is up.
#[derive(Clone, Copy, Debug, PartialEq, Eq, Structural)]
pub struct SheetKeys {
    pub escape: bool,
    pub delete: bool,
    pub zoom_in: bool,
    pub zoom_out: bool,
    pub prev: bool,
    pub next: bool,
}

/// What those keys lead to.
#[derive(Clone, Copy, Debug, PartialEq, Eq, Structural)]
pub struct SheetIntent {
    /// Close the app.
    pub close: bool,
    /// Send the clip to the bin and open what comes next, and nothing else.
    pub delete: bool,
    pub zoom_in: bool,
    pub zoom_out: bool,
    /// Open this sibling, if it exists.
    pub sibling: Option<i32>,
}

/// What fills the window while nothing plays.
#[derive(Clone, Copy, Debug, PartialEq, Eq, Structural)]
pub enum Panel {
    /// The reason of the last failure.
    Error,
    /// A hint to open a clip.
    Hint,
    /// The contact sheet.
    Sheet,
}

/// The state of the app.
pub struct Viewer {
    pub shelf: Shelf,
    pub playback: Playback,
    /// Whether the clip on screen has had its look-ahead decided.
    pub looked_ahead: bool,
    /// Columns of the contact sheet.
    pub grid_cols: usize,
    /// Zoom and pan of the played frame.
    pub view: view::View,
    pub flash: Option<Flash>,
    pub help: Help,
    pub rename: Option<Rename>,
    /// The still being written; at most one is.
    pub saving: Option<Saving>,
    /// A still asked for meanwhile.
    pub pending_save: Option<(ClipPath, i64)>,
    pub error: Option<String>,
    /// The clip the window title names.
    pub title: Option<ClipPath>,
}

/// Which sibling the arrow keys ask for: the previous one first.
pub open spec fn asked_sibling(prev: bool, next: bool) -> Option<i32> {
    if prev {
        Some(-1i32)
    } else if next {
        Some(1i32)
    } else {
        None
    }
}

/// What the keys lead to during playback; `found` says whether the sibling asked
/// for exists.
pub open spec fn intent(k: PlaybackKeys, found: bool) -> PlaybackIntent {
    if (k.prev || k.next) && found {
        PlaybackIntent::Step
    } else if k.delete {
        PlaybackIntent::Delete
    } else if k.enter {
        PlaybackIntent::Leave
    } else if k.escape {
        PlaybackIntent::Close
    } else {
        PlaybackIntent::Stay
    }
}

/// What the keys lead to while the contact sheet is up: without a clip only the
/// key that closes the app does anything, and a deletion goes before the rest.
pub open spec fn sheet_intent(k: SheetKeys, loaded: bool) -> SheetIntent {
    let acts = loaded && !k.delete;
    SheetIntent {
        close: k.escape,
        delete: loaded && k.delete,
        zoom_in: acts && k.zoom_in,
        zoom_out: acts && k.zoom_out,
        sibling: if acts {
            asked_sibling(k.prev, k.next)
        } else {
            None
        },
    }
}

/// The path of an optional clip.
pub open spec fn path_of(l: Option<Loaded>) -> Option<(Seq<char>, Seq<char>)> {
    match l {
        Some(s) => Some(s.path@),
        None => None,
    }
}

/// The path behind an optional path.
pub open spec fn named(p: Option<ClipPath>) -> Option<(Seq<char>, Seq<char>)> {
    match p {
        Some(c) => Some(c@),
        None => None,
    }
}

/// Whether `s` is an order to write the frame at `t` of the clip `path`: the
/// still goes beside the clip, under the clip's stem.
pub open spec fn orders(s: Saving, path: (Seq<char>, Seq<char>), t: i64) -> bool {
    s.clip@ == path && s.out@ == naming::still_of(path.1) && s.time_ns == t
}

/// Whether two orders are the same.
pub open spec fn same_order(a: Saving, b: Saving) -> bool {
    a.clip@ == b.clip@ && a.out@ == b.out@ && a.time_ns == b.time_ns
}

/// Whether asking for a still of the frame at `t` led from one state to the other
/// and to this order: without a clip to nothing, while one is being written to
/// the request being held, and else to the order being started.
pub open spec fn still_asked(before: Viewer, after: Viewer, t: i64, order: Option<Saving>) -> bool {
    match before.shelf.loaded {
        None => {
            &&& order is None
            &&& after.saving == before.saving
            &&& after.pending_save == before.pending_save
        },
        Some(l) => if before.saving is Some {
            &&& order is None
            &&& after.saving == before.saving
            &&& after.pending_save matches Some((clip, held)) && clip@ == l.path@ && held == t
        } else {
            &&& order is Some
            &&& orders(order->0, l.path@, t)
            &&& after.saving is Some
            &&& same_order(after.saving->0, order->0)
            &&& after.pending_save == before.pending_save
        },
    }
}

/// Whether the outcome of the still being written led from one state to the other
/// and to this order: it is confirmed by its name or said to have failed, and
/// what was asked for meanwhile is started.
pub open spec fn still_settled(
    before: Viewer,
    after: Viewer,
    outcome: Result<(), String>,
    now: i64,
    order: Option<Saving>,
) -> bool {
    &&& after == (Viewer {
        flash: after.flash,
        error: after.error,
        saving: after.saving,
        pending_save: None,
        ..before
    })
    &&& match outcome {
        Ok(_) => {
            &&& flashes(after.flash, FlashKind::StillSaved, before.saving->0.out@, now)
            &&& after.error == before.error
        },
        Err(e) => {
            &&& after.flash == before.flash
            &&& after.error is Some
            &&& after.error->0@ == naming::quoted(
                "Could not save the still "@,
                before.saving->0.out@,
                ": "@ + e@,
            )
        },
    }
    &&& match before.pending_save {
        Some((clip, t)) => {
            &&& order is Some
            &&& orders(order->0, clip@, t)
            &&& after.saving is Some
            &&& same_order(after.saving->0, order->0)
        },
        None => order is None && after.saving is None,
    }
}

/// Whether freeing the clip's file led from one state to the other, stopping what
/// `f` says.
pub open spec fn clip_freed(before: Viewer, after: Viewer, f: Freed) -> bool {
    &&& f.playing_at == match before.playback.player {
        Some(p) => Some(p.position_ns),
        None => None,
    }
    &&& f.saving == (before.saving is Some)
    &&& f.reading == match before.shelf.loaded {
        Some(l) => if l.done {
            None
        } else {
            Some(l.id)
        },
        None => None,
    }
    &&& after.shelf.loaded == if f.reading is Some {
        None
    } else {
        before.shelf.loaded
    }
    &&& after.shelf.prefetch == before.shelf.prefetch
    &&& after.shelf.recent() == before.shelf.recent()
    &&& after == (Viewer {
        shelf: after.shelf,
        playback: Playback { player: None, ..before.playback },
        ..before
    })
}

/// Whether the outcome of renaming the clip `old_path` to `new_name`, for which
/// what `freed` says was stopped, led from one state to the other and to `r`.
pub open spec fn rename_taken(
    before: Viewer,
    after: Viewer,
    old_path: (Seq<char>, Seq<char>),
    new_name: Seq<char>,
    freed: Freed,
    outcome: Result<(), String>,
    id: u64,
    r: RenameOutcome,
) -> bool {
    let path = (
        old_path.0,
        if outcome is Ok {
            new_name
        } else {
            old_path.1
        },
    );
    &&& after.shelf.prefetch == before.shelf.prefetch
    &&& after.shelf.recent() == before.shelf.recent()
    &&& r.start_reader == (freed.reading is Some)
    &&& r.start_reader ==> after.shelf.loaded is Some && shelf::just_started(
        after.shelf.loaded->0,
        id,
        path,
    )
    &&& !r.start_reader ==> match (before.shelf.loaded, after.shelf.loaded) {
        (Some(a), Some(b)) => b.path@ == path && b == (Loaded { path: b.path, ..a }),
        (None, None) => true,
        _ => false,
    }
    // Playback is taken up again only where there is a clip to play.
    &&& r.resume_at == if after.shelf.loaded is Some {
        freed.playing_at
    } else {
        None
    }
    &&& r.land == match r.resume_at {
        Some(at) => Some(PlayCommand::Scrub(at)),
        None => None,
    }
    &&& after.playback == match r.resume_at {
        Some(at) => Playback {
            player: Some(Player { paused: true, ..playback::opening(at) }),
            ..before.playback
        },
        None => before.playback,
    }
    &&& after == (Viewer { shelf: after.shelf, playback: after.playback, ..before })
    &&& match outcome {
        Ok(_) => r.refused is None,
        Err(e) => r.refused is Some && r.refused->0@ == "Could not rename it: "@ + e@,
    }
}

/// Whether the outcome of sending the clip `path` to the bin, for which what
/// `freed` says was stopped, led from one state to the other and to `r`: whether
/// a reader has to be started, and the number let go.
pub open spec fn delete_taken(
    before: Viewer,
    after: Viewer,
    path: (Seq<char>, Seq<char>),
    freed: Freed,
    deleted: bool,
    id: u64,
    now: i64,
    r: (bool, Option<u64>),
) -> bool {
    &&& after.shelf.prefetch == before.shelf.prefetch
    &&& after.shelf.recent() == before.shelf.recent()
    &&& after == (Viewer {
        shelf: after.shelf,
        flash: after.flash,
        error: after.error,
        ..before
    })
    &&& deleted ==> {
        &&& r == (
            false,
            match before.shelf.loaded {
                Some(l) => Some(l.id),
                None => None::<u64>,
            },
        )
        &&& after.shelf.loaded is None
        &&& flashes(after.flash, FlashKind::Deleted, path.1, now)
        &&& after.error == before.error
    }
    &&& !deleted ==> {
        &&& r == (freed.reading is Some, None::<u64>)
        &&& freed.reading is Some ==> after.shelf.loaded is Some && shelf::just_started(
            after.shelf.loaded->0,
            id,
            path,
        )
        &&& freed.reading is None ==> after.shelf.loaded == before.shelf.loaded
        &&& after.flash == before.flash
        &&& after.error is Some
        &&& after.error->0@ == naming::quoted(
            "Could not send "@,
            path.1,
            " to the Recycle Bin — it may still be in use."@,
        )
    }
}

/// The app once another clip is opened, which led to these sheets: playback, the
/// view, the last failure and the look-ahead start over.
pub open spec fn reset_for(before: Viewer, sheets: Shelf) -> Viewer {
    Viewer {
        shelf: sheets,
        playback: Playback { player: None, ..before.playback },
        looked_ahead: false,
        view: view::View { zoom: ZOOM_ONE, offset: Point { x: 0, y: 0 } },
        error: None,
        ..before
    }
}

/// The duration of the clip on screen, or nothing without one.
pub open spec fn clip_duration(l: Option<Loaded>) -> i64 {
    match l {
        Some(s) => s.duration_ns,
        None => 0,
    }
}

/// Playback once the pause key, if it was pressed, and then the latest frame, if
/// one arrived, have been taken.
pub open spec fn refreshed(s: Playback, pause: bool, latest: Option<(i64, (u32, u32))>) -> Playback {
    let toggled = if pause {
        playback::toggled(s).0
    } else {
        s
    };
    match latest {
        Some((t, size)) => playback::arrived(toggled, t, size),
        None => toggled,
    }
}

/// The cells once the thumbnail `i`, of time `t`, has come.
pub open spec fn with_thumb(cells: Seq<Option<i64>>, i: int, t: i64) -> Seq<Option<i64>> {
    Seq::new(
        if i < cells.len() {
            cells.len()
        } else {
            (i + 1) as nat
        },
        |j: int|
            if j == i {
                Some(t)
            } else if j < cells.len() {
                cells[j]
            } else {
                None
            },
    )
}

/// Whether `after` is the sheet `before` once a thumbnail has come.
pub open spec fn thumb_taken(before: Loaded, after: Loaded, i: int, t: i64) -> bool {
    &&& after.cells@ == with_thumb(before.cells@, i, t)
    &&& after.ready == if before.ready < usize::MAX {
        before.ready + 1
    } else {
        before.ready as int
    }
    &&& after == (Loaded { cells: after.cells, ready: after.ready, ..before })
}

impl Viewer {
    /// The sheets are in order, the zoom is within its range, and so are the
    /// columns.
    pub open spec fn wf(self) -> bool {
        &&& self.shelf.wf()
        &&& self.view.valid()
        &&& grid_view::GRID_COLS_MIN <= self.grid_cols <= grid_view::GRID_COLS_MAX
    }

    /// An app with nothing loaded.
    pub fn new() -> (v: Viewer)
        ensures
            v.wf(),
            v.shelf.loaded is None,
            v.shelf.prefetch is None,
            v.shelf.recent() == Seq::<Loaded>::empty(),
            v.playback == (Playback {
                player: None,
                scrub_in_flight: false,
                seek_dir: 0,
                seek_next_ns: 0,
                seek_target_ns: 0,
            }),
            !v.looked_ahead,
            v.grid_cols == grid_view::GRID_COLS_DEFAULT,
            v.view == (view::View { zoom: ZOOM_ONE, offset: Point { x: 0, y: 0 } }),
            v.flash is None,
            v.help == Help::Hidden,
            v.rename is None,
            v.saving is None,
            v.pending_save is None,
            v.error is None,
            v.title is None,
    {
        Viewer {
            shelf: Shelf::new(),
            playback: Playback::new(),
            looked_ahead: false,
            grid_cols: grid_view::GRID_COLS_DEFAULT,
            view: view::View::new(),
            flash: None,
            help: Help::new(),
            rename: None,
            saving: None,
            pending_save: None,
            error: None,
            title: None,
        }
    }

    /// Show the sheet of `path`, starting its reader under the number `id` if it
    /// is not at hand. Leaves playback, and lets the new clip have a look-ahead
    /// and a view of its own.
    pub fn open(&mut self, path: ClipPath, id: u64) -> (r: (Source, Vec<u64>))
        requires
            old(self).wf(),
        ensures
            final(self).wf(),
            shelf::opened(old(self).shelf, final(self).shelf, path@, id, r.0, r.1@),
            *final(self) == reset_for(*old(self), final(self).shelf),
    {
        self.error = None;
        self.playback.stop_playback();
        self.looked_ahead = false;
        self.view = view::View::new();
        self.shelf.open(path, id)
    }

    /// Whether the next sibling is to be looked for now, which is decided once
    /// per clip: when the clip on screen has been read to the end, so that it had
    /// the disk to itself, and nothing plays.
    pub fn look_ahead_due(&mut self) -> (due: bool)
        requires
            old(self).wf(),
        ensures
            final(self).wf(),
            due == (!old(self).looked_ahead && old(self).playback.player is None && old(
                self).shelf.loaded is Some && old(self).shelf.loaded->0.done),
            *final(self) == (Viewer {
                looked_ahead: old(self).looked_ahead || due,
                ..*old(self)
            }),
    {
        if self.looked_ahead || self.playback.player.is_some() {
            return false;
        }
        let done: bool = match &self.shelf.loaded {
            Some(l) => l.done,
            None => false,
        };
        if done {
            self.looked_ahead = true;
        }
        done
    }

    /// Read the next sibling ahead under the number `id`, if there is one and its
    /// sheet is not at hand. Says whether a reader has to be started, and the
    /// number of a read-ahead that is let go.
    pub fn look_ahead(&mut self, next: Option<ClipPath>, id: u64) -> (r: (bool, Option<u64>))
        requires
            old(self).wf(),
        ensures
            final(self).wf(),
            *final(self) == (Viewer { shelf: final(self).shelf, ..*old(self) }),
            final(self).shelf.loaded == old(self).shelf.loaded,
            final(self).shelf.recent() == old(self).shelf.recent(),
            r.0 == (next is Some && !shelf::holds(old(self).shelf.recent(), next->0@)),
            r.0 ==> final(self).shelf.prefetch is Some && shelf::just_started(
                final(self).shelf.prefetch->0,
                id,
                next->0@,
            ),
            r.0 ==> r.1 == match old(self).shelf.prefetch {
                Some(l) => Some(l.id),
                None => None,
            },
            !r.0 ==> final(self).shelf.prefetch == old(self).shelf.prefetch && r.1 is None,
    {
        match next {
            Some(path) => self.shelf.read_ahead(path, id),
            None => (false, None),
        }
    }

    /// Whether the clip on screen is still being read.
    pub fn reading(&self) -> (reading: bool)
        ensures
            reading == (self.shelf.loaded is Some && !self.shelf.loaded->0.done),
    {
        match &self.shelf.loaded {
            Some(l) => !l.done,
            None => false,
        }
    }

    /// Take a message from the reader of the clip on screen. A failure lets the
    /// clip go and leaves its reason on screen; its number is returned.
    pub fn take_msg(&mut self, msg: GridMsg) -> (gone: Option<u64>)
        requires
            old(self).wf(),
            old(self).shelf.loaded is Some,
            msg matches GridMsg::Thumb(i, _) ==> i < usize::MAX,
        ensures
            final(self).wf(),
            final(self).shelf.prefetch == old(self).shelf.prefetch,
            final(self).shelf.recent() == old(self).shelf.recent(),
            *final(self) == (Viewer {
                shelf: final(self).shelf,
                error: final(self).error,
                ..*old(self)
            }),
            ({
                let l = old(self).shelf.loaded->0;
                let n = final(self).shelf.loaded;
                match msg {
                    GridMsg::Failed(e) => {
                        &&& gone == Some(l.id)
                        &&& n is None
                        &&& final(self).error == Some(e)
                    },
                    _ => {
                        &&& gone is None
                        &&& final(self).error == old(self).error
                        &&& n is Some
                        &&& match msg {
                            GridMsg::Meta(d, w, h) => n->0 == (Loaded {
                                duration_ns: d,
                                aspect: if w > 0 {
                                    (h, w)
                                } else {
                                    l.aspect
                                },
                                ..l
                            }),
                            GridMsg::Thumb(i, t) => thumb_taken(l, n->0, i as int, t),
                            _ => n->0 == (Loaded { done: true, ..l }),
                        }
                    },
                }
            }),
    {
        match self.shelf.loaded.take() {
            Some(mut l) => {
                match msg {
                    GridMsg::Meta(d, w, h) => {
                        l.duration_ns = d;
                        if w > 0 {
                            l.aspect = (h, w);
                        }
                    },
                    GridMsg::Thumb(i, t) => {
                        put_thumb(&mut l, i, t);
                    },
                    GridMsg::Done | GridMsg::Gone => {
                        l.done = true;
                    },
                    GridMsg::Failed(e) => {
                        self.error = Some(e);
                        return Some(l.id);
                    },
                }
                self.shelf.loaded = Some(l);
                None
            },
            None => None,
        }
    }

    /// Start playing the clip on screen from the keyframe before `from_ns`. Says
    /// whether there is one to play.
    pub fn play(&mut self, from_ns: i64) -> (playing: bool)
        requires
            old(self).wf(),
        ensures
            final(self).wf(),
            playing == (old(self).shelf.loaded is Some),
            *final(self) == (Viewer {
                playback: if playing {
                    Playback {
                        player: Some(playback::opening(from_ns)),
                        ..old(self).playback
                    }
                } else {
                    old(self).playback
                },
                ..*old(self)
            }),
    {
        match &self.shelf.loaded {
            Some(_) => {
                self.playback.start(from_ns);
                true
            },
            None => false,
        }
    }

    /// Take the latest frame the session produced since the last repaint, and
    /// whether the session still runs. Returns `false` when playback is over.
    pub fn advance_player(&mut self, latest: Option<(i64, (u32, u32))>, end: PlayEnd) -> (go_on:
        bool)
        requires
            old(self).wf(),
        ensures
            final(self).wf(),
            *final(self) == (Viewer {
                playback: final(self).playback,
                error: final(self).error,
                ..*old(self)
            }),
            old(self).playback.player is None ==> go_on && *final(self) == *old(self),
            old(self).playback.player is Some ==> {
                &&& go_on == (end is Running)
                &&& final(self).error == match end {
                    PlayEnd::Failed(e) => Some(e),
                    _ => old(self).error,
                }
                &&& final(self).playback == match (end, latest) {
                    (PlayEnd::Failed(_), _) => old(self).playback,
                    (_, Some((t, size))) => playback::arrived(old(self).playback, t, size),
                    (_, None) => old(self).playback,
                }
            },
    {
        if self.playback.player.is_none() {
            return true;
        }
        match end {
            PlayEnd::Failed(e) => {
                self.error = Some(e);
                return false;
            },
            PlayEnd::Closed => {
                if let Some((t, size)) = latest {
                    self.playback.show(t, size);
                }
                false
            },
            PlayEnd::Running => {
                if let Some((t, size)) = latest {
                    self.playback.show(t, size);
                }
                true
            },
        }
    }

    /// A repaint of the frame being played: take the pause key, then what the
    /// session produced, which may end playback, then save the frame that is on
    /// screen now, and then step.
    pub fn playback_turn(
        &mut self,
        keys: FrameKeys,
        now_ns: i64,
        latest: Option<(i64, (u32, u32))>,
        end: PlayEnd,
    ) -> (t: PlaybackTurn)
        requires
            old(self).wf(),
            old(self).playback.player is Some,
            -1 <= keys.dir <= 1,
            end is Running && playback::steps(
                refreshed(old(self).playback, keys.pause, latest),
                keys.dir,
                now_ns,
            ) ==> clip_duration(old(self).shelf.loaded) >= 0,
        ensures
            final(self).wf(),
            *final(self) == (Viewer {
                playback: final(self).playback,
                error: final(self).error,
                saving: final(self).saving,
                pending_save: final(self).pending_save,
                ..*old(self)
            }),
            t.pause == if keys.pause {
                playback::toggled(old(self).playback).1
            } else {
                None
            },
            t.over == !(end is Running),
            final(self).error == match end {
                PlayEnd::Failed(e) => Some(e),
                _ => old(self).error,
            },
            t.over ==> {
                &&& final(self).playback == (Playback {
                    player: None,
                    ..refreshed(
                        old(self).playback,
                        keys.pause,
                        if end is Failed {
                            None
                        } else {
                            latest
                        },
                    )
                })
                &&& final(self).saving == old(self).saving
                &&& final(self).pending_save == old(self).pending_save
                &&& t.save is None
                &&& t.step is None
            },
            !t.over ==> {
                let now = refreshed(old(self).playback, keys.pause, latest);
                &&& (final(self).playback, t.step) == playback::nudged(
                    now,
                    keys.dir,
                    now_ns,
                    clip_duration(old(self).shelf.loaded),
                )
                &&& if keys.save {
                    still_asked(*old(self), *final(self), now.player->0.position_ns, t.save)
                } else {
                    &&& t.save is None
                    &&& final(self).saving == old(self).saving
                    &&& final(self).pending_save == old(self).pending_save
                }
            },
    {
        let pause = if keys.pause {
            self.playback.toggle_pause()
        } else {
            None
        };
        if !self.advance_player(latest, end) {
            self.playback.stop_playback();
            return PlaybackTurn { over: true, pause, save: None, step: None };
        }
        let mut save: Option<Saving> = None;
        if keys.save {
            if let Some(p) = self.playback.player {
                save = self.save_still(p.position_ns);
            }
        }
        let duration_ns: i64 = match &self.shelf.loaded {
            Some(l) => l.duration_ns,
            None => 0,
        };
        let step = self.playback.nudge(keys.dir, now_ns, duration_ns);
        PlaybackTurn { over: false, pause, save, step }
    }

    /// Open the rename dialog on the clip on screen. Playback is held, and stays
    /// held once the dialog is gone: the frame that prompted the rename is the
    /// one being looked at.
    pub fn begin_rename(&mut self) -> (cmd: Option<PlayCommand>)
        requires
            old(self).wf(),
        ensures
            final(self).wf(),
            match old(self).shelf.loaded {
                Some(l) => {
                    &&& final(self).rename is Some
                    &&& final(self).rename->0.name@ == l.path.name@
                    &&& !final(self).rename->0.seeded
                    &&& final(self).rename->0.error is None
                    &&& (final(self).playback, cmd) == playback::held(old(self).playback)
                    &&& *final(self) == (Viewer {
                        rename: final(self).rename,
                        playback: final(self).playback,
                        ..*old(self)
                    })
                },
                None => *final(self) == *old(self) && cmd is None,
            },
    {
        match &self.shelf.loaded {
            Some(l) => {
                self.rename = Some(
                    Rename { name: l.path.name.clone(), seeded: false, error: None },
                );
                self.playback.hold()
            },
            None => None,
        }
    }

    /// What the rename dialog comes to on a repaint. It is closed when it was
    /// cancelled, and when the clip has gone from under it.
    pub fn rename_step(&mut self, confirm: bool, cancel: bool) -> (step: DialogStep)
        requires
            old(self).wf(),
        ensures
            final(self).wf(),
            *final(self) == (Viewer { rename: final(self).rename, ..*old(self) }),
            match old(self).rename {
                None => step is Closed && final(self).rename is None,
                Some(r) => if old(self).shelf.loaded is None || cancel {
                    step is Closed && final(self).rename is None
                } else if !confirm {
                    step is Open && final(self).rename == Some(r)
                } else {
                    step == DialogStep::Commit(r) && final(self).rename is None
                },
            },
    {
        match self.rename.take() {
            None => DialogStep::Closed,
            Some(r) => {
                let gone: bool = self.shelf.loaded.is_none();
                if gone || cancel {
                    DialogStep::Closed
                } else if !confirm {
                    self.rename = Some(r);
                    DialogStep::Open
                } else {
                    DialogStep::Commit(r)
                }
            },
        }
    }

    /// A refused name stays up with the reason: it is one to fix, not a dialog to
    /// start over.
    pub fn rename_refused(&mut self, r: Rename, why: String)
        requires
            old(self).wf(),
        ensures
            final(self).wf(),
            *final(self) == (Viewer {
                rename: Some(Rename { name: r.name, seeded: false, error: Some(why) }),
                ..*old(self)
            }),
    {
        self.rename = Some(Rename { name: r.name, seeded: false, error: Some(why) });
    }

    /// Check a name typed for the clip on screen, before anything is stopped: a
    /// typo then costs nothing.
    pub fn check_rename(&self, typed: &str) -> (check: RenameCheck)
        ensures
            match self.shelf.loaded {
                None => check is Nothing,
                Some(l) => exists|c: NameCheck| #[trigger]
                    naming::checked_name(l.path.name@, typed@, c) && match c {
                        NameCheck::Refused(why) => check == RenameCheck::Refused(why),
                        NameCheck::Unchanged => check is Nothing,
                        NameCheck::Candidate(n) => check == RenameCheck::Candidate(n),
                    },
            },
    {
        match &self.shelf.loaded {
            None => RenameCheck::Nothing,
            Some(l) => {
                let c = naming::check_name(l.path.name.as_str(), typed);
                assert(naming::checked_name(l.path.name@, typed@, c));
                match c {
                    NameCheck::Refused(why) => RenameCheck::Refused(why),
                    NameCheck::Unchanged => RenameCheck::Nothing,
                    NameCheck::Candidate(n) => RenameCheck::Candidate(n),
                }
            },
        }
    }

    /// Stop everything that holds the file of the clip on screen open: playback,
    /// a reader that has not finished, and a still being written, which is to be
    /// waited for.
    pub fn free_clip(&mut self) -> (f: Freed)
        requires
            old(self).wf(),
        ensures
            final(self).wf(),
            clip_freed(*old(self), *final(self), f),
    {
        let playing_at: Option<i64> = match self.playback.player {
            Some(p) => Some(p.position_ns),
            None => None,
        };
        self.playback.stop_playback();
        let reading = self.shelf.stop_reading();
        Freed { playing_at, reading, saving: self.saving.is_some() }
    }

    /// Take the outcome of renaming the clip `old_path` to `new_name`, for which
    /// what `freed` says was stopped. Whichever way it went, what was stopped
    /// goes back on the clip that is there now: a reader starts over under the
    /// number `id`, a finished sheet is relabelled, and playback resumes on the
    /// frame it showed, held.
    pub fn finish_rename(
        &mut self,
        old_path: &ClipPath,
        new_name: &str,
        freed: &Freed,
        outcome: Result<(), String>,
        id: u64,
    ) -> (r: RenameOutcome)
        requires
            old(self).wf(),
        ensures
            final(self).wf(),
            rename_taken(
                *old(self),
                *final(self),
                old_path@,
                new_name@,
                *freed,
                outcome,
                id,
                r,
            ),
    {
        let name: String = match &outcome {
            Ok(_) => new_name.to_owned(),
            Err(_) => old_path.name.clone(),
        };
        let path = ClipPath { folder: old_path.folder.clone(), name };
        let start_reader: bool = freed.reading.is_some();
        if start_reader {
            self.shelf.loaded = Some(Loaded::start(path, id));
        } else {
            self.shelf.loaded = match self.shelf.loaded.take() {
                Some(mut l) => {
                    l.path = path;
                    Some(l)
                },
                None => None,
            };
        }
        let mut resume_at: Option<i64> = None;
        let mut land: Option<PlayCommand> = None;
        if let Some(at) = freed.playing_at {
            if self.shelf.loaded.is_some() {
                self.playback.start(at);
                let _ = self.playback.hold();
                resume_at = Some(at);
                // The session opens at the keyframe before; this lands on the
                // frame itself and holds, so that no pause is needed.
                land = Some(PlayCommand::Scrub(at));
            }
        }
        let refused = match outcome {
            Ok(_) => None,
            Err(e) => {
                let mut s: String = "Could not rename it: ".to_owned();
                s.append(e.as_str());
                Some(s)
            },
        };
        RenameOutcome { start_reader, resume_at, land, refused }
    }

    /// The still of a clip that was renamed could not follow it: said, and lived
    /// with.
    pub fn renamed_without_still(&mut self, still: &str)
        requires
            old(self).wf(),
        ensures
            final(self).wf(),
            final(self).error is Some,
            final(self).error->0@ == naming::quoted(
                "Renamed the clip, but its still "@,
                still@,
                " stayed — it may still be in use."@,
            ),
            *final(self) == (Viewer { error: final(self).error, ..*old(self) }),
    {
        self.error = Some(
            naming::quote(
                "Renamed the clip, but its still ",
                still,
                " stayed — it may still be in use.",
            ),
        );
    }

    /// Ask for a still of the frame at `time_ns` of the clip on screen. Only one
    /// is written at a time: two of the same clip would race on one file, so a
    /// later request waits, in place of one that waited before. Returns the order
    /// to start, if one is to be started now.
    pub fn save_still(&mut self, time_ns: i64) -> (order: Option<Saving>)
        requires
            old(self).wf(),
        ensures
            final(self).wf(),
            *final(self) == (Viewer {
                saving: final(self).saving,
                pending_save: final(self).pending_save,
                ..*old(self)
            }),
            still_asked(*old(self), *final(self), time_ns, order),
    {
        let clip: ClipPath = match &self.shelf.loaded {
            Some(l) => l.path.copy(),
            None => {
                return None;
            },
        };
        if self.saving.is_some() {
            self.pending_save = Some((clip, time_ns));
            return None;
        }
        Some(self.start_save(clip, time_ns))
    }

    fn start_save(&mut self, clip: ClipPath, time_ns: i64) -> (order: Saving)
        requires
            old(self).wf(),
        ensures
            final(self).wf(),
            *final(self) == (Viewer { saving: final(self).saving, ..*old(self) }),
            orders(order, clip@, time_ns),
            final(self).saving is Some,
            same_order(final(self).saving->0, order),
    {
        let out: String = naming::still_name(clip.name.as_str());
        self.saving = Some(Saving { clip: clip.copy(), out: out.clone(), time_ns });
        Saving { clip, out, time_ns }
    }

    /// Take the outcome of the still being written: confirm it by its name, or
    /// say why it failed. Then start what was asked for meanwhile, whose order is
    /// returned.
    pub fn settle_save(&mut self, outcome: Result<(), String>, now_ns: i64) -> (order: Option<
        Saving,
    >)
        requires
            old(self).wf(),
            old(self).saving is Some,
        ensures
            final(self).wf(),
            still_settled(*old(self), *final(self), outcome, now_ns, order),
    {
        if let Some(s) = self.saving.take() {
            match outcome {
                Ok(_) => {
                    self.flash = Some(
                        Flash {
                            kind: FlashKind::StillSaved,
                            name: s.out,
                            started_ns: now_ns,
                        },
                    );
                },
                Err(e) => {
                    let mut rest: String = ": ".to_owned();
                    rest.append(e.as_str());
                    self.error = Some(
                        naming::quote("Could not save the still ", s.out.as_str(), rest.as_str()),
                    );
                },
            }
        }
        match self.pending_save.take() {
            Some((clip, t)) => Some(self.start_save(clip, t)),
            None => None,
        }
    }

    /// Take the outcome of the still being written, which was waited for so that
    /// the clip's file is closed. What was asked for meanwhile is dropped: to
    /// start it would hand the clip straight back to a reader.
    pub fn finish_save(&mut self, outcome: Result<(), String>, now_ns: i64)
        requires
            old(self).wf(),
            old(self).saving is Some,
        ensures
            final(self).wf(),
            final(self).saving is None,
            final(self).pending_save is None,
            *final(self) == (Viewer {
                flash: final(self).flash,
                error: final(self).error,
                saving: None,
                pending_save: None,
                ..*old(self)
            }),
            match outcome {
                Ok(_) => {
                    &&& flashes(
                        final(self).flash,
                        FlashKind::StillSaved,
                        old(self).saving->0.out@,
                        now_ns,
                    )
                    &&& final(self).error == old(self).error
                },
                Err(e) => {
                    &&& final(self).flash == old(self).flash
                    &&& final(self).error is Some
                    &&& final(self).error->0@ == naming::quoted(
                        "Could not save the still "@,
                        old(self).saving->0.out@,
                        ": "@ + e@,
                    )
                },
            },
    {
        self.pending_save = None;
        let _ = self.settle_save(outcome, now_ns);
    }

    /// Take the outcome of sending the clip `path` to the bin, for which what
    /// `freed` says was stopped. One that was turned down is said, and a reader
    /// that was stopped for it starts over under the number `id`; one that went
    /// is confirmed by name, and its sheet is let go: nothing can reach the clip
    /// any more. Returns whether a reader has to be started, and the number let
    /// go.
    pub fn finish_delete(
        &mut self,
        path: &ClipPath,
        freed: &Freed,
        deleted: bool,
        id: u64,
        now_ns: i64,
    ) -> (r: (bool, Option<u64>))
        requires
            old(self).wf(),
        ensures
            final(self).wf(),
            delete_taken(*old(self), *final(self), path@, *freed, deleted, id, now_ns, r),
    {
        if deleted {
            self.flash = Some(
                Flash {
                    kind: FlashKind::Deleted,
                    name: path.name.clone(),
                    started_ns: now_ns,
                },
            );
            let gone = self.shelf.unload();
            (false, gone)
        } else {
            let start: bool = freed.reading.is_some();
            if start {
                self.shelf.loaded = Some(Loaded::start(path.copy(), id));
            }
            self.error = Some(
                naming::quote(
                    "Could not send ",
                    path.name.as_str(),
                    " to the Recycle Bin — it may still be in use.",
                ),
            );
            (start, None)
        }
    }

    /// The still of a clip that was deleted could not follow it into the bin.
    pub fn deleted_without_still(&mut self, still: &str)
        requires
            old(self).wf(),
        ensures
            final(self).wf(),
            final(self).error is Some,
            final(self).error->0@ == naming::quoted(
                "Deleted the clip, but its still "@,
                still@,
                " stayed — it may still be in use."@,
            ),
            *final(self) == (Viewer { error: final(self).error, ..*old(self) }),
    {
        self.error = Some(
            naming::quote(
                "Deleted the clip, but its still ",
                still,
                " stayed — it may still be in use.",
            ),
        );
    }
}

/// What a window is titled that shows the clip at `path`, or none.
pub open spec fn title_text(path: Option<Seq<char>>) -> Seq<char> {
    match path {
        Some(p) => p + " — footage_viewer"@,
        None => "footage_viewer"@,
    }
}

/// What the window is titled.
pub fn window_title(path: Option<&str>) -> (s: String)
    ensures
        s@ == title_text(
            match path {
                Some(p) => Some(p@),
                None => None,
            },
        ),
{
    match path {
        Some(p) => {
            let mut s: String = p.to_owned();
            s.append(" — footage_viewer");
            s
        },
        None => "footage_viewer".to_owned(),
    }
}

/// The step the cursor keys ask for along one axis.
pub open spec fn key_step(back: bool, forth: bool) -> int {
    (if forth {
        1int
    } else {
        0
    }) - (if back {
        1int
    } else {
        0
    })
}

fn step_of(back: bool, forth: bool) -> (d: i32)
    ensures
        d == key_step(back, forth),
{
    if forth == back {
        0
    } else if forth {
        1
    } else {
        -1
    }
}

/// Where the keys leave the cursor of a sheet.
pub open spec fn cursor_by_keys(l: Loaded, cols: int, k: GridKeys) -> int {
    let dx = key_step(k.left, k.right);
    let dy = key_step(k.up, k.down);
    if l.cells@.len() > 0 && (dx != 0 || dy != 0) {
        grid_view::cursor_after(l.cursor as int, l.cells@.len() as int, cols, dx, dy)
    } else {
        l.cursor as int
    }
}

/// The time of the thumbnail under a cursor, if one has come there.
pub open spec fn time_under(l: Loaded, cursor: int) -> Option<i64> {
    if 0 <= cursor < l.cells@.len() {
        l.cells@[cursor]
    } else {
        None
    }
}

impl Viewer {
    /// Whether the window title has to change; it then names the clip on screen.
    pub fn sync_title(&mut self) -> (changed: bool)
        requires
            old(self).wf(),
        ensures
            final(self).wf(),
            changed == (named(old(self).title) != path_of(old(self).shelf.loaded)),
            named(final(self).title) == path_of(old(self).shelf.loaded),
            *final(self) == (Viewer { title: final(self).title, ..*old(self) }),
    {
        let same: bool = match (&self.title, &self.shelf.loaded) {
            (Some(t), Some(l)) => t.same(&l.path),
            (None, None) => true,
            _ => false,
        };
        if same {
            return false;
        }
        self.title = match &self.shelf.loaded {
            Some(l) => Some(l.path.copy()),
            None => None,
        };
        true
    }

    /// The keys on the contact sheet: they move the cursor, and play or save the
    /// frame it then stands on.
    pub fn grid_keys(&mut self, k: GridKeys) -> (r: GridOutcome)
        requires
            old(self).wf(),
        ensures
            final(self).wf(),
            *final(self) == (Viewer { shelf: final(self).shelf, ..*old(self) }),
            final(self).shelf.prefetch == old(self).shelf.prefetch,
            final(self).shelf.recent() == old(self).shelf.recent(),
            match old(self).shelf.loaded {
                None => final(self).shelf.loaded is None && r == (GridOutcome {
                    moved: false,
                    play_from: None,
                    save_at: None,
                }),
                Some(l) => {
                    let cursor = cursor_by_keys(l, old(self).grid_cols as int, k);
                    &&& final(self).shelf.loaded == Some(Loaded { cursor: cursor as usize, ..l })
                    &&& r == (GridOutcome {
                        moved: l.cells@.len() > 0 && (key_step(k.left, k.right) != 0 || key_step(
                            k.up,
                            k.down,
                        ) != 0),
                        play_from: if k.enter {
                            time_under(l, cursor)
                        } else {
                            None
                        },
                        save_at: if k.save {
                            time_under(l, cursor)
                        } else {
                            None
                        },
                    })
                },
            },
    {
        match self.shelf.loaded.take() {
            None => GridOutcome { moved: false, play_from: None, save_at: None },
            Some(mut l) => {
                let n: usize = l.cells.len();
                let dx: i32 = step_of(k.left, k.right);
                let dy: i32 = step_of(k.up, k.down);
                let moved: bool = n > 0 && (dx != 0 || dy != 0);
                if moved {
                    l.cursor = grid_view::move_cursor(l.cursor, n, self.grid_cols, dx, dy);
                }
                let under: Option<i64> = if l.cursor < n {
                    l.cells[l.cursor]
                } else {
                    None
                };
                self.shelf.loaded = Some(l);
                GridOutcome {
                    moved,
                    play_from: if k.enter {
                        under
                    } else {
                        None
                    },
                    save_at: if k.save {
                        under
                    } else {
                        None
                    },
                }
            },
        }
    }

    /// The keys that trade the size of the thumbnails for how many fit. Without a
    /// clip they do nothing.
    pub fn column_keys(&mut self, zoom_in: bool, zoom_out: bool)
        requires
            old(self).wf(),
        ensures
            final(self).wf(),
            *final(self) == (Viewer { grid_cols: final(self).grid_cols, ..*old(self) }),
            final(self).grid_cols == if old(self).shelf.loaded is None {
                old(self).grid_cols as int
            } else {
                grid_view::clamped(
                    grid_view::clamped(
                        old(self).grid_cols - (if zoom_in {
                            1int
                        } else {
                            0
                        }),
                        grid_view::GRID_COLS_MIN as int,
                        grid_view::GRID_COLS_MAX as int,
                    ) + (if zoom_out {
                        1int
                    } else {
                        0
                    }),
                    grid_view::GRID_COLS_MIN as int,
                    grid_view::GRID_COLS_MAX as int,
                )
            },
    {
        if self.shelf.loaded.is_none() {
            return ;
        }
        if zoom_in {
            self.grid_cols = grid_view::larger(self.grid_cols);
        }
        if zoom_out {
            self.grid_cols = grid_view::smaller(self.grid_cols);
        }
    }

    /// Which of the files dropped on the window to open: the last that is a
    /// video. None is while the rename dialog is up, which would otherwise give
    /// the newcomer the name meant for the clip that was there.
    pub fn take_drop(&self, names: &Vec<String>) -> (at: Option<usize>)
        ensures
            match at {
                Some(i) => {
                    &&& self.rename is None
                    &&& i < names.len()
                    &&& naming::names_a_video(names@[i as int]@)
                    &&& forall|j: int|
                        i < j < names.len() ==> !naming::names_a_video(#[trigger] names@[j]@)
                },
                None => self.rename is Some || forall|j: int|
                    0 <= j < names.len() ==> !naming::names_a_video(#[trigger] names@[j]@),
            },
    {
        if self.rename.is_some() {
            return None;
        }
        let mut i: usize = names.len();
        while i > 0
            invariant
                i <= names.len(),
                self.rename is None,
                forall|j: int|
                    i <= j < names.len() ==> !naming::names_a_video(#[trigger] names@[j]@),
            decreases i,
        {
            i = i - 1;
            if naming::is_video(names[i].as_str()) {
                return Some(i);
            }
        }
        None
    }

    /// What the keys lead to while the contact sheet is up.
    pub fn sheet_keys(&self, k: SheetKeys) -> (i: SheetIntent)
        ensures
            i == sheet_intent(k, self.shelf.loaded is Some),
    {
        let acts: bool = self.shelf.loaded.is_some() && !k.delete;
        SheetIntent {
            close: k.escape,
            delete: self.shelf.loaded.is_some() && k.delete,
            zoom_in: acts && k.zoom_in,
            zoom_out: acts && k.zoom_out,
            sibling: if acts {
                sibling_asked(k.prev, k.next)
            } else {
                None
            },
        }
    }

    /// What fills the window while nothing plays: a failure goes before the
    /// sheet.
    pub fn panel(&self) -> (p: Panel)
        ensures
            p == if self.error is Some {
                Panel::Error
            } else if self.shelf.loaded is None {
                Panel::Hint
            } else {
                Panel::Sheet
            },
    {
        if self.error.is_some() {
            Panel::Error
        } else if self.shelf.loaded.is_none() {
            Panel::Hint
        } else {
            Panel::Sheet
        }
    }

    /// How opaque to draw the flash; it is dropped once it has faded out.
    pub fn flash_now(&mut self, now_ns: i64) -> (o: Option<Opacity>)
        requires
            old(self).wf(),
        ensures
            final(self).wf(),
            o == match old(self).flash {
                Some(f) => overlay::flash_opacity(f.started_ns as int, now_ns as int),
                None => None,
            },
            *final(self) == (Viewer {
                flash: if o is None {
                    None
                } else {
                    old(self).flash
                },
                ..*old(self)
            }),
    {
        let o = match &self.flash {
            Some(f) => f.opacity(now_ns),
            None => None,
        };
        if o.is_none() {
            self.flash = None;
        }
        o
    }

    /// How opaque to draw the help plate, its key being held or not.
    pub fn help_now(&mut self, held: bool, now_ns: i64) -> (o: Option<Opacity>)
        requires
            old(self).wf(),
        ensures
            final(self).wf(),
            *final(self) == (Viewer { help: final(self).help, ..*old(self) }),
            (final(self).help, o) == overlay::help_after(old(self).help, held, now_ns),
    {
        let (help, o) = self.help.advance(held, now_ns);
        self.help = help;
        o
    }
}

/// Which sibling the arrow keys ask for.
pub fn sibling_asked(prev: bool, next: bool) -> (d: Option<i32>)
    ensures
        d == asked_sibling(prev, next),
{
    if prev {
        Some(-1)
    } else if next {
        Some(1)
    } else {
        None
    }
}

/// What the keys lead to during playback, in the order in which they take
/// precedence.
pub fn playback_intent(k: PlaybackKeys, found: bool) -> (i: PlaybackIntent)
    ensures
        i == intent(k, found),
{
    if (k.prev || k.next) && found {
        PlaybackIntent::Step
    } else if k.delete {
        PlaybackIntent::Delete
    } else if k.enter {
        PlaybackIntent::Leave
    } else if k.escape {
        PlaybackIntent::Close
    } else {
        PlaybackIntent::Stay
    }
}

/// What the writer of a still came to, from the reply it sent, if it sent one: a
/// writer that went away without one has failed.
pub fn save_outcome(reply: Option<Result<(), String>>) -> (outcome: Result<(), String>)
    ensures
        match reply {
            Some(r) => outcome == r,
            None => outcome matches Err(e) && e@ == "the writer stopped unexpectedly"@,
        },
{
    match reply {
        Some(r) => r,
        None => Err("the writer stopped unexpectedly".to_owned()),
    }
}

/// Whether `f` is the confirmation of this, raised at `now`.
pub open spec fn flashes(f: Option<Flash>, kind: FlashKind, name: Seq<char>, now: i64) -> bool {
    f matches Some(x) && x.kind == kind && x.name@ == name && x.started_ns == now
}

fn put_thumb(l: &mut Loaded, i: usize, t: i64)
    requires
        i < usize::MAX,
    ensures
        thumb_taken(*old(l), *final(l), i as int, t),
{
    let ghost before = l.cells@;
    while l.cells.len() <= i
        invariant
            i < usize::MAX,
            *l == (Loaded { cells: l.cells, ..*old(l) }),
            before == old(l).cells@,
            l.cells@.len() >= before.len(),
            l.cells@.len() <= i + 1 || l.cells@.len() == before.len(),
            forall|j: int|
                0 <= j < l.cells@.len() ==> #[trigger] l.cells@[j] == if j < before.len() {
                    before[j]
                } else {
                    None
                },
        decreases i + 1 - l.cells@.len(),
    {
        l.cells.push(None);
    }
    l.cells.set(i, Some(t));
    if l.ready < usize::MAX {
        l.ready = l.ready + 1;
    }
    assert(l.cells@ =~= with_thumb(before, i as int, t));
}

} // verus!
