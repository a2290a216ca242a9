//! What holds of the app across several of its steps.

use vstd::prelude::*;

use crate::grid_view;
use crate::naming;
use crate::overlay::FlashKind;
use crate::play_state::PlayCommand;
use crate::playback::{Playback, Player};
use crate::shelf;
use crate::shelf::Loaded;
use crate::view::Point;
use crate::viewer;
use crate::viewer::{
    Freed, GridKeys, PlaybackIntent, PlaybackKeys, RenameOutcome, Saving, SheetKeys, Viewer,
};

verus! {

/// A clip whose file has been freed is neither played nor read by the app any
/// more, and the sheets of the other clips are as they were.
pub proof fn a_freed_clip_is_held_by_nothing(before: Viewer, after: Viewer, f: Freed)
    requires
        viewer::clip_freed(before, after, f),
    ensures
        after.playback.player is None,
        after.shelf.loaded is Some ==> after.shelf.loaded->0.done,
        before.saving is Some ==> f.saving,
        after.shelf.recent() == before.shelf.recent(),
        after.shelf.prefetch == before.shelf.prefetch,
{
}

/// A rename that did not land puts everything back on the clip under its old
/// name: a finished sheet with all its cells, a reader for one that was being
/// read, and playback on the frame it showed, held.
pub proof fn a_failed_rename_puts_everything_back(
    before: Viewer,
    freed: Viewer,
    after: Viewer,
    f: Freed,
    new_name: Seq<char>,
    why: String,
    id: u64,
    r: RenameOutcome,
)
    requires
        before.shelf.loaded is Some,
        viewer::clip_freed(before, freed, f),
        viewer::rename_taken(
            freed,
            after,
            before.shelf.loaded->0.path@,
            new_name,
            f,
            Err(why),
            id,
            r,
        ),
    ensures
        viewer::path_of(after.shelf.loaded) == viewer::path_of(before.shelf.loaded),
        r.start_reader == !before.shelf.loaded->0.done,
        before.shelf.loaded->0.done ==> {
            &&& after.shelf.loaded->0.done
            &&& after.shelf.loaded->0.cells == before.shelf.loaded->0.cells
            &&& after.shelf.loaded->0.cursor == before.shelf.loaded->0.cursor
        },
        before.playback.player is Some ==> {
            &&& after.playback.player is Some
            &&& after.playback.player->0.position_ns == before.playback.player->0.position_ns
            &&& after.playback.player->0.paused
            &&& r.resume_at == Some(before.playback.player->0.position_ns)
            &&& r.land == Some(PlayCommand::Scrub(before.playback.player->0.position_ns))
        },
        before.playback.player is None ==> after.playback.player is None && r.resume_at is None,
        r.refused is Some,
        after.error == before.error,
{
    let l = before.shelf.loaded->0;
    if l.done {
        assert(freed.shelf.loaded == before.shelf.loaded);
    }
}

/// A rename that landed leaves the app on the renamed clip, in the same folder,
/// and does not read a finished clip again.
pub proof fn a_rename_keeps_the_sheet(
    before: Viewer,
    freed: Viewer,
    after: Viewer,
    f: Freed,
    new_name: Seq<char>,
    id: u64,
    r: RenameOutcome,
)
    requires
        before.shelf.loaded is Some,
        viewer::clip_freed(before, freed, f),
        viewer::rename_taken(
            freed,
            after,
            before.shelf.loaded->0.path@,
            new_name,
            f,
            Ok(()),
            id,
            r,
        ),
    ensures
        viewer::path_of(after.shelf.loaded) == Some((before.shelf.loaded->0.path@.0, new_name)),
        r.start_reader == !before.shelf.loaded->0.done,
        before.shelf.loaded->0.done ==> {
            &&& after.shelf.loaded->0.cells == before.shelf.loaded->0.cells
            &&& after.shelf.loaded->0.id == before.shelf.loaded->0.id
        },
        r.refused is None,
{
    let l = before.shelf.loaded->0;
    if l.done {
        assert(freed.shelf.loaded == before.shelf.loaded);
    }
}

/// A deletion that was turned down leaves the app on the clip, with its sheet
/// whole or being read again, and says why; one that went leaves nothing of the
/// clip at hand that was on screen.
pub proof fn a_deletion_goes_all_the_way_or_nowhere(
    before: Viewer,
    freed: Viewer,
    after: Viewer,
    f: Freed,
    deleted: bool,
    id: u64,
    now: i64,
    r: (bool, Option<u64>),
)
    requires
        before.shelf.loaded is Some,
        viewer::clip_freed(before, freed, f),
        viewer::delete_taken(
            freed,
            after,
            before.shelf.loaded->0.path@,
            f,
            deleted,
            id,
            now,
            r,
        ),
    ensures
        deleted ==> after.shelf.loaded is None && after.error == before.error,
        !deleted ==> {
            &&& viewer::path_of(after.shelf.loaded) == viewer::path_of(before.shelf.loaded)
            &&& before.shelf.loaded->0.done ==> after.shelf.loaded == before.shelf.loaded
            &&& r.0 == !before.shelf.loaded->0.done
            &&& after.error is Some
            &&& after.flash == before.flash
        },
        after.shelf.recent() == before.shelf.recent(),
{
}

/// Stills are written one at a time: a request made while one is being written
/// starts nothing, and is what is started once that one has landed, whichever
/// way it went.
pub proof fn stills_are_written_one_at_a_time(
    before: Viewer,
    asked: Viewer,
    settled: Viewer,
    t: i64,
    held: Option<Saving>,
    outcome: Result<(), String>,
    now: i64,
    order: Option<Saving>,
)
    requires
        before.shelf.loaded is Some,
        before.saving is Some,
        viewer::still_asked(before, asked, t, held),
        viewer::still_settled(asked, settled, outcome, now, order),
    ensures
        held is None,
        asked.saving == before.saving,
        order is Some,
        viewer::orders(order->0, before.shelf.loaded->0.path@, t),
        settled.saving is Some,
        settled.pending_save is None,
{
}

/// A still asked for while nothing is being written is started at once, beside
/// its clip and under its clip's stem, and nothing is held behind it.
pub proof fn a_still_goes_beside_its_clip(
    before: Viewer,
    after: Viewer,
    t: i64,
    order: Option<Saving>,
)
    requires
        before.shelf.loaded is Some,
        before.saving is None,
        viewer::still_asked(before, after, t, order),
    ensures
        order is Some,
        order->0.clip@ == before.shelf.loaded->0.path@,
        order->0.out@ == naming::still_of(before.shelf.loaded->0.path@.1),
        order->0.time_ns == t,
        after.saving is Some,
        after.pending_save == before.pending_save,
{
}

/// Opening a clip leaves it on screen, whole or being read, and nothing else of
/// the clip before: neither its playback, nor its zoom, nor its failure, nor its
/// look-ahead.
pub proof fn an_opened_clip_starts_afresh(
    before: Viewer,
    after: Viewer,
    path: (Seq<char>, Seq<char>),
    id: u64,
    source: shelf::Source,
    gone: Seq<u64>,
)
    requires
        shelf::opened(before.shelf, after.shelf, path, id, source, gone),
        after == viewer::reset_for(before, after.shelf),
    ensures
        viewer::path_of(after.shelf.loaded) == Some(path),
        after.playback == (Playback { player: None, ..before.playback }),
        after.view.zoom == crate::view::ZOOM_ONE,
        after.error is None,
        !after.looked_ahead,
        after.shelf.prefetch is None,
{
}

/// A thumbnail that comes is put in the cell of its number, and every other cell
/// stays as it was, or empty where there was none yet; in which order thumbnails
/// come makes no difference.
pub proof fn a_thumbnail_goes_in_its_own_cell(
    cells: Seq<Option<i64>>,
    i: int,
    t: i64,
    j: int,
    u: i64,
)
    requires
        0 <= i,
        0 <= j,
        i != j,
    ensures
        viewer::with_thumb(cells, i, t).len() == if i < cells.len() {
            cells.len() as int
        } else {
            i + 1
        },
        viewer::with_thumb(cells, i, t)[i] == Some(t),
        j < cells.len() ==> viewer::with_thumb(cells, i, t)[j] == cells[j],
        cells.len() <= j < i ==> viewer::with_thumb(cells, i, t)[j] is None,
        viewer::with_thumb(viewer::with_thumb(cells, i, t), j, u) == viewer::with_thumb(
            viewer::with_thumb(cells, j, u),
            i,
            t,
        ),
{
    assert(viewer::with_thumb(viewer::with_thumb(cells, i, t), j, u) =~= viewer::with_thumb(
        viewer::with_thumb(cells, j, u),
        i,
        t,
    ));
}

/// A thumbnail is counted, and changes nothing of its sheet but the cells.
pub proof fn a_thumbnail_is_counted(before: Loaded, after: Loaded, i: int, t: i64)
    requires
        viewer::thumb_taken(before, after, i, t),
        before.ready < usize::MAX,
    ensures
        after.ready == before.ready + 1,
        after.cells@ == viewer::with_thumb(before.cells@, i, t),
        (after.id, after.path, after.duration_ns) == (before.id, before.path, before.duration_ns),
        (after.aspect, after.done, after.cursor) == (before.aspect, before.done, before.cursor),
{
}

/// A still that was written is confirmed by the name of its file, and one that was
/// not is said to have failed, and why; nothing else changes but what is being
/// written.
pub proof fn a_still_is_confirmed_or_said_to_have_failed(
    before: Viewer,
    after: Viewer,
    outcome: Result<(), String>,
    now: i64,
    order: Option<Saving>,
)
    requires
        before.saving is Some,
        viewer::still_settled(before, after, outcome, now, order),
    ensures
        outcome is Ok ==> {
            &&& after.flash is Some
            &&& after.flash->0.kind == FlashKind::StillSaved
            &&& after.flash->0.name@ == before.saving->0.out@
            &&& after.flash->0.started_ns == now
            &&& after.error == before.error
        },
        outcome is Err ==> {
            &&& after.flash == before.flash
            &&& after.error is Some
            &&& after.error->0@ == "Could not save the still "@ + seq!['"']
                + before.saving->0.out@ + seq!['"'] + ": "@ + outcome->Err_0@
        },
        before.pending_save is None ==> order is None && after.saving is None,
        before.pending_save matches Some((clip, t)) ==> order is Some && order->0.clip@ == clip@
            && order->0.time_ns == t && order->0.out@ == naming::still_of(clip@.1) && after.saving is
            Some && viewer::same_order(after.saving->0, order->0),
        after.pending_save is None,
        (after.shelf, after.playback, after.view) == (before.shelf, before.playback, before.view),
        (after.rename, after.title, after.help) == (before.rename, before.title, before.help),
        (after.grid_cols, after.looked_ahead) == (before.grid_cols, before.looked_ahead),
{
    reveal_strlit("\"");
    if outcome is Err {
        let e = outcome->Err_0@;
        let s = before.saving->0.out@;
        let lead = "Could not save the still "@;
        assert("\""@ =~= seq!['"']);
        assert(naming::quoted(lead, s, ": "@ + e) =~= lead + seq!['"'] + s + seq!['"'] + ": "@ + e);
    }
}

/// Two orders are the same when they write the same frame of the same clip to the
/// same file. Without a clip there is no still to ask for, and one asked for while
/// another is being written takes the place of any that waited.
pub proof fn the_last_still_asked_for_waits(
    before: Viewer,
    after: Viewer,
    t: i64,
    order: Option<Saving>,
    a: Saving,
    b: Saving,
)
    requires
        viewer::still_asked(before, after, t, order),
    ensures
        viewer::same_order(a, b) <==> a.clip@ == b.clip@ && a.out@ == b.out@ && a.time_ns
            == b.time_ns,
        before.shelf.loaded is None ==> order is None && after.saving == before.saving
            && after.pending_save == before.pending_save,
        before.shelf.loaded is Some && before.saving is Some ==> order is None && after.saving
            == before.saving && after.pending_save is Some && (after.pending_save matches Some(
            (clip, at),
        ) ==> clip@ == before.shelf.loaded->0.path@ && at == t),
        before.shelf.loaded is Some && before.saving is None ==> after.saving is Some
            && after.saving->0.clip@ == before.shelf.loaded->0.path@ && after.saving->0.time_ns == t
            && after.saving->0.out@ == naming::still_of(before.shelf.loaded->0.path@.1),
{
}

/// Freeing a clip's file says what was stopped: where playback was, the number of
/// a reader that had not finished, and whether a still is being written. A sheet
/// read to the end stays, and nothing but playback and an unfinished sheet goes.
pub proof fn freeing_a_clip_says_what_was_stopped(before: Viewer, after: Viewer, f: Freed)
    requires
        viewer::clip_freed(before, after, f),
    ensures
        before.playback.player matches Some(p) ==> f.playing_at == Some(p.position_ns),
        before.playback.player is None ==> f.playing_at is None,
        f.saving <==> before.saving is Some,
        before.shelf.loaded matches Some(l) ==> {
            &&& l.done ==> f.reading is None && after.shelf.loaded == Some(l)
            &&& !l.done ==> f.reading == Some(l.id) && after.shelf.loaded is None
        },
        before.shelf.loaded is None ==> f.reading is None && after.shelf.loaded is None,
        (after.view, after.flash, after.help) == (before.view, before.flash, before.help),
        (after.rename, after.saving, after.pending_save) == (
            before.rename,
            before.saving,
            before.pending_save,
        ),
        (after.error, after.title, after.grid_cols) == (
            before.error,
            before.title,
            before.grid_cols,
        ),
        after.looked_ahead == before.looked_ahead,
{
}

/// Whichever way a rename went, playback that was stopped for it goes on, held, on
/// the frame it showed, a reader that was stopped starts over under the new
/// number, and the rest of the app is as it was. A rename that was turned down
/// says why.
pub proof fn a_rename_takes_up_what_it_stopped(
    before: Viewer,
    after: Viewer,
    old_path: (Seq<char>, Seq<char>),
    new_name: Seq<char>,
    f: Freed,
    outcome: Result<(), String>,
    id: u64,
    r: RenameOutcome,
)
    requires
        viewer::rename_taken(before, after, old_path, new_name, f, outcome, id, r),
    ensures
        r.start_reader <==> f.reading is Some,
        r.start_reader ==> after.shelf.loaded is Some && after.shelf.loaded->0.id == id
            && after.shelf.loaded->0.cells@.len() == 0 && !after.shelf.loaded->0.done,
        after.shelf.loaded matches Some(l) ==> l.path@.0 == old_path.0 && (outcome is Ok
            ==> l.path@.1 == new_name) && (outcome is Err ==> l.path@.1 == old_path.1),
        after.shelf.loaded is Some ==> r.resume_at == f.playing_at,
        r.resume_at matches Some(at) ==> {
            &&& r.land == Some(PlayCommand::Scrub(at))
            &&& after.playback.player == Some(
                Player { position_ns: at, frame: None, paused: true, scrub: None },
            )
        },
        r.resume_at is None ==> r.land is None && after.playback == before.playback,
        outcome matches Err(e) ==> r.refused is Some && r.refused->0@ == "Could not rename it: "@
            + e@,
        outcome is Ok ==> r.refused is None,
        (after.view, after.flash, after.help) == (before.view, before.flash, before.help),
        (after.rename, after.saving, after.pending_save) == (
            before.rename,
            before.saving,
            before.pending_save,
        ),
        (after.error, after.title, after.grid_cols) == (
            before.error,
            before.title,
            before.grid_cols,
        ),
        after.looked_ahead == before.looked_ahead,
{
}

/// A clip that went to the bin is confirmed by its name and its sheet let go by
/// its number; one that was turned down is named in the reason, and a reader that
/// was stopped for it starts over under the new number.
pub proof fn a_deletion_is_confirmed_or_its_refusal_told(
    before: Viewer,
    after: Viewer,
    path: (Seq<char>, Seq<char>),
    f: Freed,
    deleted: bool,
    id: u64,
    now: i64,
    r: (bool, Option<u64>),
)
    requires
        viewer::delete_taken(before, after, path, f, deleted, id, now, r),
    ensures
        deleted ==> {
            &&& after.flash is Some
            &&& after.flash->0.kind == FlashKind::Deleted
            &&& after.flash->0.name@ == path.1
            &&& after.flash->0.started_ns == now
            &&& !r.0
            &&& before.shelf.loaded matches Some(l) ==> r.1 == Some(l.id)
            &&& before.shelf.loaded is None ==> r.1 is None
        },
        !deleted ==> {
            &&& r.1 is None
            &&& r.0 <==> f.reading is Some
            &&& r.0 ==> after.shelf.loaded is Some && after.shelf.loaded->0.id == id
                && after.shelf.loaded->0.path@ == path && after.shelf.loaded->0.cells@.len() == 0
            &&& !r.0 ==> after.shelf.loaded == before.shelf.loaded
            &&& after.error is Some
            &&& after.error->0@ == "Could not send "@ + seq!['"'] + path.1 + seq!['"']
                + " to the Recycle Bin — it may still be in use."@
        },
        (after.playback, after.view, after.help) == (before.playback, before.view, before.help),
        (after.rename, after.saving, after.pending_save) == (
            before.rename,
            before.saving,
            before.pending_save,
        ),
        (after.title, after.grid_cols, after.looked_ahead) == (
            before.title,
            before.grid_cols,
            before.looked_ahead,
        ),
{
    reveal_strlit("\"");
    assert("\""@ =~= seq!['"']);
}

/// During playback a neighbour that exists goes before a deletion, a deletion
/// before going back to the sheet, and that before closing; a key for a neighbour
/// that does not exist does nothing.
pub proof fn the_first_key_that_can_act_does(k: PlaybackKeys, found: bool)
    ensures
        viewer::intent(k, found) == PlaybackIntent::Step <==> found && (k.prev || k.next),
        viewer::intent(k, found) == PlaybackIntent::Delete <==> k.delete && !(found && (k.prev
            || k.next)),
        viewer::intent(k, found) == PlaybackIntent::Leave <==> k.enter && !k.delete && !(found && (
        k.prev || k.next)),
        viewer::intent(k, found) == PlaybackIntent::Close <==> k.escape && !k.enter && !k.delete
            && !(found && (k.prev || k.next)),
{
}

/// On the contact sheet only the key that closes the app acts without a clip; a
/// deletion keeps every other key from acting; and the previous sibling goes
/// before the next.
pub proof fn a_deletion_keeps_other_keys_from_acting(k: SheetKeys, loaded: bool)
    ensures
        ({
            let i = viewer::sheet_intent(k, loaded);
            let acts = loaded && !k.delete;
            &&& i.close <==> k.escape
            &&& i.delete <==> loaded && k.delete
            &&& i.zoom_in <==> k.zoom_in && acts
            &&& i.zoom_out <==> k.zoom_out && acts
            &&& i.sibling == Some(-1i32) <==> k.prev && acts
            &&& i.sibling == Some(1i32) <==> k.next && !k.prev && acts
            &&& i.sibling is None <==> !acts || !(k.prev || k.next)
        }),
{
}

/// The pause key and the latest frame are both taken: the pause is the other one
/// exactly when the key was pressed, and the position is that of the frame.
pub proof fn a_repaint_takes_the_pause_and_the_frame(
    s: Playback,
    p: Player,
    pause: bool,
    t: i64,
    size: (u32, u32),
)
    ensures
        ({
            let on = Playback { player: Some(p), ..s };
            let a = viewer::refreshed(on, pause, Some((t, size)));
            let b = viewer::refreshed(on, pause, None);
            &&& a.player is Some && b.player is Some
            &&& a.player->0.paused == (p.paused != pause)
            &&& b.player->0.paused == (p.paused != pause)
            &&& a.player->0.position_ns == t
            &&& a.player->0.frame == Some(size)
            &&& (b.player->0.position_ns, b.player->0.frame) == (p.position_ns, p.frame)
            &&& !a.scrub_in_flight
            &&& b.scrub_in_flight == s.scrub_in_flight
            &&& (a.seek_dir, a.seek_next_ns, a.seek_target_ns) == (
                s.seek_dir,
                s.seek_next_ns,
                s.seek_target_ns,
            )
        }),
{
}

/// Opposite keys cancel each other, and the cursor stays where it is; otherwise it
/// moves by one cell along each axis that a key was pressed for. What is played or
/// saved is what has come under it.
pub proof fn the_cursor_follows_its_keys(l: Loaded, cols: int, k: GridKeys, cursor: int)
    ensures
        k.left == k.right && k.up == k.down ==> viewer::cursor_by_keys(l, cols, k) == l.cursor,
        l.cells@.len() == 0 ==> viewer::cursor_by_keys(l, cols, k) == l.cursor,
        l.cells@.len() > 0 && k.right && !k.left && k.up == k.down ==> viewer::cursor_by_keys(
            l,
            cols,
            k,
        ) == grid_view::cursor_after(l.cursor as int, l.cells@.len() as int, cols, 1, 0),
        l.cells@.len() > 0 && k.left && !k.right && k.up == k.down ==> viewer::cursor_by_keys(
            l,
            cols,
            k,
        ) == grid_view::cursor_after(l.cursor as int, l.cells@.len() as int, cols, -1, 0),
        l.cells@.len() > 0 && k.down && !k.up && k.left == k.right ==> viewer::cursor_by_keys(
            l,
            cols,
            k,
        ) == grid_view::cursor_after(l.cursor as int, l.cells@.len() as int, cols, 0, 1),
        l.cells@.len() > 0 && k.up && !k.down && k.left == k.right ==> viewer::cursor_by_keys(
            l,
            cols,
            k,
        ) == grid_view::cursor_after(l.cursor as int, l.cells@.len() as int, cols, 0, -1),
        0 <= cursor < l.cells@.len() ==> viewer::time_under(l, cursor) == l.cells@[cursor],
        cursor >= l.cells@.len() ==> viewer::time_under(l, cursor) is None,
        viewer::key_step(true, false) == -1,
        viewer::key_step(false, true) == 1,
        viewer::key_step(k.left, k.left) == 0,
{
}

/// A window that shows a clip is titled by the clip's path and the app's name, and
/// any other by the name alone.
pub proof fn a_window_is_titled_by_its_clip(path: Seq<char>)
    ensures
        viewer::title_text(None) == "footage_viewer"@,
        viewer::title_text(Some(path)).take(path.len() as int) == path,
        viewer::title_text(Some(path)).skip(path.len() as int) == " — footage_viewer"@,
{
    let s = viewer::title_text(Some(path));
    let tail = " — footage_viewer"@;
    assert(s.take(path.len() as int) =~= path);
    assert(s.skip(path.len() as int) =~= tail);
}

/// A clip that is opened starts with the whole frame centered, and opening it
/// touches nothing that is not about the clip on screen.
pub proof fn opening_a_clip_keeps_the_rest_of_the_app(before: Viewer, sheets: shelf::Shelf)
    ensures
        ({
            let a = viewer::reset_for(before, sheets);
            &&& a.shelf == sheets
            &&& a.view.offset == (Point { x: 0, y: 0 })
            &&& a.view.zoom == 1_000_000
            &&& a.playback.player is None
            &&& a.error is None
            &&& (a.grid_cols, a.flash, a.help) == (before.grid_cols, before.flash, before.help)
            &&& (a.rename, a.saving, a.pending_save) == (
                before.rename,
                before.saving,
                before.pending_save,
            )
            &&& a.title == before.title
        }),
        sheets.loaded matches Some(l) ==> viewer::clip_duration(sheets.loaded) == l.duration_ns
            && viewer::path_of(sheets.loaded) == Some(l.path@),
        sheets.loaded is None ==> viewer::clip_duration(sheets.loaded) == 0 && viewer::path_of(
            sheets.loaded,
        ) is None,
{
}

/// A title names a clip by its path, and the clip on screen is told by its own.
pub proof fn a_clip_is_told_by_its_path(p: shelf::ClipPath, l: Loaded)
    ensures
        viewer::named(Some(p)) == Some(p@),
        viewer::named(None) is None,
        viewer::path_of(Some(l)) == Some(l.path@),
        viewer::path_of(None) is None,
        viewer::asked_sibling(true, true) == Some(-1i32),
        viewer::asked_sibling(true, false) == Some(-1i32),
        viewer::asked_sibling(false, true) == Some(1i32),
        viewer::asked_sibling(false, false) is None,
{
}

} // verus!
