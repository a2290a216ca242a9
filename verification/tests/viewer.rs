//! The app between repaints.

use footage_viewer::naming::{refuse_taken, still_name};
use footage_viewer::overlay::{FlashKind, Opacity};
use footage_viewer::play_state::PlayCommand;
use footage_viewer::playback::Player;
use footage_viewer::shelf::{ClipPath, Loaded};
use footage_viewer::viewer::{
    playback_intent, save_outcome, sibling_asked, window_title, DialogStep, FrameKeys, Freed,
    GridKeys, GridMsg, Panel, PlayEnd, PlaybackIntent, PlaybackKeys, RenameCheck, Saving, SheetKeys, Viewer,
};

const S: i64 = 1_000_000_000;

fn at(name: &str) -> ClipPath {
    ClipPath { folder: "clips".to_string(), name: name.to_string() }
}

fn sheet(name: &str, thumbs: usize, done: bool, id: u64) -> Loaded {
    Loaded {
        id,
        path: at(name),
        duration_ns: 0,
        aspect: (1, 1),
        cells: vec![None; thumbs],
        ready: thumbs,
        done,
        cursor: 0,
    }
}

fn player(position_ns: i64, paused: bool) -> Player {
    Player { position_ns, frame: None, paused, scrub: None }
}

fn saving() -> Saving {
    Saving { clip: at("clip.mp4"), out: "clip.jpg".to_string(), time_ns: 0 }
}

const NO_KEYS: GridKeys =
    GridKeys { left: false, right: false, up: false, down: false, enter: false, save: false };

/// A folder that lives in memory: its files by name, with what they hold.
struct Folder(Vec<(String, String)>);

impl Folder {
    fn of(files: &[(&str, &str)]) -> Folder {
        Folder(files.iter().map(|(n, c)| (n.to_string(), c.to_string())).collect())
    }

    fn holds(&self, name: &str) -> bool {
        self.0.iter().any(|(n, _)| n == name)
    }

    fn read(&self, name: &str) -> &str {
        &self.0.iter().find(|(n, _)| n == name).expect("no such file").1
    }

    /// What a name resolves to, for a folder that tells names apart by case.
    fn resolve(&self, name: &str) -> Option<Vec<u8>> {
        if self.holds(name) {
            Some(name.as_bytes().to_vec())
        } else {
            None
        }
    }

    /// Renames over whatever is there, as a file system does.
    fn rename(&mut self, from: &str, to: &str) {
        let at = self.0.iter().position(|(n, _)| n == from).expect("no such file");
        let (_, held) = self.0.remove(at);
        self.0.retain(|(n, _)| n != to);
        self.0.push((to.to_string(), held));
    }
}

/// A rename as the app carries it out.
fn commit_rename(app: &mut Viewer, dir: &mut Folder, typed: &str) -> Result<(), String> {
    let old = match &app.shelf.loaded {
        Some(l) => l.path.copy(),
        None => return Ok(()),
    };
    let name = match app.check_rename(typed) {
        RenameCheck::Nothing => return Ok(()),
        RenameCheck::Refused(why) => return Err(why),
        RenameCheck::Candidate(name) => name,
    };
    refuse_taken(&name, Some(dir.holds(&name)), &dir.resolve(&name), &dir.resolve(&old.name))?;
    let freed = app.free_clip();
    dir.rename(&old.name, &name);
    let r = app.finish_rename(&old, &name, &freed, Ok(()), 77);
    assert!(r.refused.is_none());
    let still = still_name(&old.name);
    if dir.holds(&still) {
        dir.rename(&still, &still_name(&name));
    }
    Ok(())
}

fn app_on(name: &str) -> Viewer {
    let mut app = Viewer::new();
    app.shelf.loaded = Some(sheet(name, 5, true, 1));
    app
}

#[test]
fn waiting_for_a_still_returns_only_once_the_writer_let_go() {
    let mut app = Viewer::new();
    app.saving = Some(saving());

    // The delete learns that there is a writer to wait for, and hands its
    // outcome over once it has let go of the clip.
    assert!(app.free_clip().saving, "a writer holding the clip was not reported");
    app.finish_save(Ok(()), 5);

    assert!(app.saving.is_none(), "the save should have been settled");
    let flash = app.flash.as_ref().expect("a landed still is confirmed");
    assert_eq!((flash.kind, flash.name.as_str(), flash.started_ns), (FlashKind::StillSaved, "clip.jpg", 5));
    assert!(!app.free_clip().saving);
}

#[test]
fn a_still_asked_for_while_one_is_writing_is_held() {
    let mut app = Viewer::new();
    app.shelf.loaded = Some(sheet("clip.mp4", 1, true, 1));
    app.saving = Some(saving());

    let order = app.save_still(3 * S);

    assert!(order.is_none());
    assert!(
        matches!(&app.pending_save, Some((p, t)) if p.same(&at("clip.mp4")) && *t == 3 * S),
        "the request should have been held behind the running save"
    );
}

#[test]
fn waiting_for_a_still_drops_the_request_held_behind_it() {
    let mut app = Viewer::new();
    app.saving = Some(saving());
    app.pending_save = Some((at("clip.mp4"), 3 * S));

    app.finish_save(Ok(()), 0);

    assert!(app.pending_save.is_none(), "the held request should be gone");
    assert!(app.saving.is_none(), "no writer should have been started");
}

#[test]
fn a_held_still_starts_once_the_running_one_lands() {
    let mut app = Viewer::new();
    app.shelf.loaded = Some(sheet("clip.mp4", 1, true, 1));
    let first = app.save_still(S).expect("nothing was being written");
    assert_eq!((first.out.as_str(), first.time_ns), ("clip.jpg", S));
    assert!(app.save_still(2 * S).is_none());
    assert!(app.save_still(3 * S).is_none(), "the later request takes the place of the earlier");

    let second = app.settle_save(Err("disk full".to_string()), 9).expect("one was held");

    assert_eq!((second.out.as_str(), second.time_ns), ("clip.jpg", 3 * S));
    assert!(app.saving.is_some() && app.pending_save.is_none());
    assert_eq!(app.error.as_deref(), Some("Could not save the still \"clip.jpg\": disk full"));
    assert!(app.flash.is_none());
    assert!(app.settle_save(Ok(()), 9).is_none());
    assert!(app.saving.is_none());
}

#[test]
fn a_still_without_a_clip_is_nothing() {
    let mut app = Viewer::new();
    assert!(app.save_still(S).is_none());
    assert!(app.saving.is_none() && app.pending_save.is_none());
}

#[test]
fn a_writer_that_vanished_has_failed() {
    assert_eq!(save_outcome(Some(Ok(()))), Ok(()));
    assert_eq!(save_outcome(Some(Err("x".to_string()))), Err("x".to_string()));
    assert_eq!(save_outcome(None), Err("the writer stopped unexpectedly".to_string()));
}

#[test]
fn renaming_onto_a_sibling_is_refused_and_leaves_it_alone() {
    let mut dir = Folder::of(&[("a.mp4", "x"), ("b.mp4", "keep me")]);
    let mut app = app_on("a.mp4");

    assert_eq!(
        commit_rename(&mut app, &mut dir, "b.mp4"),
        Err("\"b.mp4\" is already in this folder.".to_string()),
        "renaming onto a sibling should be refused"
    );
    assert_eq!(dir.read("b.mp4"), "keep me", "the sibling was overwritten");
    assert!(dir.holds("a.mp4"), "the clip should still be where it was");
}

#[test]
fn renaming_moves_the_clip_and_keeps_the_grid() {
    let mut dir = Folder::of(&[("a.mp4", "x")]);
    let mut app = app_on("a.mp4");

    commit_rename(&mut app, &mut dir, "b.mp4").expect("the rename should land");

    assert!(dir.holds("b.mp4") && !dir.holds("a.mp4"), "the clip should have moved");
    let l = app.shelf.loaded.as_ref().expect("the clip should still be loaded");
    assert!(l.path.same(&at("b.mp4")), "the grid should follow the clip's new name");
    assert_eq!(l.cells.len(), 5, "a finished grid should not be re-read");
    assert_eq!(l.id, 1, "the grid was dropped instead of relabelled");
}

#[test]
fn renaming_to_the_same_name_is_a_no_op() {
    let mut dir = Folder::of(&[("a.mp4", "x")]);
    let mut app = app_on("a.mp4");

    commit_rename(&mut app, &mut dir, "a.mp4").expect("an unchanged name should just close");

    assert!(dir.holds("a.mp4"), "the clip should be untouched");
}

#[test]
fn a_clip_can_be_renamed_to_fix_its_case() {
    let mut dir = Folder::of(&[("clip.mp4", "x")]);
    let mut app = app_on("clip.mp4");

    commit_rename(&mut app, &mut dir, "Clip.mp4").expect("a change of case should be allowed");

    let listed: Vec<&str> = dir.0.iter().map(|(n, _)| n.as_str()).collect();
    assert_eq!(listed, ["Clip.mp4"], "the clip should have taken the new case");

    // Where names match whatever their case, the file that is already there
    // resolves to the clip itself.
    let clip = Some(b"clips/clip.mp4".to_vec());
    assert_eq!(refuse_taken("Clip.mp4", Some(true), &clip, &clip), Ok(()));
    // What cannot be resolved counts as taken.
    assert!(refuse_taken("Clip.mp4", Some(true), &None, &clip).is_err());
    assert!(refuse_taken("Clip.mp4", Some(true), &clip, &None).is_err());
    assert!(refuse_taken("Clip.mp4", None, &None, &clip).is_err());
    assert!(refuse_taken("Clip.mp4", Some(false), &None, &None).is_ok());
}

#[test]
fn renaming_takes_the_sidecar_still_along() {
    let mut dir = Folder::of(&[("a.mp4", "x"), ("a.jpg", "x")]);
    let mut app = app_on("a.mp4");

    commit_rename(&mut app, &mut dir, "b.mp4").expect("the rename should land");

    assert!(dir.holds("b.jpg"), "the still should have followed");
    assert!(!dir.holds("a.jpg"), "the old still should be gone");
    assert!(app.error.is_none(), "a still that moved should be reported as nothing");
}

#[test]
fn renaming_only_the_extension_leaves_the_still_alone() {
    let mut dir = Folder::of(&[("a.mp4", "x"), ("a.jpg", "x")]);
    let mut app = app_on("a.mp4");

    commit_rename(&mut app, &mut dir, "a.mkv").expect("the rename should land");

    assert!(dir.holds("a.mkv"), "the clip should have moved");
    assert!(dir.holds("a.jpg"), "the still should still be there");
    assert!(app.error.is_none(), "a still that never had to move was reported as stuck");
}

#[test]
fn malformed_names_are_refused() {
    let mut dir = Folder::of(&[("a.mp4", "x")]);
    let mut app = app_on("a.mp4");

    assert_eq!(
        commit_rename(&mut app, &mut dir, "a.txt"),
        Err("The name has to keep a video extension (mp4, mkv, mov, webm, avi, m4v).".to_string()),
        "a name that drops the video extension should be refused"
    );
    assert_eq!(
        commit_rename(&mut app, &mut dir, "   "),
        Err("The name cannot be empty.".to_string()),
        "an empty name should be refused"
    );
    assert_eq!(
        commit_rename(&mut app, &mut dir, "sub\\a.mp4"),
        Err("The name cannot contain \\ or /.".to_string()),
        "a path rather than a name should be refused"
    );
    assert!(dir.holds("a.mp4"), "a refused name should leave the clip where it is");
}

#[test]
fn a_rename_puts_everything_back_on_the_clip_that_is_there() {
    let mut app = Viewer::new();
    app.shelf.loaded = Some(sheet("a.mp4", 2, false, 1));
    app.playback.player = Some(player(4 * S, true));

    let freed = app.free_clip();
    assert_eq!((freed.reading, freed.playing_at, freed.saving), (Some(1), Some(4 * S), false));
    let r = app.finish_rename(&at("a.mp4"), "b.mp4", &freed, Err("in use".to_string()), 2);

    assert!(r.start_reader);
    assert_eq!(r.resume_at, Some(4 * S));
    assert_eq!(r.land, Some(PlayCommand::Scrub(4 * S)));
    assert_eq!(r.refused.as_deref(), Some("Could not rename it: in use"));
    let l = app.shelf.loaded.as_ref().unwrap();
    assert!(l.path.same(&at("a.mp4")), "a rename that failed keeps the old name");
    assert_eq!((l.id, l.done), (2, false));
    assert_eq!(app.playback.player.map(|p| (p.position_ns, p.paused)), Some((4 * S, true)));

    app.renamed_without_still("a.jpg");
    assert_eq!(
        app.error.as_deref(),
        Some("Renamed the clip, but its still \"a.jpg\" stayed — it may still be in use.")
    );
}

#[test]
fn the_rename_dialog_holds_playback_and_stays_up_on_a_refusal() {
    let mut app = app_on("a.mp4");
    app.playback.player = Some(player(S, false));

    assert!(matches!(app.begin_rename(), Some(PlayCommand::Pause)));
    assert_eq!(app.playback.player.map(|p| p.paused), Some(true));
    assert_eq!(app.rename.as_ref().map(|r| r.name.as_str()), Some("a.mp4"));
    assert!(matches!(app.rename_step(false, false), DialogStep::Open));
    let r = match app.rename_step(true, false) {
        DialogStep::Commit(r) => r,
        _ => panic!("a confirmed name is to be committed"),
    };
    app.rename_refused(r, "no".to_string());
    assert_eq!(app.rename.as_ref().and_then(|r| r.error.as_deref()), Some("no"));
    assert!(matches!(app.rename_step(true, true), DialogStep::Closed), "a cancel goes first");
    assert!(app.rename.is_none());

    // The clip going away closes the dialog.
    app.begin_rename();
    app.shelf.loaded = None;
    assert!(matches!(app.rename_step(true, false), DialogStep::Closed));
    assert!(app.begin_rename().is_none() && app.rename.is_none(), "nothing to rename");
    assert!(matches!(app.check_rename("b.mp4"), RenameCheck::Nothing));
}

#[test]
fn a_delete_lets_the_clip_go_or_says_why_not() {
    let mut app = app_on("a.mp4");
    let freed = app.free_clip();
    assert_eq!(app.finish_delete(&at("a.mp4"), &freed, false, 2, 7), (false, None));
    assert_eq!(
        app.error.as_deref(),
        Some("Could not send \"a.mp4\" to the Recycle Bin — it may still be in use.")
    );
    assert!(app.shelf.loaded.is_some() && app.flash.is_none());

    app.error = None;
    assert_eq!(app.finish_delete(&at("a.mp4"), &freed, true, 2, 7), (false, Some(1)));
    assert!(app.shelf.loaded.is_none() && app.error.is_none());
    let f = app.flash.as_ref().unwrap();
    assert_eq!((f.kind, f.name.as_str()), (FlashKind::Deleted, "a.mp4"));
    app.deleted_without_still("a.jpg");
    assert_eq!(
        app.error.as_deref(),
        Some("Deleted the clip, but its still \"a.jpg\" stayed — it may still be in use.")
    );

    // A reader that was stopped for a delete that failed starts over.
    let stopped = Freed { playing_at: None, reading: Some(1), saving: false };
    assert_eq!(app.finish_delete(&at("a.mp4"), &stopped, false, 3, 7), (true, None));
    assert_eq!(app.shelf.loaded.as_ref().map(|l| l.id), Some(3));
}

#[test]
fn a_reader_fills_the_sheet() {
    let mut app = Viewer::new();
    app.shelf.loaded = Some(Loaded::start(at("a.mp4"), 1));

    assert!(app.take_msg(GridMsg::Meta(8 * S, 3840, 2160)).is_none());
    assert!(app.take_msg(GridMsg::Thumb(2, 2 * S)).is_none());
    assert!(app.take_msg(GridMsg::Thumb(0, 5)).is_none());
    let l = app.shelf.loaded.as_ref().unwrap();
    assert_eq!((l.duration_ns, l.aspect, l.ready), (8 * S, (2160, 3840), 2));
    assert_eq!(l.cells, vec![Some(5), None, Some(2 * S)]);
    assert!(app.reading());
    assert!(app.take_msg(GridMsg::Done).is_none());
    assert!(!app.reading());

    // A frame without width leaves the aspect as it was.
    app.take_msg(GridMsg::Meta(S, 0, 9));
    assert_eq!(app.shelf.loaded.as_ref().unwrap().aspect, (2160, 3840));

    assert_eq!(app.take_msg(GridMsg::Failed("broken".to_string())), Some(1));
    assert!(app.shelf.loaded.is_none());
    assert_eq!(app.error.as_deref(), Some("broken"));
    assert!(!app.reading());

    app.shelf.loaded = Some(Loaded::start(at("b.mp4"), 2));
    assert!(app.take_msg(GridMsg::Gone).is_none());
    assert!(!app.reading(), "a reader that vanished is not waited for");
}

#[test]
fn the_keys_move_the_cursor_and_act_on_the_cell_under_it() {
    let mut app = Viewer::new();
    app.shelf.loaded = Some(Loaded {
        cells: vec![Some(0), Some(S), None, Some(3 * S), Some(4 * S)],
        ..sheet("a.mp4", 5, true, 1)
    });

    let r = app.grid_keys(GridKeys { right: true, enter: true, ..NO_KEYS });
    assert_eq!((r.moved, r.play_from, r.save_at), (true, Some(S), None));
    let r = app.grid_keys(GridKeys { right: true, save: true, ..NO_KEYS });
    assert_eq!((r.moved, r.save_at), (true, None), "nothing has come there yet");
    let r = app.grid_keys(GridKeys { left: true, right: true, ..NO_KEYS });
    assert!(!r.moved, "opposite keys cancel");
    let r = app.grid_keys(GridKeys { down: true, enter: true, ..NO_KEYS });
    assert_eq!(r.play_from, Some(4 * S));

    let mut empty = Viewer::new();
    let r = empty.grid_keys(GridKeys { right: true, enter: true, ..NO_KEYS });
    assert_eq!((r.moved, r.play_from, r.save_at), (false, None, None));
}

#[test]
fn the_columns_follow_their_keys_within_bounds() {
    let mut app = Viewer::new();
    app.column_keys(true, false);
    assert_eq!(app.grid_cols, 4, "without a clip they do nothing");
    app.shelf.loaded = Some(sheet("a.mp4", 1, true, 1));
    app.column_keys(true, false);
    assert_eq!(app.grid_cols, 3);
    for _ in 0..20 {
        app.column_keys(true, false);
    }
    assert_eq!(app.grid_cols, 1);
    for _ in 0..20 {
        app.column_keys(false, true);
    }
    assert_eq!(app.grid_cols, 12);
}

#[test]
fn the_last_video_dropped_is_opened() {
    let names: Vec<String> =
        ["a.mp4", "b.mov", "b.jpg"].iter().map(|n| n.to_string()).collect();
    let mut app = app_on("x.mp4");
    assert_eq!(app.take_drop(&names), Some(1));
    assert_eq!(app.take_drop(&vec!["a.jpg".to_string()]), None);
    app.begin_rename();
    assert_eq!(app.take_drop(&names), None, "not while a name is being typed");
}

#[test]
fn playing_needs_a_clip() {
    let mut app = Viewer::new();
    assert!(!app.play(S));
    app.shelf.loaded = Some(sheet("a.mp4", 1, true, 1));
    assert!(app.play(S));
    assert_eq!(app.playback.player, Some(player(S, false)));
}

#[test]
fn a_session_that_ended_ends_playback() {
    let mut app = app_on("a.mp4");
    assert!(app.advance_player(None, PlayEnd::Closed), "nothing plays, nothing ends");
    app.play(0);
    app.playback.scrub_in_flight = true;

    assert!(app.advance_player(Some((2 * S, (320, 180))), PlayEnd::Running));
    let p = app.playback.player.unwrap();
    assert_eq!((p.position_ns, p.frame), (2 * S, Some((320, 180))));
    assert!(!app.playback.scrub_in_flight, "the seek has landed");
    assert!(!app.advance_player(None, PlayEnd::Closed));
    assert!(app.error.is_none());
    assert!(!app.advance_player(Some((3 * S, (1, 1))), PlayEnd::Failed("gone".to_string())));
    assert_eq!(app.error.as_deref(), Some("gone"));
    assert_eq!(app.playback.player.map(|p| p.position_ns), Some(2 * S));
}

#[test]
fn the_title_names_the_clip_on_screen() {
    let mut app = Viewer::new();
    assert!(!app.sync_title());
    app.shelf.loaded = Some(sheet("a.mp4", 1, true, 1));
    assert!(app.sync_title());
    assert!(!app.sync_title());
    app.shelf.loaded = Some(sheet("b.mp4", 1, true, 1));
    assert!(app.sync_title());
    app.shelf.loaded = None;
    assert!(app.sync_title());
    assert_eq!(window_title(Some("clips/a.mp4")), "clips/a.mp4 — footage_viewer");
    assert_eq!(window_title(None), "footage_viewer");
}

#[test]
fn keys_during_playback_take_precedence_in_order() {
    let none =
        PlaybackKeys { prev: false, next: false, delete: false, enter: false, escape: false };
    let all = PlaybackKeys { prev: true, next: true, delete: true, enter: true, escape: true };
    assert_eq!(playback_intent(all, true), PlaybackIntent::Step);
    assert_eq!(playback_intent(all, false), PlaybackIntent::Delete);
    assert_eq!(
        playback_intent(PlaybackKeys { enter: true, escape: true, ..none }, true),
        PlaybackIntent::Leave
    );
    assert_eq!(
        playback_intent(PlaybackKeys { escape: true, ..none }, true),
        PlaybackIntent::Close
    );
    assert_eq!(playback_intent(none, true), PlaybackIntent::Stay);
    assert_eq!(sibling_asked(true, true), Some(-1));
    assert_eq!(sibling_asked(false, true), Some(1));
    assert_eq!(sibling_asked(false, false), None);
}

#[test]
fn keys_on_the_sheet_need_a_clip_and_yield_to_a_deletion() {
    let all = SheetKeys {
        escape: true,
        delete: true,
        zoom_in: true,
        zoom_out: true,
        prev: true,
        next: true,
    };
    let i = Viewer::new().sheet_keys(all);
    assert_eq!((i.close, i.delete, i.zoom_in, i.zoom_out, i.sibling), (true, false, false, false, None));
    let app = app_on("a.mp4");
    let i = app.sheet_keys(all);
    assert_eq!((i.close, i.delete, i.zoom_in, i.sibling), (true, true, false, None));
    let i = app.sheet_keys(SheetKeys { delete: false, prev: false, ..all });
    assert_eq!((i.delete, i.zoom_in, i.zoom_out, i.sibling), (false, true, true, Some(1)));
}

#[test]
fn a_failure_goes_before_the_sheet() {
    let mut app = Viewer::new();
    assert_eq!(app.panel(), Panel::Hint);
    app.shelf.loaded = Some(sheet("a.mp4", 1, true, 1));
    assert_eq!(app.panel(), Panel::Sheet);
    app.error = Some("no".to_string());
    assert_eq!(app.panel(), Panel::Error);
}

#[test]
fn the_flash_and_the_plate_are_kept_by_the_app() {
    let mut app = app_on("a.mp4");
    assert!(app.flash_now(0).is_none());
    app.saving = Some(saving());
    app.settle_save(Ok(()), S);
    assert_eq!(app.flash_now(S), Some(Opacity { num: 350_000_000, den: 350_000_000 }));
    assert!(app.flash_now(S + 700_000_000).is_none());
    assert!(app.flash.is_none(), "a faded flash is dropped");

    assert!(app.help_now(false, 0).is_none());
    assert!(app.help_now(true, 0).is_some());
    assert_eq!(app.help_now(false, 0), Some(Opacity { num: 200_000_000, den: 200_000_000 }));
    assert_eq!(app.help_now(false, 50_000_000), Some(Opacity { num: 150_000_000, den: 200_000_000 }));
}

#[test]
fn a_repaint_of_playback_takes_its_keys_in_order() {
    let none = FrameKeys { pause: false, save: false, dir: 0 };
    let mut app = app_on("a.mp4");
    app.take_msg(GridMsg::Meta(8 * S, 1920, 1080));
    app.play(0);

    // The still is of the frame that has just arrived, and a step goes on from it.
    let keys = FrameKeys { pause: true, save: true, dir: 1 };
    let t = app.playback_turn(keys, 0, Some((2 * S, (320, 180))), PlayEnd::Running);
    assert!(!t.over);
    assert!(matches!(t.pause, Some(PlayCommand::Pause)));
    assert_eq!(t.save.map(|s| s.time_ns), Some(2 * S));
    assert!(matches!(t.step, Some(PlayCommand::Scrub(at)) if at == 2 * S + S / 2));

    // A session that ended takes nothing more.
    let t = app.playback_turn(FrameKeys { save: true, dir: -1, ..none }, 1, None, PlayEnd::Closed);
    assert!(t.over && t.save.is_none() && t.step.is_none() && t.pause.is_none());
    assert!(app.playback.player.is_none() && app.error.is_none());

    app.play(0);
    let t = app.playback_turn(none, 2, Some((S, (1, 1))), PlayEnd::Failed("gone".to_string()));
    assert!(t.over && app.playback.player.is_none());
    assert_eq!(app.error.as_deref(), Some("gone"));
}
