//! The contact sheets at hand, and how the app moves between clips.

use footage_viewer::playback::Player;
use footage_viewer::shelf::{ClipPath, Loaded, Shelf, Source, RECENT_MAX_THUMBS};
use footage_viewer::viewer::Viewer;

fn at(name: &str) -> ClipPath {
    ClipPath { folder: "clips".to_string(), name: name.to_string() }
}

/// A sheet with `thumbs` cells and nothing in them, read by the reader `id`.
fn fake_loaded(name: &str, thumbs: usize, done: bool, id: u64) -> Loaded {
    Loaded {
        id,
        path: at(name),
        duration_ns: 0,
        aspect: (1, 1),
        cells: vec![None; thumbs],
        ready: thumbs,
        done,
        cursor: 0,
    }
}

fn fake_player() -> Player {
    Player { position_ns: 0, frame: None, paused: false, scrub: None }
}

/// The readers that run, by number. What the shelf lets go of is stopped.
struct Readers(Vec<u64>);

impl Readers {
    fn stop(&mut self, gone: &[u64]) {
        for id in gone {
            assert!(self.0.contains(id), "reader {id} was let go twice");
            self.0.retain(|r| r != id);
        }
    }

    fn runs(&self, id: u64) -> bool {
        self.0.contains(&id)
    }
}

#[test]
fn dropping_a_loaded_clip_cancels_its_extraction() {
    let mut readers = Readers(vec![7]);
    let mut shelf = Shelf::new();
    shelf.loaded = Some(fake_loaded("clip.mp4", 0, false, 7));

    assert!(readers.runs(7), "not cancelled while held");
    let gone = shelf.unload();
    readers.stop(&gone.into_iter().collect::<Vec<u64>>());
    assert!(!readers.runs(7), "dropping a clip left its worker reading the file");
}

#[test]
fn a_finished_grid_comes_back_from_the_cache() {
    let mut shelf = Shelf::new();
    shelf.loaded = Some(fake_loaded("a.mp4", 5, true, 1));

    assert!(shelf.park_current().is_empty());
    assert!(shelf.loaded.is_none(), "parking should empty the current slot");

    let restored = shelf.take_recent(&at("a.mp4"));
    assert!(restored.is_some(), "a finished grid should come back");
    assert!(
        shelf.take_recent(&at("a.mp4")).is_none(),
        "taking a grid should remove it from the cache"
    );
}

#[test]
fn an_unfinished_grid_is_cancelled_not_cached() {
    let mut shelf = Shelf::new();
    shelf.loaded = Some(fake_loaded("half.mp4", 3, false, 4));

    let gone = shelf.park_current();

    assert_eq!(shelf.recent_len(), 0, "an unfinished grid must not be cached");
    assert_eq!(gone, vec![4], "an unfinished grid left its worker reading");
}

#[test]
fn the_cache_evicts_oldest_to_stay_within_the_thumbnail_budget() {
    let mut shelf = Shelf::new();
    let mut gone: Vec<u64> = Vec::new();
    // 25 thumbs each, the size of a target 23 s clip; 20 clips overruns 200.
    for i in 0..20u64 {
        shelf.loaded = Some(fake_loaded(&format!("c{i}.mp4"), 25, true, i));
        gone.extend(shelf.park_current());
    }

    let total = shelf.recent_thumbs();
    assert!(
        total <= RECENT_MAX_THUMBS,
        "cache holds {total} thumbs, over the {RECENT_MAX_THUMBS} budget"
    );
    assert_eq!(total, 200);
    assert_eq!(gone, (0..12).collect::<Vec<u64>>(), "the oldest go first");
    assert!(
        shelf.take_recent(&at("c19.mp4")).is_some(),
        "the newest grid should still be cached"
    );
    assert!(
        shelf.take_recent(&at("c0.mp4")).is_none(),
        "the oldest grid should have been evicted"
    );
}

#[test]
fn open_serves_a_cached_grid_instead_of_re_extracting() {
    let mut app = Viewer::new();
    app.shelf.loaded = Some(fake_loaded("a.mp4", 5, true, 3));

    let (source, gone) = app.open(at("a.mp4"), 9);

    assert_eq!(source, Source::Cached);
    let l = app.shelf.loaded.as_ref().expect("a grid should be loaded");
    assert!(l.path.same(&at("a.mp4")));
    // A fresh extraction would have started empty and unfinished; only the
    // cached grid comes back already done and with its thumbnails.
    assert!(l.done, "open re-extracted a clip it already had cached");
    assert_eq!(l.cells.len(), 5, "cached thumbnails should have come back");
    assert_eq!(l.id, 3);
    assert!(gone.is_empty(), "a cached grid was dropped instead of reused");
}

#[test]
fn stopping_a_reading_grid_waits_for_a_parked_worker_to_exit() {
    let mut app = Viewer::new();
    app.shelf.loaded = Some(fake_loaded("a.mp4", 0, false, 11));

    let freed = app.free_clip();

    assert_eq!(freed.reading, Some(11), "a grid mid-read should report that it was stopped");
    assert!(app.shelf.loaded.is_none(), "the partial grid should be gone");
    // The number is what the caller waits on, with the queue already gone.
    let mut readers = Readers(vec![11]);
    readers.stop(&[freed.reading.unwrap()]);
    assert!(!readers.runs(11), "returned while the worker still had the clip open");
}

#[test]
fn stopping_a_finished_grid_keeps_it() {
    let mut app = Viewer::new();
    app.shelf.loaded = Some(fake_loaded("a.mp4", 5, true, 1));

    let freed = app.free_clip();

    assert!(freed.reading.is_none(), "a finished grid was not reading");
    assert!(app.shelf.loaded.is_some(), "a finished grid should have been kept");
}

#[test]
fn stopping_playback_for_a_delete_waits_for_the_decoder_to_exit() {
    let mut app = Viewer::new();
    app.playback.player = Some(Player { position_ns: 2_500_000_000, ..fake_player() });

    let freed = app.free_clip();

    assert!(app.playback.player.is_none(), "playback should be over");
    assert_eq!(
        freed.playing_at,
        Some(2_500_000_000),
        "the decoder to wait for was not reported"
    );
}

/// An app looking at a finished sheet of `a.mp4`, with `b.mp4` next to it: the
/// state a look-ahead acts on.
fn app_on_a_folder() -> (Viewer, Option<ClipPath>) {
    let mut app = Viewer::new();
    app.shelf.loaded = Some(fake_loaded("a.mp4", 5, true, 1));
    (app, Some(at("b.mp4")))
}

/// A look-ahead as a repaint makes it.
fn look_ahead(app: &mut Viewer, next: Option<ClipPath>) -> bool {
    app.look_ahead_due() && app.look_ahead(next, 2).0
}

#[test]
fn look_ahead_starts_reading_the_next_sibling() {
    let (mut app, b) = app_on_a_folder();

    assert!(look_ahead(&mut app, b), "a reader should have been asked for");

    let p = app.shelf.prefetch.as_ref().expect("next sibling should be reading");
    assert!(p.path.same(&at("b.mp4")));
    assert_eq!(p.id, 2);
    assert!(!app.look_ahead_due(), "decided once per clip");
}

#[test]
fn look_ahead_does_not_start_while_playing() {
    let (mut app, b) = app_on_a_folder();
    app.playback.player = Some(fake_player());

    look_ahead(&mut app, b);

    assert!(app.shelf.prefetch.is_none(), "read ahead while a clip was playing");
}

#[test]
fn look_ahead_waits_for_the_current_grid_to_finish() {
    let (mut app, b) = app_on_a_folder();
    app.shelf.loaded = Some(fake_loaded("a.mp4", 2, false, 1)); // still being read

    look_ahead(&mut app, b);

    assert!(
        app.shelf.prefetch.is_none(),
        "read ahead while the current grid was still being read"
    );
    assert!(!app.looked_ahead, "a look-ahead that could not be made yet is not decided");
}

#[test]
fn look_ahead_skips_a_clip_already_cached() {
    let (mut app, b) = app_on_a_folder();
    app.shelf.recent.push_front(fake_loaded("b.mp4", 3, true, 8));

    assert!(!look_ahead(&mut app, b));

    assert!(app.shelf.prefetch.is_none(), "read ahead a clip already cached");
}

#[test]
fn open_takes_over_a_matching_prefetch() {
    let mut app = Viewer::new();
    app.shelf.prefetch = Some(fake_loaded("b.mp4", 0, false, 6));

    let (source, gone) = app.open(at("b.mp4"), 9);

    assert_eq!(source, Source::ReadAhead);
    assert!(app.shelf.prefetch.is_none(), "the prefetch slot should be empty");
    assert!(app.shelf.loaded.as_ref().expect("a grid").path.same(&at("b.mp4")));
    // A fresh extraction would have dropped the prefetch, cancelling it.
    assert!(gone.is_empty(), "the prefetch was restarted instead of taken over");
    assert_eq!(app.shelf.loaded.as_ref().map(|l| l.id), Some(6));
}

#[test]
fn open_cancels_a_prefetch_of_another_clip() {
    let mut app = Viewer::new();
    app.shelf.prefetch = Some(fake_loaded("b.mp4", 0, false, 6));
    // Park a.mp4 so opening it hits the cache.
    app.shelf.loaded = Some(fake_loaded("a.mp4", 5, true, 1));
    app.shelf.park_current();

    let (_, gone) = app.open(at("a.mp4"), 9);

    assert!(app.shelf.prefetch.is_none(), "the prefetch slot should be empty");
    assert_eq!(gone, vec![6], "a read-ahead for a clip we left was not cancelled");
}

#[test]
fn a_grid_larger_than_the_budget_is_not_cached() {
    let mut shelf = Shelf::new();
    let thumbs = RECENT_MAX_THUMBS + 1;
    shelf.loaded = Some(fake_loaded("long.mp4", thumbs, true, 5));

    let gone = shelf.park_current();

    assert_eq!(shelf.recent_len(), 0, "a grid over the budget should not be cached");
    assert_eq!(gone, vec![5]);
}

#[test]
fn a_sheet_at_the_budget_pushes_everything_else_out() {
    let mut shelf = Shelf::new();
    shelf.loaded = Some(fake_loaded("small.mp4", 1, true, 1));
    shelf.park_current();
    shelf.loaded = Some(fake_loaded("long.mp4", RECENT_MAX_THUMBS, true, 2));

    assert_eq!(shelf.park_current(), vec![1]);
    assert_eq!(shelf.recent_len(), 1);
    assert!(shelf.has_recent(&at("long.mp4")));
    assert!(!shelf.has_recent(&at("small.mp4")));
}

#[test]
fn opening_a_clip_that_is_nowhere_starts_a_reader() {
    let mut app = Viewer::new();
    app.error = Some("old".to_string());
    app.shelf.loaded = Some(fake_loaded("a.mp4", 3, false, 1));

    let (source, gone) = app.open(at("z.mp4"), 9);

    assert_eq!(source, Source::Started);
    assert_eq!(gone, vec![1]);
    let l = app.shelf.loaded.as_ref().unwrap();
    assert_eq!((l.id, l.done, l.cells.len(), l.aspect), (9, false, 0, (9, 16)));
    assert!(app.error.is_none());
    assert!(app.reading());
}

#[test]
fn clips_of_different_folders_are_different_clips() {
    let here = at("a.mp4");
    let there = ClipPath { folder: "other".to_string(), name: "a.mp4".to_string() };
    assert!(!here.same(&there));
    assert!(here.same(&here.copy()));
}

#[test]
fn a_new_look_ahead_replaces_the_one_before() {
    let mut shelf = Shelf::new();
    assert_eq!(shelf.read_ahead(at("b.mp4"), 1), (true, None));
    assert_eq!(shelf.read_ahead(at("c.mp4"), 2), (true, Some(1)));
    assert_eq!(shelf.prefetch.as_ref().map(|l| l.id), Some(2));
}

#[test]
fn a_sheet_over_the_budget_leaves_the_others_alone() {
    let mut shelf = Shelf::new();
    shelf.loaded = Some(fake_loaded("a.mp4", 5, true, 1));
    assert!(shelf.park_current().is_empty());
    shelf.loaded = Some(fake_loaded("long.mp4", RECENT_MAX_THUMBS + 1, true, 2));

    assert_eq!(shelf.park_current(), vec![2]);
    assert!(shelf.loaded.is_none());
    assert!(!shelf.has_recent(&at("long.mp4")));
    assert_eq!(shelf.take_recent(&at("a.mp4")).map(|l| l.cells.len()), Some(5));
}

#[test]
fn a_sheet_at_hand_is_served_whatever_the_one_being_left_takes_up() {
    let mut app = Viewer::new();
    for (name, thumbs, id) in [("t.mp4", 50, 1), ("x.mp4", 150, 2)] {
        app.shelf.loaded = Some(fake_loaded(name, thumbs, true, id));
        app.shelf.park_current();
    }
    app.shelf.loaded = Some(fake_loaded("y.mp4", 100, true, 3));

    let (source, gone) = app.open(at("t.mp4"), 9);

    assert_eq!(source, Source::Cached);
    let l = app.shelf.loaded.as_ref().unwrap();
    assert_eq!((l.id, l.done, l.cells.len()), (1, true, 50));
    assert_eq!(gone, vec![2], "only the oldest of the rest makes way");
    assert!(app.shelf.has_recent(&at("y.mp4")));
}

#[test]
fn opening_the_clip_on_screen_keeps_it_however_large() {
    let mut shelf = Shelf::new();
    shelf.loaded = Some(fake_loaded("a.mp4", 5, true, 1));
    shelf.park_current();
    shelf.loaded = Some(fake_loaded("long.mp4", RECENT_MAX_THUMBS + 1, true, 2));
    shelf.read_ahead(at("m.mp4"), 3);

    assert_eq!(shelf.open(at("long.mp4"), 9), (Source::Cached, vec![3]));
    assert_eq!(shelf.loaded.as_ref().map(|l| l.id), Some(2));
    assert!(shelf.has_recent(&at("a.mp4")));
}
