//! The contact sheet's cursor, the played frame's place, the seek bar and what
//! fades over it all.

use footage_viewer::grid_view::{larger, move_cursor, smaller};
use footage_viewer::overlay::{
    Flash, FlashKind, Help, Opacity, FLASH_FADE_NS, FLASH_HOLD_NS, HELP_FADE_NS,
};
use footage_viewer::play_state::PlayCommand;
use footage_viewer::playback::{handle_at, time_at, Playback, Player, SEEK_STEP_NS};
use footage_viewer::view::{
    fit_centered, Area, Point, View, ZOOM_KEY_DEN, ZOOM_KEY_NUM, ZOOM_MAX, ZOOM_ONE,
};

const S: i64 = 1_000_000_000;

/// How much of the thing is seen.
fn alpha(o: Option<Opacity>) -> Option<f64> {
    o.map(|o| o.num as f64 / o.den as f64)
}

#[test]
fn the_help_plate_holds_then_fades_out() {
    let (held, a) = Help::new().advance(true, 0);
    assert!(matches!(held, Help::Held), "holding H should show the plate");
    assert_eq!(alpha(a), Some(1.0), "a held plate is solid");

    let (fading, a) = held.advance(false, 10 * S);
    assert!(matches!(fading, Help::Fading(_)), "letting go should start the fade");
    assert_eq!(alpha(a), Some(1.0), "the fade starts from solid");

    let (fading, a) = fading.advance(false, 10 * S + HELP_FADE_NS / 2);
    let a = alpha(a).expect("half way through, the plate is still on screen");
    assert!((a - 0.5).abs() < 0.01, "half way through the fade alpha was {a}");

    let (gone, a) = fading.advance(false, 10 * S + HELP_FADE_NS * 2);
    assert!(matches!(gone, Help::Hidden), "the fade should have ended");
    assert_eq!(alpha(a), None, "a faded-out plate is not drawn at all");
}

#[test]
fn holding_h_again_mid_fade_brings_the_plate_back() {
    let (state, _) = Help::Fading(10 * S).advance(false, 10 * S + HELP_FADE_NS / 2);

    let (state, a) = state.advance(true, 10 * S + HELP_FADE_NS / 2 + 10_000_000);

    assert!(matches!(state, Help::Held), "H should have taken the plate back");
    assert_eq!(alpha(a), Some(1.0), "the plate should be solid again, not still fading");
}

#[test]
fn a_flash_is_solid_then_fades() {
    let f = Flash { kind: FlashKind::Deleted, name: "a.mp4".to_string(), started_ns: 2 * S };
    assert_eq!(alpha(f.opacity(2 * S)), Some(1.0));
    assert_eq!(alpha(f.opacity(2 * S + FLASH_HOLD_NS)), Some(1.0));
    assert_eq!(alpha(f.opacity(2 * S + FLASH_HOLD_NS + FLASH_FADE_NS / 2)), Some(0.5));
    assert_eq!(alpha(f.opacity(2 * S + FLASH_HOLD_NS + FLASH_FADE_NS)), None);
    assert_eq!((FlashKind::StillSaved.icon(), FlashKind::Deleted.icon()), ("📷", "🗑"));
}

/// A 400x200 view showing a 2:1 frame, so the fit is the whole view.
fn view_rect() -> Area {
    Area { min: Point { x: 0, y: 0 }, max: Point { x: 400 * U, y: 200 * U } }
}

/// Units to a point on screen.
const U: i64 = 1000;
const FRAME: (u32, u32) = (2000, 1000);

#[test]
fn an_unzoomed_frame_is_centered_and_cannot_be_panned() {
    // As if dragged.
    let mut view = View { offset: Point { x: 50 * U, y: 50 * U }, ..View::new() };

    let target = view.place(view_rect(), FRAME.0, FRAME.1);

    assert_eq!(target, fit_centered(view_rect(), FRAME.0, FRAME.1), "fit, ignoring the drag");
    assert_eq!(view.offset, Point { x: 0, y: 0 }, "the drag should have been clamped away");
}

#[test]
fn panning_stops_at_the_edge_of_the_zoomed_frame() {
    let mut view =
        View { zoom: 2 * ZOOM_ONE, offset: Point { x: 5000 * U, y: -5000 * U } };

    let target = view.place(view_rect(), FRAME.0, FRAME.1);

    assert_eq!(
        view.offset,
        Point { x: 200 * U, y: -100 * U },
        "clamped to the frame's edges"
    );
    assert_eq!(target.min.x, 0, "the frame's left edge should sit on the view's");
    assert_eq!(target.max.y, 200 * U, "and its bottom edge on the view's bottom");
}

#[test]
fn zooming_holds_the_point_under_the_cursor() {
    let rect = view_rect();
    let at = Point { x: 100 * U, y: 50 * U }; // off-center, so an unanchored zoom would move it
    let mut view = View::new();
    let before = view.place(rect, FRAME.0, FRAME.1);
    // Where the cursor sits within the frame, as a fraction of it.
    let fx = (at.x - before.min.x) as f64 / (before.max.x - before.min.x) as f64;
    let fy = (at.y - before.min.y) as f64 / (before.max.y - before.min.y) as f64;

    view.zoom_by(2, 1, at, rect);
    let after = view.place(rect, FRAME.0, FRAME.1);

    let x = after.min.x as f64 + fx * (after.max.x - after.min.x) as f64;
    let y = after.min.y as f64 + fy * (after.max.y - after.min.y) as f64;
    let (dx, dy) = ((x - at.x as f64) / U as f64, (y - at.y as f64) / U as f64);
    assert!(
        (dx * dx + dy * dy).sqrt() < 0.01,
        "the anchored point moved from {at:?} to {x}, {y}",
    );
}

#[test]
fn zooming_out_bottoms_out_at_fit_with_no_leftover_pan() {
    let rect = view_rect();
    let mut view = View { zoom: 2 * ZOOM_ONE, offset: Point { x: 100 * U, y: 50 * U } };

    // Far more zoom-out than it takes to get back to the whole frame.
    for _ in 0..20 {
        view.zoom_by(ZOOM_KEY_DEN, ZOOM_KEY_NUM, Point { x: 0, y: 0 }, rect);
    }
    let target = view.place(rect, FRAME.0, FRAME.1);

    assert_eq!(view.zoom, ZOOM_ONE, "zoom should have stopped at the whole frame");
    assert_eq!(target, fit_centered(rect, FRAME.0, FRAME.1), "and left it centered");
}

#[test]
fn zooming_in_stops_at_the_cap() {
    let rect = view_rect();
    let mut view = View::new();

    for _ in 0..100 {
        view.zoom_by(ZOOM_KEY_NUM, ZOOM_KEY_DEN, Point { x: 200 * U, y: 100 * U }, rect);
    }

    assert_eq!(view.zoom, ZOOM_MAX);
}

#[test]
fn the_zoom_keys_work_about_the_middle() {
    let rect = view_rect();
    let mut view = View { zoom: 4 * ZOOM_ONE, offset: Point { x: 7, y: 7 } };
    view.zoom_keys(true, true, false, rect);
    assert_eq!(view, View { zoom: 1_250_000, offset: Point { x: 0, y: 0 } });
    view.zoom_keys(false, false, true, rect);
    assert_eq!(view.zoom, ZOOM_ONE);
    view.zoom_keys(false, false, false, rect);
    assert_eq!(view, View::new());
}

#[test]
fn a_frame_is_letterboxed() {
    let c = Area { min: Point { x: 10, y: 20 }, max: Point { x: 410, y: 220 } };
    let tall = fit_centered(c, 1080, 1920);
    assert_eq!(
        tall,
        Area { min: Point { x: 154, y: 20 }, max: Point { x: 266, y: 220 } }
    );
    assert_eq!(fit_centered(c, 0, 0), c, "a frame without an extent fills the room");
    let mut v = View::new();
    v.pan(3, -4);
    v.pan(i64::MAX, 0);
    assert_eq!(v.offset, Point { x: i64::MAX, y: -4 });
}

#[test]
fn cursor_moves_and_clamps_at_edges() {
    // 4-wide grid, 10 cells (last row is 8,9 — partial).
    let cols = 4;
    let n = 10;
    // From top-left: left/up clamp in place, right/down step.
    assert_eq!(move_cursor(0, n, cols, -1, 0), 0); // left edge
    assert_eq!(move_cursor(0, n, cols, 0, -1), 0); // top edge
    assert_eq!(move_cursor(0, n, cols, 1, 0), 1); // right
    assert_eq!(move_cursor(0, n, cols, 0, 1), 4); // down a row
    // Right edge of a full row clamps horizontally.
    assert_eq!(move_cursor(3, n, cols, 1, 0), 3);
    // Down into the partial last row snaps back to the last cell.
    assert_eq!(move_cursor(6, n, cols, 0, 1), 9); // col 2 row 2 -> would be 10, clamped to 9
    assert_eq!(move_cursor(7, n, cols, 0, 1), 9); // col 3 row 2 -> would be 11, clamped to 9
    // An empty grid stays put.
    assert_eq!(move_cursor(0, 0, cols, 1, 1), 0);
}

#[test]
fn columns_stay_in_range() {
    assert_eq!((larger(4), larger(1)), (3, 1));
    assert_eq!((smaller(4), smaller(12)), (5, 12));
}

fn playing(position_ns: i64, paused: bool) -> Playback {
    Playback {
        player: Some(Player { position_ns, frame: None, paused, scrub: None }),
        ..Playback::new()
    }
}

#[test]
fn toggling_pauses_and_resumes() {
    let mut s = playing(S, false);
    assert!(matches!(s.toggle_pause(), Some(PlayCommand::Pause)));
    assert!(s.hold().is_none(), "held already");
    assert!(matches!(s.toggle_pause(), Some(PlayCommand::Resume)));
    assert_eq!(s, playing(S, false));
    assert!(matches!(s.hold(), Some(PlayCommand::Pause)));
    s.stop_playback();
    assert!(s.toggle_pause().is_none() && s.hold().is_none());
    s.start(2 * S);
    assert_eq!(s, playing(2 * S, false));
}

#[test]
fn a_held_step_key_repeats_once_its_frame_has_come() {
    let mut s = playing(10 * S, false);
    let step = |c: Option<PlayCommand>| match c {
        Some(PlayCommand::Scrub(t)) => Some(t),
        None => None,
        _ => panic!("a step is a scrub"),
    };
    assert_eq!(step(s.nudge(1, 0, 20 * S)), Some(10 * S + SEEK_STEP_NS));
    assert_eq!(s.player.map(|p| p.paused), Some(true), "stepping holds the frame it lands on");
    // Not before the delay, and not before the frame is there.
    s.show(10 * S + SEEK_STEP_NS, (2, 2));
    assert_eq!(step(s.nudge(1, 349_999_999, 20 * S)), None);
    assert_eq!(step(s.nudge(1, 350_000_000, 20 * S)), Some(11 * S));
    assert_eq!(step(s.nudge(1, 600_000_000, 20 * S)), None, "the frame has not come yet");
    s.show(11 * S, (2, 2));
    assert_eq!(step(s.nudge(1, 600_000_000, 20 * S)), Some(11 * S + SEEK_STEP_NS));
    // Letting go and turning round both start anew, from what is on screen.
    assert_eq!(step(s.nudge(0, 600_000_000, 20 * S)), None);
    assert_eq!(step(s.nudge(-1, 600_000_001, 20 * S)), Some(11 * S - SEEK_STEP_NS));
    // Steps stay within the clip.
    let mut first = playing(100, true);
    assert_eq!(step(first.nudge(-1, 0, 20 * S)), Some(0));
    let mut last = playing(20 * S - 1, true);
    assert_eq!(step(last.nudge(1, 0, 20 * S)), Some(20 * S));
    assert_eq!(step(Playback::new().nudge(1, 0, S)), None);
}

#[test]
fn a_drag_waits_for_its_seek_to_land() {
    let mut s = playing(5 * S, false);
    assert!(s.seek_bar(true, false, Some(5 * S + 49_999_999)).is_none(), "too small a move");
    assert!(matches!(s.seek_bar(true, false, Some(6 * S)), Some(PlayCommand::Scrub(t)) if t == 6 * S));
    assert!(s.seek_bar(true, false, Some(7 * S)).is_none(), "one seek is in flight");
    s.show(6 * S, (2, 2));
    assert!(matches!(s.seek_bar(true, false, Some(7 * S)), Some(PlayCommand::Scrub(_))));
    // Letting go resumes where the cursor was.
    assert!(matches!(s.seek_bar(false, false, None), Some(PlayCommand::Play(t)) if t == 7 * S));
    assert_eq!(s.player.and_then(|p| p.scrub), None);
    // A click seeks at once; one in a paused clip stays paused.
    let mut held = playing(0, true);
    assert!(matches!(held.seek_bar(false, true, Some(S)), Some(PlayCommand::Scrub(t)) if t == S));
    assert!(held.seek_bar(false, true, None).is_none());
    assert!(Playback::new().seek_bar(true, true, Some(S)).is_none());
}

#[test]
fn the_bar_maps_pixels_to_time_and_back() {
    assert_eq!(time_at(50, 100, 8 * S), 4 * S);
    assert_eq!((time_at(-5, 100, 8 * S), time_at(500, 100, 8 * S)), (0, 8 * S));
    let p = Player { position_ns: 2 * S, frame: None, paused: false, scrub: None };
    assert_eq!(handle_at(&p, 100, 8 * S), 25);
    assert_eq!(handle_at(&Player { scrub: Some(6 * S), ..p }, 100, 8 * S), 75);
    assert_eq!(handle_at(&p, 100, 0), 0);
}
