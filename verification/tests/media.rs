//! Contact-sheet passes, stills, held frames and the arithmetic under them.

use std::collections::VecDeque;

use footage_viewer::clip_stats;
use footage_viewer::clip_stats::{ClipStats, Ratio};
use footage_viewer::clock::{
    duration_ns, floor_div, frame_dur_ns, frame_pts, frame_time, saturate, seek_target_us, since,
    start_ns, TimeBase,
};
use footage_viewer::grid_pass::{
    whole_grid, ClipFacts, Grid, GridAction, GridEvent, GridPass, PassTiming,
};
use footage_viewer::pace::PaceReport;
use footage_viewer::play_state::{PlayCommand, PlayState};
use footage_viewer::pump::{Pump, PumpStep, Received};
use footage_viewer::reports::{
    decoder_line, grid_line, pace_line, report_line, still_line, GridCost, StillCost,
};
use footage_viewer::sampler::KeyframeSampler;
use footage_viewer::scrub_cache::{ScrubCache, Thumbnail, SCRUB_CACHE_BYTES};
use footage_viewer::session::{Report, SeekProfile, StreamShape};
use footage_viewer::sizing::{
    output_size, playback_threads, strip_rows, thumb_size, wants_gpu, HW_MIN_PIXELS,
};
use footage_viewer::still::{encode_still, still_jpeg, StillError, StillSearch, StillStep};
use footage_viewer::tally::{PacketInfo, Spread, Tally};

const S: i64 = 1_000_000_000;
const TICKS: i64 = 512;

/// A clip in memory: frames at a fixed rate with a keyframe every `gop`.
#[derive(Clone, Copy)]
struct Clip {
    width: u32,
    height: u32,
    fps: i64,
    frames: i64,
    gop: i64,
}

const COUNTER: Clip = Clip { width: 1080, height: 1920, fps: 30, frames: 750, gop: 30 };
const CAMERA_4K: Clip = Clip { width: 3840, height: 2160, fps: 25, frames: 200, gop: 12 };
const ALL_INTRA: Clip = Clip { width: 426, height: 240, fps: 30, frames: 120, gop: 1 };

impl Clip {
    fn shape(&self) -> StreamShape {
        StreamShape {
            src_w: self.width,
            src_h: self.height,
            time_base: TimeBase { num: 1, den: (self.fps * TICKS) as i32 },
            start: Some(0),
        }
    }

    fn duration_ns(&self) -> i64 {
        self.frames * S / self.fps
    }

    fn packet(&self, i: i64) -> PacketInfo {
        let key = i % self.gop == 0;
        PacketInfo {
            size: if key { 120_000 } else { 20_000 },
            key,
            pts: Some(i * TICKS),
            dts: Some(i * TICKS),
        }
    }

    fn facts(&self, file: &str) -> ClipFacts {
        ClipFacts {
            file: file.to_string(),
            size_bytes: 8_000_000,
            container: "mov,mp4,m4a,3gp,3g2,mj2".to_string(),
            codec: Some("h264".to_string()),
            profile: "High".to_string(),
            level: 51,
            pix_fmt: Some("yuv420p".to_string()),
            rate: (self.fps as i32, 1),
            duration_ns: self.duration_ns(),
            has_b_frames: false,
        }
    }
}

const TIMING: PassTiming = PassTiming {
    grid_ns: 50_000_000,
    open_ns: 3_000_000,
    setup_ns: 2_000_000,
    scan_ns: 20_000_000,
    decode_ns: 15_000_000,
    convert_ns: 5_000_000,
};

/// What became of a pass.
struct Passed {
    pass: GridPass,
    thumbs: Vec<Thumbnail>,
    packets_read: i64,
    whole: bool,
}

/// Run a pass over `clip`, with a decoder that holds `latency` frames back until
/// it is drained; `abandon` sees how many thumbnails there are before each read.
fn run_pass(
    clip: Clip,
    spacing_ns: i64,
    latency: usize,
    abandon: impl Fn(usize) -> bool,
) -> Passed {
    let mut pass = GridPass::new(clip.shape(), spacing_ns, 320);
    let mut thumbs: Vec<Thumbnail> = Vec::new();
    let mut queue: VecDeque<i64> = VecDeque::new();
    let (mut next, mut drained, mut shade) = (0i64, false, 1u8);
    let mut action = GridAction::Check;
    let whole = loop {
        assert!(pass.has_room());
        let event = match action {
            GridAction::Check => GridEvent::Cancel(abandon(thumbs.len())),
            GridAction::Read => {
                if next < clip.frames {
                    next += 1;
                    GridEvent::Packet(true, clip.packet(next - 1))
                } else {
                    GridEvent::NoPacket
                }
            }
            GridAction::Send => {
                queue.push_back(next - 1);
                GridEvent::Done
            }
            GridAction::SendEof => {
                drained = true;
                GridEvent::Done
            }
            GridAction::Receive => {
                if queue.len() > latency || (drained && !queue.is_empty()) {
                    let f = queue.pop_front().unwrap();
                    shade = (f % 251) as u8 + 1;
                    GridEvent::Frame(None, Some(f * TICKS))
                } else {
                    GridEvent::NoFrame
                }
            }
            GridAction::Convert(w, h) => {
                GridEvent::Scaled(vec![shade; w as usize * h as usize * 4], false)
            }
            GridAction::Emit(i, t) => {
                assert_eq!(i, thumbs.len(), "thumbnails come in order");
                thumbs.push(t);
                GridEvent::Done
            }
            GridAction::Finish => break true,
            GridAction::Abandon => break false,
            GridAction::Fail => panic!("nothing fails here"),
        };
        action = pass.step(event);
    };
    Passed { pass, thumbs, packets_read: next, whole }
}

fn extract_grid(clip: Clip, spacing_ns: i64) -> Grid {
    let p = run_pass(clip, spacing_ns, 4, |_| false);
    assert!(p.whole);
    let meta = p.pass.meta(clip.duration_ns());
    whole_grid(Some(meta), p.thumbs).expect("metadata was reported")
}

fn value(r: Ratio) -> f64 {
    r.num as f64 / r.den as f64
}

#[test]
fn grid_of_4k_keeps_every_kept_keyframe() {
    // The clip is 8 s at 25 fps with a keyframe every 0.48 s, so 17 of them. At
    // 1 s spacing the sampler keeps every 2nd, which is 9 thumbnails ~0.96 s
    // apart.
    let grid = extract_grid(CAMERA_4K, S);
    assert_eq!(grid.src_w, 3840);
    assert_eq!(grid.src_h, 2160);
    assert_eq!(grid.thumbs.len(), 9, "lost thumbnails on the way");

    for (i, t) in grid.thumbs.iter().enumerate() {
        assert_eq!(
            t.rgba.len(),
            t.width as usize * t.height as usize * 4,
            "thumb {i} buffer does not match its dimensions"
        );
        assert!(t.rgba.iter().any(|&b| b != 0), "thumb {i} is blank");
        if i > 0 {
            let step = (t.time_ns - grid.thumbs[i - 1].time_ns) as f64 / 1e9;
            assert!(
                (step - 0.96).abs() < 0.05,
                "thumb {i} is {step:.3}s after the last, expected ~0.96s"
            );
        }
    }
}

fn stats_of(clip: Clip, file: &str) -> ClipStats {
    let p = run_pass(clip, S, 4, |_| false);
    p.pass.stats(clip.facts(file), TIMING).expect("a whole pass reports stats")
}

#[test]
fn stats_report_the_keyframe_layout() {
    let s = stats_of(CAMERA_4K, "camera_8s_4k.mp4");

    assert_eq!((s.width, s.height), (3840, 2160));
    assert_eq!(s.codec, "h264");
    assert_eq!(s.file, "camera_8s_4k.mp4");
    assert!(s.size_bytes > 0, "file size not read");
    assert!((value(s.fps) - 25.0).abs() < 0.01, "fps was {}", value(s.fps));

    // A keyframe every 12 frames, i.e. every 0.48 s.
    assert!(
        (value(s.gop_frames_mean) - 12.0).abs() < 0.5,
        "GOP of {:.1} frames, expected ~12",
        value(s.gop_frames_mean)
    );
    assert!(
        (value(s.gop_s_mean) - 0.48).abs() < 0.02,
        "GOP of {:.3}s, expected ~0.48",
        value(s.gop_s_mean)
    );
    // A fixed GOP: the interval never varies.
    assert_eq!(
        value(s.gop_frames_min),
        value(s.gop_frames_max),
        "a fixed GOP reported a spread"
    );

    // Every packet was weighed, and the keyframes are a subset of them.
    assert_eq!(s.packets, 200, "8 s at 25 fps is 200 packets");
    assert!(
        s.keyframes > 0 && s.keyframes < s.packets,
        "{} keyframes of {} packets",
        s.keyframes,
        s.packets
    );
    assert_eq!(s.keyframes, 17);
    let share = value(s.key_share_pct);
    assert!(share > 0.0 && share < 100.0, "keyframes are {share:.1}% of the stream");
    assert!(value(s.video_mbit_s) > 0.0, "no bitrate measured");
    // 17 keyframes of 120 kB and 183 frames of 20 kB in 8 s, read in 20 ms.
    assert_eq!(value(s.video_mbit_s), 5_700_000.0 * 8.0 / 8.0 / 1e6);
    assert_eq!(value(s.scan_mb_s), 285.0);
}

#[test]
fn stats_report_an_all_intra_layout() {
    let s = stats_of(ALL_INTRA, "allintra_4s_240p.mp4");

    assert_eq!(s.keyframes, s.packets, "not every frame is a keyframe");
    assert_eq!(value(s.gop_frames_min), 1.0);
    assert_eq!(value(s.gop_frames_max), 1.0);
    assert!(
        (value(s.key_share_pct) - 100.0).abs() < 0.01,
        "all-intra stream is {:.1}% keyframes",
        value(s.key_share_pct)
    );
    // Small frames stay on the CPU, and the record must say so.
    assert!(!s.hw_decode, "240p should not have gone to the GPU");
    assert!(!wants_gpu(s.width, s.height));
}

#[test]
fn a_cancelled_pass_reports_no_stats() {
    let p = run_pass(CAMERA_4K, S, 4, |_| true);
    let stats = p.pass.stats(CAMERA_4K.facts("camera_8s_4k.mp4"), TIMING);

    assert!(stats.is_none(), "a cancelled pass reported stats");
}

#[test]
fn cancel_stops_extraction_early() {
    // Well under the clip's 1/30 s keyframe interval, so every one is kept.
    let spacing = 10_000_000;

    // The whole grid, for reference — a cancelled pass must yield far less.
    let full = extract_grid(ALL_INTRA, spacing).thumbs.len();
    assert!(full > 100, "every frame should be kept, kept {full}");

    // Abandon the pass the moment the first thumbnail lands.
    let p = run_pass(ALL_INTRA, spacing, 4, |thumbs| thumbs > 0);
    let kept = p.thumbs.len();
    assert!(
        kept < full / 2,
        "cancelled pass produced {kept} of {full} thumbs — it did not stop"
    );
    assert!(!p.whole);
    assert!(p.packets_read < 10, "it went on reading");
    assert_eq!(p.pass.kept(), kept);
}

#[test]
fn an_abandoned_pass_has_handed_on_a_beginning_of_the_whole() {
    let whole = extract_grid(CAMERA_4K, S).thumbs;
    // A decoder that holds back fewer frames hands them on earlier, not others.
    let p = run_pass(CAMERA_4K, S, 1, |thumbs| thumbs > 2);
    assert!(!p.whole);
    assert_eq!(p.thumbs.len(), 3);
    for (a, b) in p.thumbs.iter().zip(&whole) {
        assert_eq!((a.time_ns, a.width, a.height), (b.time_ns, b.width, b.height));
        assert!(a.rgba == b.rgba);
    }
}

#[test]
fn cancel_before_the_first_packet_yields_nothing() {
    let p = run_pass(CAMERA_4K, S, 4, |_| true);

    // Metadata comes from the header, which is already read by then; only the
    // decode pass is skipped.
    let meta = p.pass.meta(CAMERA_4K.duration_ns());
    assert_eq!((meta.duration_ns, meta.src_w, meta.src_h), (8 * S, 3840, 2160));
    assert_eq!(p.thumbs.len(), 0, "a pre-cancelled pass produced thumbnails");
    assert_eq!(p.packets_read, 0);
}

#[test]
fn packets_of_other_streams_are_passed_over() {
    let mut pass = GridPass::new(CAMERA_4K.shape(), S, 320);
    pass.step(GridEvent::Cancel(false));
    let audio = PacketInfo { size: 400, key: true, pts: None, dts: None };
    assert!(matches!(pass.step(GridEvent::Packet(false, audio)), GridAction::Check));
    assert_eq!(pass.tally().packets(), 0);
}

#[test]
fn a_scaler_that_fails_fails_the_pass() {
    let mut pass = GridPass::new(CAMERA_4K.shape(), S, 320);
    pass.step(GridEvent::Cancel(false));
    assert!(matches!(
        pass.step(GridEvent::Packet(true, CAMERA_4K.packet(0))),
        GridAction::Send
    ));
    pass.step(GridEvent::Done);
    assert!(matches!(
        pass.step(GridEvent::Frame(Some(0), None)),
        GridAction::Convert(320, 180)
    ));
    assert!(matches!(pass.step(GridEvent::Failed), GridAction::Fail));
    assert!(pass.stats(CAMERA_4K.facts("x"), TIMING).is_none());
    assert!(whole_grid(None, Vec::new()).is_none());
}

#[test]
fn unknown_facts_are_called_unknown() {
    let p = run_pass(ALL_INTRA, S, 0, |_| false);
    let facts = ClipFacts {
        codec: None,
        pix_fmt: None,
        rate: (0, 1),
        duration_ns: 0,
        ..ALL_INTRA.facts("x.mp4")
    };
    let s = p.pass.stats(facts, PassTiming { scan_ns: 0, ..TIMING }).unwrap();
    assert_eq!((s.codec.as_str(), s.pix_fmt.as_str()), ("unknown", "unknown"));
    assert_eq!((value(s.fps), value(s.video_mbit_s), value(s.scan_mb_s)), (0.0, 0.0, 0.0));
}

#[test]
fn save_frame_jpeg_writes_full_res_still() {
    let grid = extract_grid(COUNTER, 5 * S);
    assert!(grid.src_w > 0 && grid.src_h > 0);

    // Seek to the keyframe at or before 12 s and decode forward.
    let (mut search, us) = StillSearch::new(COUNTER.shape(), 12 * S);
    assert_eq!(us, 12_000_000 - 1_000);
    let mut next = us * COUNTER.fps / 1_000_000 / COUNTER.gop * COUNTER.gop;
    let mut sent: VecDeque<i64> = VecDeque::new();
    let mut chosen = None;
    let mut step = StillStep::Receive;
    loop {
        step = match step {
            StillStep::Receive => match sent.pop_front() {
                Some(f) => {
                    chosen = Some(f);
                    search.frame(Some(f * TICKS), None)
                }
                None => search.no_frame(Received::Again),
            },
            StillStep::ReadPacket => {
                sent.push_back(next);
                next += 1;
                search.packet(true)
            }
            StillStep::Use => break,
            _ => panic!("12 s lies within the clip"),
        };
    }
    assert_eq!(chosen, Some(360), "the frame at 12 s");

    // A frame with padded rows, a gradient so that every row differs.
    let (w, h) = (grid.src_w, grid.src_h);
    let stride = w as usize * 3 + 40;
    let mut data = vec![0xaau8; stride * h as usize];
    for y in 0..h as usize {
        for x in 0..w as usize * 3 {
            data[y * stride + x] = (y / 8) as u8;
        }
    }
    let out = still_jpeg(&data, stride, w, h, 92).expect("a whole frame is always saved");

    let img = image::load_from_memory(&out).expect("saved file is a readable image");
    assert_eq!(img.width(), grid.src_w);
    assert_eq!(img.height(), grid.src_h);
    let rgb = img.to_rgb8();
    for y in [4u32, 804, 1604] {
        let p = rgb.get_pixel(w - 1, y);
        assert!((p[0] as i32 - (y / 8) as i32).abs() < 6, "row {y} came out as {p:?}");
    }
}

#[test]
fn a_still_past_the_end_is_the_last_frame() {
    let (mut search, _) = StillSearch::new(COUNTER.shape(), 60 * S);
    assert!(matches!(search.frame(Some(749 * TICKS), None), StillStep::Receive));
    assert!(matches!(search.no_frame(Received::Again), StillStep::ReadPacket));
    assert!(matches!(search.packet(false), StillStep::Receive));
    assert!(matches!(search.no_frame(Received::Again), StillStep::SendEof));
    assert!(matches!(search.no_frame(Received::Eof), StillStep::Use));
    let (mut empty, _) = StillSearch::new(COUNTER.shape(), S);
    assert!(matches!(empty.no_frame(Received::Eof), StillStep::NoFrame));
    let (mut broken, _) = StillSearch::new(COUNTER.shape(), S);
    assert!(matches!(broken.no_frame(Received::Failed), StillStep::Failed));
}

#[test]
fn images_the_format_cannot_hold_are_refused() {
    let none: Vec<u8> = Vec::new();
    assert_eq!(encode_still(&none, 65_536, 1, 92), Err(StillError::TooWide(65_536)));
    assert_eq!(encode_still(&none, 1, 65_536, 92), Err(StillError::TooTall(65_536)));
    assert_eq!(encode_still(&none, 0, 4, 92), Err(StillError::Empty));
    assert_eq!(encode_still(&vec![0; 11], 2, 2, 92), Err(StillError::TooFewPixels(11)));
    let file = encode_still(&vec![0; 12], 2, 2, 92).unwrap();
    assert_eq!((&file[..2], &file[file.len() - 2..]), (&[0xff, 0xd8][..], &[0xff, 0xd9][..]));
    // The chroma is kept at any quality: two colours side by side stay apart.
    let red_blue: Vec<u8> = [255, 0, 0, 0, 0, 255].repeat(8 * 16);
    let file = encode_still(&red_blue, 16, 16, 80).unwrap();
    let img = image::load_from_memory(&file).unwrap().to_rgb8();
    let (a, b) = (img.get_pixel(0, 0), img.get_pixel(1, 0));
    assert!(a[0] > 150 && b[2] > 150 && a[2] < 110 && b[0] < 110, "{a:?} {b:?}");
}

fn cached(time_ns: i64) -> Thumbnail {
    Thumbnail { time_ns, width: 2, height: 1, rgba: vec![0; 8] }
}

#[test]
fn scrub_cache_serves_a_target_only_when_it_holds_that_frame() {
    let mut c = ScrubCache::new(40_000_000); // 40 ms frames
    for t in [S, 1_040_000_000, 2 * S] {
        c.put(&cached(t));
    }
    let get = |c: &ScrubCache, t: i64| c.get(t).map(|f| f.time_ns);

    // Exactly the frame asked for, and the slack a decode lands within.
    assert_eq!(get(&c, S), Some(S));
    assert_eq!(get(&c, 1_000_900_000), Some(S));
    // Between two held frames: the later one is what a decode would emit.
    assert_eq!(get(&c, 1_020_000_000), Some(1_040_000_000));
    // A gap wider than a frame: the frames between 1.04 and 2.00 are not held,
    // and one of them — not 2.00 — is the frame at 1.5.
    assert_eq!(get(&c, 1_500_000_000), None);
    // Past everything held.
    assert_eq!(get(&c, 2_500_000_000), None);

    // A stream with no declared frame rate disables the cache outright rather
    // than guess how far a frame's reach extends.
    let mut off = ScrubCache::new(0);
    off.put(&cached(S));
    assert!(off.get(S).is_none(), "cache must be off without a frame rate");
    assert_eq!(off.len(), 0, "a disabled cache must not hold frames");
}

#[test]
fn held_frames_make_way_for_newer_ones() {
    let mut c = ScrubCache::new(40_000_000);
    let half = SCRUB_CACHE_BYTES as usize / 2;
    let big = |t: i64| Thumbnail { time_ns: t, width: 1, height: 1, rgba: vec![0; half] };
    c.put(&big(S));
    c.put(&big(2 * S));
    assert_eq!(c.len(), 2);
    c.put(&cached(3 * S));
    assert_eq!(c.len(), 2);
    assert!(c.get(S).is_none() && c.get(2 * S).is_some() && c.get(3 * S).is_some());
    // The same frame again takes the place of the old one.
    c.put(&cached(3 * S));
    assert_eq!(c.len(), 2);
    c.clear();
    assert_eq!(c.len(), 0);
}

fn sample() -> ClipStats {
    let tenth = |n: i128| Ratio { num: n, den: 10 };
    let whole = |n: i128| Ratio { num: n, den: 1 };
    ClipStats {
        file: "C0042.MP4".to_string(),
        size_bytes: 1_842_300_000,
        container: "mov,mp4,m4a,3gp,3g2,mj2".to_string(),
        codec: "hevc".to_string(),
        profile: "HEVC(Main10)".to_string(),
        level: 153,
        width: 3840,
        height: 2160,
        pix_fmt: "yuv420p10le".to_string(),
        fps: Ratio { num: 2997, den: 100 },
        duration_ns: 312_400_000_000,
        video_mbit_s: tenth(472),
        has_b_frames: true,
        packets: 9360,
        keyframes: 312,
        gop_frames_min: whole(30),
        gop_frames_mean: whole(30),
        gop_frames_max: whole(30),
        gop_s_min: whole(1),
        gop_s_mean: whole(1),
        gop_s_max: whole(1),
        key_share_pct: tenth(184),
        hw_decode: true,
        grid_ns: 4_820_000_000,
        open_ns: 31_000_000,
        setup_ns: 12_000_000,
        scan_ns: 3_110_000_000,
        decode_ns: 1_520_000_000,
        convert_ns: 160_000_000,
        scan_mb_s: whole(592),
    }
}

#[test]
fn record_is_one_json_line() {
    let line = clip_stats::line(&sample(), "2026-07-16 10:22:31.123Z");

    assert!(line.ends_with('\n'), "record must be one line: {line}");
    assert_eq!(line.matches('\n').count(), 1, "record spans lines: {line}");
    assert!(line.starts_with(r#"{"ts":"2026-07-16 10:22:31.123Z","file":"C0042.MP4""#));
    assert!(line.trim_end().ends_with("\"scan_mb_s\":592}"), "{line}");
    // Braces balance, i.e. the nested objects opened and closed as intended.
    assert_eq!(line.matches('{').count(), line.matches('}').count(), "{line}");
}

#[test]
fn record_carries_the_keyframe_layout() {
    let mut s = sample();
    // A variable GOP — the case the grid's sampler assumes away.
    s.gop_frames_min = Ratio { num: 12, den: 1 };
    s.gop_frames_mean = Ratio { num: 285, den: 10 };
    s.gop_frames_max = Ratio { num: 30, den: 1 };
    s.gop_s_min = Ratio { num: 4, den: 10 };
    s.gop_s_mean = Ratio { num: 95, den: 100 };
    s.gop_s_max = Ratio { num: 1001, den: 1000 };
    let line = clip_stats::line(&s, "2026-07-16 10:22:31.123Z");

    assert!(
        line.contains(r#""gop_frames":{"min":12,"mean":28.5,"max":30}"#),
        "{line}"
    );
    assert!(
        line.contains(r#""gop_s":{"min":0.400,"mean":0.950,"max":1.001}"#),
        "{line}"
    );
}

#[test]
fn record_names_the_decoder_that_ran() {
    let mut s = sample();
    s.hw_decode = false;
    assert!(clip_stats::line(&s, "t").contains(r#""hw":"CPU""#));

    s.hw_decode = true;
    assert!(clip_stats::line(&s, "t").contains(r#""hw":"GPU""#));
}

#[test]
fn a_record_holds_every_member_in_order() {
    assert_eq!(
        clip_stats::line(&sample(), "T"),
        concat_line(&[
            r#"{"ts":"T","file":"C0042.MP4","size_mb":1842.3,"#,
            r#""container":"mov,mp4,m4a,3gp,3g2,mj2","codec":"hevc","profile":"HEVC(Main10)","#,
            r#""level":153,"w":3840,"h":2160,"pix_fmt":"yuv420p10le","fps":29.970,"#,
            r#""dur_s":312.400,"mbit_s":47.2,"has_b":true,"packets":9360,"keyframes":312,"#,
            r#""gop_frames":{"min":30,"mean":30.0,"max":30},"#,
            r#""gop_s":{"min":1.000,"mean":1.000,"max":1.000},"key_share_pct":18.4,"#,
            r#""hw":"GPU","grid_ms":4820,"open_ms":31,"setup_ms":12,"scan_ms":3110,"#,
            r#""decode_ms":1520,"convert_ms":160,"scan_mb_s":592}"#,
        ])
    );
    // A name may hold what JSON does not care about.
    let mut s = sample();
    s.file = "клип {1}.mp4".to_string();
    assert!(clip_stats::line(&s, "T").contains(r#""file":"клип {1}.mp4""#));
}

fn concat_line(parts: &[&str]) -> String {
    let mut s = parts.concat();
    s.push('\n');
    s
}

#[test]
fn times_are_measured_from_the_start_of_the_stream() {
    let tb = TimeBase { num: 1, den: 90_000 };
    assert_eq!(frame_pts(Some(5), Some(7)), 5);
    assert_eq!(frame_pts(None, Some(7)), 7);
    assert_eq!(frame_pts(None, None), i64::MIN, "very early");
    assert_eq!(frame_time(i64::MIN, None, tb), 0);
    assert_eq!(frame_time(180_000, Some(90_000), tb), S);
    assert_eq!(frame_time(0, Some(90_000), tb), 0, "never before the start");
    assert_eq!(frame_time(45_000, None, tb), S / 2);
    assert_eq!(start_ns(Some(45_000), tb), S / 2);
    assert_eq!(start_ns(None, tb), 0);
    assert_eq!(seek_target_us(2 * S, S), 3_000_000 - 1_000);
    assert_eq!(seek_target_us(0, 0), 0);
    assert_eq!(frame_dur_ns(25, 1), 40_000_000);
    assert_eq!(frame_dur_ns(0, 1), 0);
    assert_eq!(duration_ns(8_000_000), 8 * S);
    assert_eq!((since(7, 3), since(3, 7)), (4, 0));
    assert_eq!((floor_div(-7, 2), floor_div(7, 2)), (-4, 3));
    assert_eq!((saturate(i128::MAX), saturate(i128::MIN), saturate(5)), (i64::MAX, i64::MIN, 5));
}

#[test]
fn frames_are_fitted_into_their_box() {
    assert_eq!(thumb_size(3840, 2160, 320), (320, 180));
    assert_eq!(thumb_size(1080, 1920, 320), (180, 320));
    assert_eq!(output_size(3840, 2160, 1600), (1600, 900));
    assert_eq!(output_size(426, 240, 1600), (426, 240), "never larger than the source");
    assert!(wants_gpu(3840, 2160) && !wants_gpu(1920, 1080));
    let limit = HW_MIN_PIXELS as u32;
    assert!(!wants_gpu(limit, 1) && wants_gpu(limit + 1, 1));
    assert_eq!(playback_threads(Some(2)), 2);
    assert_eq!(playback_threads(Some(64)), playback_threads(Some(63)));
}

#[test]
fn padding_is_stripped_from_rows() {
    assert_eq!(strip_rows(&[1, 2, 9, 3, 4, 9], 3, 2, 2), [1, 2, 3, 4]);
    assert_eq!(strip_rows(&[1, 2, 9, 3, 4], 3, 2, 2), [1, 2, 3, 4], "the last may be unpadded");
    assert!(strip_rows(&[], 3, 2, 0).is_empty());
}

#[test]
fn a_sampler_keeps_every_nth() {
    let mut every = KeyframeSampler::new(10_000_000);
    assert!((0..5).all(|i| every.keep(i * 33_000_000)));
    let mut second = KeyframeSampler::new(S);
    let kept: Vec<i64> = (0..7).filter(|i| second.keep(i * 480_000_000)).collect();
    assert_eq!(kept, [0, 2, 4, 6]);
}

#[test]
fn a_tally_measures_the_gaps_between_keyframes() {
    let mut t = Tally::new();
    for (key, pts) in [(true, 0), (false, 1), (false, 2), (true, 3), (true, 4)] {
        t.weigh(PacketInfo { size: 10, key, pts: Some(pts), dts: None });
    }
    assert_eq!((t.bytes(), t.key_bytes(), t.packets(), t.keyframes()), (50, 30, 5, 3));
    let f = t.gop_frames();
    assert_eq!((f.count(), f.least(), f.greatest(), f.sum()), (2, 1, 3, 4));
    let g = t.gop_ticks();
    assert_eq!((g.count(), g.least(), g.greatest(), g.sum()), (2, 1, 3, 4));
    // A keyframe without a timestamp costs its gap the time, not the count.
    t.weigh(PacketInfo { size: 10, key: true, pts: None, dts: None });
    assert_eq!((t.gop_frames().count(), t.gop_ticks().count()), (3, 2));
    let mut s = Spread::new();
    assert_eq!((s.count(), s.least(), s.greatest(), s.sum()), (0, 0, 0, 0));
    s.add(-3);
    assert_eq!((s.count(), s.least(), s.greatest(), s.sum()), (1, -3, -3, -3));
}

#[test]
fn a_pump_drains_the_decoder_once_the_packets_are_gone() {
    let mut p = Pump::new();
    assert_eq!(p.received(Received::Again), PumpStep::ReadPacket);
    p.packet(false);
    assert_eq!(p.received(Received::Again), PumpStep::SendEof);
    assert_eq!(p.received(Received::Frame), PumpStep::Frame);
    assert_eq!(p.received(Received::Eof), PumpStep::Drained);
    assert_eq!(Pump::new().received(Received::Failed), PumpStep::Failed);
}

#[test]
fn pace_is_reported_once_there_is_enough_of_it() {
    let mut p = PaceReport::new();
    assert!(p.rebox(1600, 900).is_none());
    for _ in 0..9 {
        p.miss(5_000_000);
        assert!(p.count().is_none());
    }
    assert!(p.flush().is_none(), "nine frames say nothing");
    for i in 0..100 {
        if i == 40 {
            p.miss(7_000_000);
        }
        if i == 50 {
            p.miss(3_000_000);
        }
        let r = p.count();
        assert_eq!(r.is_some(), i == 99);
        if let Some(r) = r {
            assert_eq!((r.out_w, r.out_h, r.frames), (1600, 900, 100));
            assert_eq!((r.late, r.worst_ns), (2, 7_000_000));
        }
    }
    for _ in 0..10 {
        p.count();
    }
    let r = p.rebox(800, 450).expect("a stretch ends with its box");
    assert_eq!((r.out_w, r.frames, r.late), (1600, 10, 0));
}

#[test]
fn the_log_says_where_the_time_went() {
    let pace = PaceReport { out_w: 1600, out_h: 900, frames: 100, late: 2, worst_ns: 7_400_000 };
    assert_eq!(pace_line(&pace), "playback: 1600x900 box | 100 frames | 2 late, worst 7ms behind");
    assert_eq!(
        report_line(&Report::Pace(PaceReport { late: 0, ..pace })),
        "playback: 1600x900 box | 100 frames | none late"
    );
    let p = SeekProfile {
        start_ns: 0,
        target_ns: 5_300_000_000,
        seek_ns: 1_250_000,
        decoded: 4,
        decode_ns: 30_000_000,
    };
    assert_eq!(
        report_line(&Report::Landed(p, 42_000_000, 5_320_000_000)),
        "scrub -> 5.300s | total 42.0ms | seek 1.2ms | decoded 4 frames 30.0ms (7.5ms/f) | \
         landed 5.320s"
    );
    assert_eq!(
        report_line(&Report::Cached(p, 400_000, 5_320_000_000)),
        "scrub -> 5.300s | total 0.4ms | cached | landed 5.320s"
    );
    let none = SeekProfile { decoded: 0, decode_ns: 0, ..p };
    assert!(report_line(&Report::Landed(none, 1, 2)).contains("decoded 0 frames 0.0ms (0.0ms/f)"));

    let cost = GridCost {
        kept: 9,
        keyframes: 17,
        bytes: 5_700_000,
        key_bytes: 2_040_000,
        total_ns: 50_000_000,
        open_ns: 3_000_000,
        header_ns: 1_000_000,
        probe_ns: 2_000_000,
        setup_ns: 2_000_000,
        demux_ns: 20_000_000,
        decode_ns: 15_000_000,
        convert_ns: 5_000_000,
    };
    assert_eq!(
        grid_line(&cost, false),
        "grid done: kept 9/17 keyframes | total 50ms | open 3ms (header 1ms + probe 2ms) | \
         setup 2ms | demux 20ms (5.7 MB, 285 MB/s) | decode 15ms | convert 5ms | \
         keyframes 2.0 MB (36% of stream)"
    );
    let nothing = GridCost { bytes: 0, key_bytes: 0, demux_ns: 0, ..cost };
    let line = grid_line(&nothing, true);
    assert!(line.starts_with("grid cancelled: ") && line.contains("(0.0 MB, 0 MB/s)"), "{line}");
    assert!(line.ends_with("(0% of stream)"), "{line}");

    let still = StillCost {
        time_ns: 12_000_000_000,
        total_ns: 300_000_000,
        open_ns: 20_000_000,
        header_ns: 5_000_000,
        probe_ns: 15_000_000,
        setup_ns: 10_000_000,
        seek_ns: 4_000_000,
        decoded: 30,
        decode_ns: 150_000_000,
        convert_ns: 6_000_000,
        encode_ns: 90_000_000,
        width: 1080,
        height: 1920,
        quality: 92,
    };
    assert_eq!(
        still_line(&still),
        "still -> 12.000s | total 300ms | open 20ms (header 5ms + probe 15ms) | setup 10ms | \
         seek 4ms | decoded 30 frames 150ms (5.0ms/f) | convert 6ms | encode 90ms | \
         1080x1920 (2.1 MP), q92"
    );
    assert_eq!(
        decoder_line("grid", 3840, 2160, true, "D3D11"),
        "grid: 3840x2160 (8.3 MP), decoding on the GPU, frames as D3D11"
    );
}

#[test]
fn moves_replace_each_other() {
    let mut s = PlayState::new(0, 1600);
    assert!(s.apply(PlayCommand::Scrub(5 * S), 1));
    assert!(s.apply(PlayCommand::Play(9 * S), 2));
    assert_eq!(s.target(), Some(9 * S));
    assert!(!s.paused && !s.hold_after);
    assert!(s.apply(PlayCommand::Pause, 3));
    assert!(s.paused);
    assert!(s.apply(PlayCommand::Resume, 4));
    assert!(!s.paused);
    assert!(!s.apply(PlayCommand::Stop, 5), "a stop is the end");
}

#[test]
fn a_move_has_one_destination() {
    let mut s = PlayState::new(0, 1600);
    s.start_move(S, true, 1); // a short hop forward
    assert_eq!((s.skip_until, s.pending_seek), (Some(S), None));
    s.start_move(0, true, 2); // where the decoder is: the frame has passed
    assert_eq!((s.skip_until, s.pending_seek), (None, Some((0, true))));
    s.start_move(1_000_000, true, 2); // within the tolerance of it
    assert_eq!((s.skip_until, s.pending_seek), (None, Some((1_000_000, true))));
    s.start_move(1_000_001, true, 2);
    assert_eq!((s.skip_until, s.pending_seek), (Some(1_000_001), None));
    s.start_move(9 * S, false, 2); // too far to decode in place
    assert_eq!((s.skip_until, s.pending_seek), (None, Some((9 * S, true))));
    assert!(!s.hold_after && s.anchor.is_none());
}

#[test]
fn later_timestamps_are_later_times() {
    let tb = TimeBase { num: 1001, den: 30_000 };
    let times: Vec<i64> = (0..100).map(|pts| frame_time(pts, Some(7), tb)).collect();
    assert!(times.windows(2).all(|w| w[0] <= w[1]));
    assert_eq!(times[8], 33_366_666);
}

#[test]
fn only_keyframes_are_sent_to_the_decoder() {
    let mut pass = GridPass::new(CAMERA_4K.shape(), S, 320);
    let (mut sent, mut next) = (0, 0);
    let mut action = GridAction::Check;
    while next < CAMERA_4K.frames {
        let event = match action {
            GridAction::Check => GridEvent::Cancel(false),
            GridAction::Read => {
                next += 1;
                GridEvent::Packet(true, CAMERA_4K.packet(next - 1))
            }
            GridAction::Send => {
                sent += 1;
                GridEvent::Done
            }
            _ => GridEvent::NoFrame,
        };
        action = pass.step(event);
    }
    assert_eq!((sent, pass.tally().packets()), (17, 200));
}

#[test]
fn the_mean_lies_between_the_extremes() {
    let mut s = Spread::new();
    for v in [12, 30, 30, 9] {
        s.add(v);
    }
    let mean = s.sum() as f64 / s.count() as f64;
    assert!(s.least() as f64 <= mean && mean <= s.greatest() as f64);
    assert_eq!((s.least(), s.greatest(), s.sum(), s.count()), (9, 30, 81, 4));
}
