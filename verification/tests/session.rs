//! Playback sessions on a clip that lives in memory: frames at a fixed rate, a
//! keyframe every so many, and a decoder that gives back what it is sent.

use std::collections::VecDeque;

use footage_viewer::clock::TimeBase;
use footage_viewer::play_state::PlayCommand;
use footage_viewer::session::{Action, Event, PlaySession, PlaybackFrame, Report, StreamShape};

const S: i64 = 1_000_000_000;
const TICKS: i64 = 512;

#[derive(Clone, Copy)]
struct Clip {
    width: u32,
    height: u32,
    fps: i64,
    frames: i64,
    gop: i64,
    start: i64,
}

/// 25 s at 30 fps, upright.
const COUNTER: Clip =
    Clip { width: 1080, height: 1920, fps: 30, frames: 750, gop: 30, start: 0 };
/// 8 s of 4K at 25 fps with a keyframe every 12 frames.
const CAMERA_4K: Clip =
    Clip { width: 3840, height: 2160, fps: 25, frames: 200, gop: 12, start: 0 };

impl Clip {
    fn shape(&self) -> StreamShape {
        StreamShape {
            src_w: self.width,
            src_h: self.height,
            time_base: TimeBase { num: 1, den: (self.fps * TICKS) as i32 },
            start: Some(self.start),
        }
    }

    fn pts(&self, frame: i64) -> i64 {
        self.start + frame * TICKS
    }

    /// The keyframe at or before this time of the container.
    fn keyframe_before(&self, us: i64) -> i64 {
        let mut key = 0;
        let mut k = 0;
        while k < self.frames {
            if self.pts(k) * 1_000_000 / (self.fps * TICKS) <= us {
                key = k;
            }
            k += self.gop;
        }
        key
    }
}

enum Outcome {
    Frame(PlaybackFrame),
    /// Nothing happens until a command comes.
    Blocked,
    Ended,
}

/// A session with everything around it that does its work.
struct Rig {
    clip: Clip,
    session: PlaySession,
    action: Option<Action>,
    now: u64,
    commands: VecDeque<PlayCommand>,
    connected: bool,
    /// The next frame the demuxer reads.
    next: i64,
    /// Frames in the decoder.
    queue: VecDeque<i64>,
    drained: bool,
    /// The frame decoded last, and the one set aside.
    current: i64,
    aside: i64,
    seeks: usize,
    listening: bool,
    reports: Vec<Report>,
    /// The timestamps of the frames, if they are not those of the clip.
    stamp: Option<fn(i64) -> i64>,
}

impl Rig {
    fn new(clip: Clip, from_ns: i64, long_side: u32) -> Rig {
        Rig {
            clip,
            session: PlaySession::new(clip.shape(), (clip.fps as i32, 1), from_ns, long_side),
            action: Some(Action::Poll),
            now: 0,
            commands: VecDeque::new(),
            connected: true,
            next: 0,
            queue: VecDeque::new(),
            drained: false,
            current: 0,
            aside: 0,
            seeks: 0,
            listening: true,
            reports: Vec::new(),
            stamp: None,
        }
    }

    fn pts(&self, frame: i64) -> i64 {
        match self.stamp {
            Some(stamp) => stamp(frame),
            None => self.clip.pts(frame),
        }
    }

    fn send(&mut self, cmd: PlayCommand) {
        self.commands.push_back(cmd);
    }

    fn command(&mut self) -> Event {
        match self.commands.pop_front() {
            Some(c) => Event::Command(c),
            None if self.connected => Event::Idle,
            None => Event::Disconnected,
        }
    }

    /// Do what the session asks for and tell it. Says if a frame was handed on,
    /// if it waits for a command that has not come, or if it is over.
    fn step(&mut self) -> Option<Outcome> {
        self.now += 1_000;
        let mut handed = None;
        let event = match self.action.take().expect("the session is over") {
            Action::Poll => self.command(),
            Action::Block => {
                if self.commands.is_empty() && self.connected {
                    self.action = Some(Action::Block);
                    return Some(Outcome::Blocked);
                }
                self.command()
            }
            Action::Wait(ns) => {
                if self.commands.is_empty() {
                    self.now += ns;
                }
                self.command()
            }
            Action::Seek(us) => {
                self.seeks += 1;
                self.next = self.clip.keyframe_before(us);
                self.queue.clear();
                self.drained = false;
                Event::Done
            }
            Action::Receive => match self.queue.pop_front() {
                Some(f) => {
                    self.current = f;
                    Event::Decoded(Some(self.pts(f)), None)
                }
                None if self.drained => Event::Eof,
                None => Event::Again,
            },
            Action::SendEof => {
                self.drained = true;
                Event::Done
            }
            Action::ReadPacket => {
                if self.next < self.clip.frames {
                    self.queue.push_back(self.next);
                    self.next += 1;
                    Event::Packet(true)
                } else {
                    Event::Packet(false)
                }
            }
            Action::Buffer => {
                self.aside = self.current;
                Event::Done
            }
            Action::Recall => {
                self.current = self.aside;
                Event::Decoded(Some(self.pts(self.current)), None)
            }
            Action::Convert(w, h) => {
                let shade = (self.current % 251) as u8 + 1;
                Event::Scaled(vec![shade; w as usize * h as usize * 4])
            }
            Action::Emit(f) => {
                handed = Some(f);
                Event::Delivered(self.listening)
            }
            Action::End => return Some(Outcome::Ended),
        };
        let step = self.session.step(event, self.now);
        self.action = Some(step.action);
        self.reports.extend(step.report);
        handed.map(Outcome::Frame)
    }

    /// Run until a frame is handed on, nothing more can happen, or the end.
    fn run(&mut self) -> Outcome {
        for _ in 0..20_000 {
            if let Some(outcome) = self.step() {
                return outcome;
            }
        }
        panic!("the session runs in circles");
    }

    fn frame(&mut self) -> Option<PlaybackFrame> {
        match self.run() {
            Outcome::Frame(f) => Some(f),
            _ => None,
        }
    }

    /// The first frame from here on within `tolerance` of `target`.
    fn land(&mut self, target: i64, tolerance: i64) -> Option<PlaybackFrame> {
        self.send(PlayCommand::Scrub(target));
        while let Some(f) = self.frame() {
            if (f.time_ns - target).abs() < tolerance {
                return Some(f);
            }
        }
        None
    }

    fn stop(&mut self) {
        self.send(PlayCommand::Stop);
        loop {
            match self.run() {
                Outcome::Ended => return,
                Outcome::Frame(_) => {}
                Outcome::Blocked => panic!("stopping should not block"),
            }
        }
    }
}

#[test]
fn scrub_lands_on_the_target_frame() {
    let mut rig = Rig::new(COUNTER, 0, 320);
    // Wait for playback to produce a first frame, then scrub to 12s.
    rig.frame().expect("no first frame");
    let landed = rig.land(12 * S, 50_000_000);
    assert!(landed.is_some(), "scrub did not land near 12s");
    rig.stop();
}

#[test]
fn scrub_lands_on_the_target_frame_in_4k() {
    let mut rig = Rig::new(CAMERA_4K, 0, 1600);
    let first = rig.frame().expect("no first frame");
    let first_len = first.rgba.len();
    assert!(first_len > 0, "first frame has no pixels");

    // 5.3 s sits mid-GOP (keyframes are 0.48 s apart), so landing there proves
    // the decoder decoded forward past the keyframe rather than stopping on it.
    let landed = rig.land(5_300_000_000, 50_000_000).expect("4K scrub did not land near 5.3s");
    rig.stop();

    assert_eq!(landed.rgba.len(), first_len, "landed frame is a different size");
    assert!(
        (landed.time_ns - 5_300_000_000).abs() < 50_000_000,
        "landed at {}, not 5.3s",
        landed.time_ns
    );
    assert_eq!(landed.time_ns, 5_320_000_000, "the first frame at or after the target");
}

#[test]
fn set_long_side_re_emits_the_held_frame_at_the_new_scale() {
    let mut rig = Rig::new(CAMERA_4K, 0, 1600);
    rig.frame().expect("no first frame");

    // Land on a frame and hold it, exactly as the UI does before a zoom.
    let held = rig.land(5_300_000_000, 50_000_000).expect("scrub did not land near 5.3s");
    assert_eq!(held.width, 1600, "playback should open at the box it was asked for");
    assert!(matches!(rig.run(), Outcome::Blocked), "the frame should be held");

    rig.send(PlayCommand::SetLongSide(held.src_w));
    let again = rig.frame().expect("the held frame was never re-emitted");
    rig.stop();

    assert_eq!(
        (again.width, again.height),
        (held.src_w, held.src_h),
        "re-emitted below the source's resolution"
    );
    assert_eq!(again.time_ns, held.time_ns, "re-emitted another frame than the held one");
}

#[test]
fn short_forward_scrubs_land_on_target() {
    let mut rig = Rig::new(COUNTER, 0, 320);
    // Wait for the first frame so the decoder is warm and near t=0, keeping
    // the following scrubs short hops forward rather than backward seeks.
    rig.frame().expect("no first frame");
    let seeks = rig.seeks;

    for target in [600_000_000, 1_100_000_000] {
        let landed = rig.land(target, 60_000_000);
        assert!(landed.is_some(), "forward scrub did not land near {target}");
    }
    assert_eq!(rig.seeks, seeks, "a short hop forward decodes in place");
    rig.stop();
}

#[test]
fn re_scrubbing_a_position_shows_the_same_frame() {
    let mut rig = Rig::new(COUNTER, 0, 320);
    rig.frame().expect("no first frame");

    let first = rig.land(12 * S, 60_000_000).expect("scrub did not land near 12s");
    let again = rig.land(12 * S, 60_000_000).expect("scrub did not land near 12s");
    // Scrub away and back: the revisit a backward step makes.
    rig.land(11 * S, 60_000_000).expect("scrub did not land near 11s");
    let revisit = rig.land(12 * S, 60_000_000).expect("scrub did not land near 12s");
    rig.stop();

    assert_eq!(
        first.time_ns, again.time_ns,
        "re-scrubbing 12s stepped off the frame it just showed"
    );
    assert!(first.rgba == again.rgba, "re-scrubbing 12s showed different pixels");
    assert_eq!(first.time_ns, revisit.time_ns, "scrubbing back to 12s landed elsewhere");
    assert!(first.rgba == revisit.rgba, "scrubbing back to 12s showed different pixels");
    assert!(rig.reports.iter().any(|r| matches!(r, Report::Cached(..))), "nothing was served");
}

#[test]
fn stop_ends_playback() {
    let mut rig = Rig::new(COUNTER, 0, 320);
    rig.frame().expect("no first frame");
    rig.stop();
}

#[test]
fn a_closed_command_channel_ends_playback() {
    let mut rig = Rig::new(COUNTER, 0, 320);
    rig.frame().expect("no first frame");
    rig.connected = false;
    assert!(matches!(rig.run(), Outcome::Ended));
}

#[test]
fn a_listener_that_left_ends_playback() {
    let mut rig = Rig::new(COUNTER, 0, 320);
    rig.listening = false;
    assert!(matches!(rig.run(), Outcome::Frame(_)));
    assert!(matches!(rig.run(), Outcome::Ended));
}

#[test]
fn a_failed_decode_ends_playback() {
    let mut session = PlaySession::new(COUNTER.shape(), (30, 1), 0, 320);
    let a = session.step(Event::Idle, 0).action;
    assert!(matches!(a, Action::Seek(0)));
    assert!(matches!(session.step(Event::Done, 1).action, Action::Receive));
    assert!(matches!(session.step(Event::Failed, 2).action, Action::End));
}

#[test]
fn playback_opens_at_the_keyframe_before() {
    let mut rig = Rig::new(COUNTER, 3_500_000_000, 320);
    let first = rig.frame().expect("no first frame");
    assert_eq!(first.time_ns, 3 * S);
    assert_eq!((first.width, first.height, first.src_w, first.src_h), (180, 320, 1080, 1920));
    rig.stop();
}

#[test]
fn a_stream_that_starts_late_is_timed_from_its_start() {
    let late = Clip { start: 10 * 30 * TICKS, ..COUNTER };
    let mut rig = Rig::new(late, 0, 320);
    assert_eq!(rig.frame().map(|f| f.time_ns), Some(0));
    assert_eq!(rig.land(2 * S, 1).map(|f| f.time_ns), Some(2 * S));
    rig.stop();
}

#[test]
fn playback_keeps_real_time() {
    let mut rig = Rig::new(COUNTER, 0, 320);
    rig.frame().expect("no first frame");
    let began = rig.now;
    for _ in 0..60 {
        rig.frame().expect("playback should go on");
    }
    // Sixty frames at 30 fps take two seconds.
    let took = (rig.now - began) as i64;
    assert!((took - 2 * S).abs() < 10_000_000, "sixty frames took {took} ns");
    rig.stop();
}

#[test]
fn a_paused_clip_shows_nothing_until_it_resumes() {
    let mut rig = Rig::new(COUNTER, 0, 320);
    let shown = rig.frame().expect("no first frame").time_ns;
    rig.send(PlayCommand::Pause);
    assert!(matches!(rig.run(), Outcome::Blocked));
    rig.send(PlayCommand::Resume);
    let next = rig.frame().expect("playback should go on").time_ns;
    assert!(next > shown);
    rig.stop();
}

#[test]
fn a_play_lands_on_its_target_and_goes_on() {
    let mut rig = Rig::new(COUNTER, 0, 320);
    rig.frame().expect("no first frame");
    rig.send(PlayCommand::Play(7 * S));
    let landed = rig.frame().expect("no frame").time_ns;
    assert_eq!(landed, 7 * S);
    assert!(rig.frame().expect("playback should go on").time_ns > landed);
    rig.stop();
}

#[test]
fn the_last_of_several_moves_wins() {
    let mut rig = Rig::new(COUNTER, 0, 320);
    rig.frame().expect("no first frame");
    rig.send(PlayCommand::Scrub(20 * S));
    rig.send(PlayCommand::Scrub(15 * S));
    rig.send(PlayCommand::Scrub(5 * S));
    assert_eq!(rig.frame().map(|f| f.time_ns), Some(5 * S));
    assert!(matches!(rig.run(), Outcome::Blocked), "a scrub shows one frame and holds");
    rig.stop();
}

#[test]
fn the_end_of_the_stream_holds_on_the_last_frame() {
    let mut rig = Rig::new(CAMERA_4K, 7_900_000_000, 320);
    let mut last = None;
    loop {
        match rig.run() {
            Outcome::Frame(f) => last = Some(f.time_ns),
            Outcome::Blocked => break,
            Outcome::Ended => panic!("the end of the stream is not the end of the session"),
        }
    }
    assert_eq!(last, Some(199 * 40_000_000));
    // The session is still there to be moved.
    assert_eq!(rig.land(S, 40_000_000).map(|f| f.time_ns), Some(S));
    // A scrub past the end shows the last frame.
    rig.send(PlayCommand::Scrub(60 * S));
    assert_eq!(rig.frame().map(|f| f.time_ns), Some(199 * 40_000_000));
    rig.stop();
}

#[test]
fn a_landed_move_is_reported() {
    let mut rig = Rig::new(CAMERA_4K, 0, 320);
    rig.frame().expect("no first frame");
    rig.land(5_300_000_000, 50_000_000).expect("did not land");
    assert!(matches!(rig.run(), Outcome::Blocked));
    let landed = rig.reports.iter().find_map(|r| match r {
        Report::Landed(p, _, at) => Some((p.target_ns, p.decoded, *at)),
        _ => None,
    });
    // From the keyframe at 5.28 s to the frame at 5.32 s: two frames.
    assert_eq!(landed, Some((5_300_000_000, 2, 5_320_000_000)));
    rig.stop();
}

#[test]
fn held_frames_are_dropped_when_the_scale_changes() {
    let mut rig = Rig::new(COUNTER, 0, 320);
    rig.frame().expect("no first frame");
    assert_eq!(rig.land(12 * S, 1).map(|f| f.height), Some(320));
    assert_eq!(rig.land(11 * S, 1).map(|f| f.height), Some(320));
    rig.send(PlayCommand::SetLongSide(640));
    assert_eq!(rig.frame().map(|f| (f.time_ns, f.height)), Some((11 * S, 640)));
    // The frame at 12 s was held at the old scale.
    assert_eq!(rig.land(12 * S, 1).map(|f| f.height), Some(640));
    rig.stop();
}

#[test]
fn frames_that_play_are_not_held() {
    let mut rig = Rig::new(COUNTER, 0, 320);
    rig.frame().expect("no first frame");
    rig.send(PlayCommand::Play(7 * S));
    assert_eq!(rig.frame().map(|f| f.time_ns), Some(7 * S));
    rig.frame().expect("playback should go on");
    assert_eq!(rig.land(7 * S, 1).map(|f| f.time_ns), Some(7 * S));
    assert!(!rig.reports.iter().any(|r| matches!(r, Report::Cached(..))));
    // But the frame that scrub has shown is.
    assert_eq!(rig.land(7 * S, 1).map(|f| f.time_ns), Some(7 * S));
    assert!(matches!(rig.run(), Outcome::Blocked));
    assert!(rig.reports.iter().any(|r| matches!(r, Report::Cached(..))));
    rig.stop();
}

#[test]
fn a_rescale_while_playing_just_changes_the_frames_to_come() {
    let mut rig = Rig::new(COUNTER, 0, 320);
    let first = rig.frame().expect("no first frame");
    let seeks = rig.seeks;
    rig.send(PlayCommand::SetLongSide(640));
    let next = rig.frame().expect("playback should go on");
    assert_eq!(next.height, 640);
    assert!(next.time_ns > first.time_ns);
    assert_eq!(rig.seeks, seeks);
    rig.stop();
}

#[test]
fn a_scrub_to_the_frame_playback_stands_on_shows_that_frame() {
    let mut rig = Rig::new(CAMERA_4K, 0, 320);
    assert_eq!(rig.frame().map(|f| f.time_ns), Some(0));
    assert_eq!(rig.frame().map(|f| f.time_ns), Some(40_000_000));
    let seeks = rig.seeks;
    rig.send(PlayCommand::Scrub(40_000_000));
    assert_eq!(rig.frame().map(|f| f.time_ns), Some(40_000_000), "the picture stepped forward");
    assert_eq!(rig.seeks, seeks + 1, "a frame that has passed has to be sought");
    assert!(matches!(rig.run(), Outcome::Blocked));
    rig.stop();
}

#[test]
fn a_scrub_to_where_the_session_opens_still_seeks_there() {
    let mut rig = Rig::new(COUNTER, 20 * S, 320);
    rig.send(PlayCommand::Scrub(20 * S));
    assert_eq!(rig.frame().map(|f| f.time_ns), Some(20 * S));
    assert_eq!(rig.seeks, 1);
    assert!(matches!(rig.run(), Outcome::Blocked));
    let decoded = rig.reports.iter().find_map(|r| match r {
        Report::Landed(p, _, _) => Some(p.decoded),
        _ => None,
    });
    assert_eq!(decoded, Some(31), "from the keyframe before, not from the start of the clip");
    rig.stop();
}

#[test]
fn a_move_paused_before_it_landed_leaves_the_decoder_where_it_sought() {
    let mut rig = Rig::new(COUNTER, 0, 320);
    assert_eq!(rig.frame().map(|f| f.time_ns), Some(0));
    rig.send(PlayCommand::Play(10 * S));
    rig.send(PlayCommand::Pause);
    assert!(matches!(rig.run(), Outcome::Blocked));
    // A second ahead of the frame on screen, but behind the decoder now.
    rig.send(PlayCommand::Scrub(S));
    assert_eq!(rig.frame().map(|f| f.time_ns), Some(S));
    rig.stop();
}

#[test]
fn a_frame_set_aside_long_ago_is_not_taken_for_the_last() {
    let mut rig = Rig::new(CAMERA_4K, 0, 320);
    rig.frame().expect("no first frame");
    assert_eq!(rig.land(2 * S, 1).map(|f| f.time_ns), Some(2 * S));
    assert!(matches!(rig.run(), Outcome::Blocked));
    // Cut short by a scrub over held ground, with a frame set aside.
    rig.send(PlayCommand::Scrub(7 * S));
    while rig.aside < 150 {
        rig.step();
    }
    rig.send(PlayCommand::Scrub(2 * S));
    assert_eq!(rig.frame().map(|f| f.time_ns), Some(2 * S));
    // Play through to the end, and then step past it.
    rig.send(PlayCommand::Resume);
    let mut last = None;
    while let Some(f) = rig.frame() {
        last = Some(f.time_ns);
    }
    assert_eq!(last, Some(199 * 40_000_000));
    rig.send(PlayCommand::Scrub(8 * S));
    assert_eq!(rig.frame().map(|f| f.time_ns), Some(199 * 40_000_000));
    assert!(matches!(rig.run(), Outcome::Blocked));
    rig.stop();
}

#[test]
fn a_scrub_past_the_end_shows_the_last_frame_every_time() {
    let last = 199 * 40_000_000;
    let mut rig = Rig::new(CAMERA_4K, 0, 320);
    rig.frame().expect("no first frame");
    assert_eq!(rig.land(7_500_000_000, 40_000_000).map(|f| f.time_ns), Some(7_520_000_000));
    rig.send(PlayCommand::Scrub(8 * S));
    let first = rig.frame().expect("a scrub past the end lands on the last frame");
    assert_eq!(first.time_ns, last);
    // Served from held ground, so that the decoder stays at the end.
    assert_eq!(rig.land(7_500_000_000, 40_000_000).map(|f| f.time_ns), Some(7_520_000_000));
    rig.send(PlayCommand::Scrub(8 * S));
    let again = rig.frame().expect("the last frame has to be sought again");
    assert_eq!(again.time_ns, last);
    assert!(again.rgba == first.rgba);
    assert!(matches!(rig.run(), Outcome::Blocked));
    // And so does one that was meant to play on from there.
    rig.send(PlayCommand::Play(9 * S));
    assert_eq!(rig.frame().map(|f| f.time_ns), Some(last));
    assert!(matches!(rig.run(), Outcome::Blocked));
    rig.stop();
}

#[test]
fn a_clip_without_frames_is_sought_once_per_move() {
    let mut rig = Rig::new(Clip { frames: 0, ..CAMERA_4K }, 0, 320);
    assert!(matches!(rig.run(), Outcome::Blocked));
    let seeks = rig.seeks;
    rig.send(PlayCommand::Scrub(S));
    assert!(matches!(rig.run(), Outcome::Blocked));
    assert_eq!(rig.seeks, seeks + 1);
    rig.stop();
}

#[test]
fn an_uneven_clip_is_landed_on_exactly() {
    // Frames of 29.97 a second whose timestamps are whole milliseconds.
    let stamp = |frame: i64| frame * 1001 / 30;
    let mut rig = Rig::new(Clip { fps: 30, frames: 300, gop: 30, ..CAMERA_4K }, 0, 320);
    rig.session = PlaySession::new(
        StreamShape { time_base: TimeBase { num: 1, den: 1000 }, ..rig.clip.shape() },
        (30_000, 1001),
        0,
        320,
    );
    rig.stamp = Some(stamp);
    rig.frame().expect("no first frame");
    for frame in [100, 47, 48, 250] {
        rig.send(PlayCommand::Scrub(stamp(frame) * 1_000_000));
        assert_eq!(rig.frame().map(|f| f.time_ns), Some(stamp(frame) * 1_000_000));
    }
    rig.stop();
}
