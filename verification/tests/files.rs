//! Names, folders, drives, logs and dates.

use footage_viewer::calendar::{civil_from_days, utc_timestamp};
use footage_viewer::cells::{cell_name, cell_time};
use footage_viewer::drive::{bus_of, device_name, letter_of, storage_line, DriveLog, BUS_NVME, BUS_USB};
use footage_viewer::folder::{after_delete, neighbor_of, sibling_videos, DirEntry};
use footage_viewer::logging::{log_line, log_path, rotation, KEEP_PREVIOUS};
use footage_viewer::naming::{
    caret_before_ext, check_name, display_name, is_taken, is_video, quote, same_text, still_name,
    taken_message, trim, video_ext, NameCheck, VIDEO_EXT_COUNT,
};
use footage_viewer::text::{push_decimal, push_fixed, push_padded, push_signed, push_signed_fixed};
use footage_viewer::update::{run, AfterCheck, UpdateCheck};

fn listing(files: &[&str], dirs: &[&str]) -> Vec<DirEntry> {
    let file = |n: &&str| DirEntry { name: n.to_string(), is_dir: false };
    let dir = |n: &&str| DirEntry { name: n.to_string(), is_dir: true };
    files.iter().map(file).chain(dirs.iter().map(dir)).collect()
}

fn names(list: &[&str]) -> Vec<String> {
    list.iter().map(|n| n.to_string()).collect()
}

#[test]
fn siblings_are_sorted_videos_only() {
    let entries = listing(
        &["b.mp4", "a.mov", "notes.txt"], // the text must be skipped
        &["sub.mp4"],                     // dir, not a file
    );
    assert_eq!(sibling_videos(&entries), ["a.mov", "b.mp4"]);
}

#[test]
fn siblings_sort_by_their_bytes() {
    let entries = listing(&["b.mp4", "a.mp4", "B.mp4", "ä.mp4", "a.MP4"], &[]);
    assert_eq!(sibling_videos(&entries), ["B.mp4", "a.MP4", "a.mp4", "b.mp4", "ä.mp4"]);
}

#[test]
fn is_video_spots_a_clip_whatever_the_case_and_nothing_else() {
    assert!(is_video("a.mp4"));
    assert!(is_video("a.MOV"));
    assert!(!is_video("a.jpg"));
    assert!(!is_video("a")); // no extension at all
}

#[test]
fn every_video_extension_is_recognized() {
    let all: Vec<&str> = (0..VIDEO_EXT_COUNT).map(video_ext).collect();
    assert_eq!(all, ["mp4", "mkv", "mov", "webm", "avi", "m4v"]);
    for e in all {
        assert!(is_video(&format!("clip.{e}")));
        assert!(is_video(&format!("clip.{}", e.to_uppercase())));
    }
    assert!(!is_video(".mp4"), "a hidden file is a name without an extension");
    assert!(!is_video("clip.mp4.part"));
    assert!(!is_video("mp4"));
}

#[test]
fn neighbor_walks_and_clamps() {
    let list = sibling_videos(&listing(&["a.mp4", "b.mp4", "c.mp4"], &[]));

    assert_eq!(neighbor_of(&list, "b.mp4", 1).as_deref(), Some("c.mp4"));
    assert_eq!(neighbor_of(&list, "b.mp4", -1).as_deref(), Some("a.mp4"));
    assert_eq!(neighbor_of(&list, "a.mp4", -1), None); // clamp at the first
    assert_eq!(neighbor_of(&list, "c.mp4", 1), None); // clamp at the last
}

#[test]
fn neighbor_picks_up_files_added_after_open() {
    // At open time the next sibling is c.mp4.
    let list = sibling_videos(&listing(&["a.mp4", "c.mp4"], &[]));
    assert_eq!(neighbor_of(&list, "a.mp4", 1).as_deref(), Some("c.mp4"));
    // A file dropped into the folder mid-session is seen on the next scan.
    let list = sibling_videos(&listing(&["a.mp4", "c.mp4", "b.mp4"], &[]));
    assert_eq!(neighbor_of(&list, "a.mp4", 1).as_deref(), Some("b.mp4"));
}

#[test]
fn a_clip_outside_the_list_has_no_neighbor() {
    assert_eq!(neighbor_of(&names(&["a.mp4"]), "z.mp4", 1), None);
    assert_eq!(neighbor_of(&Vec::new(), "a.mp4", -1), None);
}

#[test]
fn stepping_forth_and_back_returns() {
    let list = names(&["a.mp4", "b.mp4", "c.mp4"]);
    let there = neighbor_of(&list, "a.mp4", 1).unwrap();
    assert_eq!(neighbor_of(&list, &there, -1).as_deref(), Some("a.mp4"));
}

#[test]
fn a_deleted_clip_gives_way_to_the_next_or_the_previous() {
    let list = names(&["a.mp4", "b.mp4", "c.mp4"]);
    assert_eq!(after_delete(&list, "b.mp4").as_deref(), Some("c.mp4"));
    assert_eq!(after_delete(&list, "c.mp4").as_deref(), Some("b.mp4"));
    assert_eq!(after_delete(&names(&["a.mp4"]), "a.mp4"), None);
}

#[test]
fn the_caret_opens_before_the_extension() {
    assert_eq!(caret_before_ext("clip.mp4"), 4);
    // The last dot: everything ahead of it is the name being edited.
    assert_eq!(caret_before_ext("a.b.mp4"), 3);
    // Nothing to stay clear of, so the end.
    assert_eq!(caret_before_ext("clip"), 4);
    // Characters, not bytes. A byte offset would put the caret eight
    // characters along a name that is only four long.
    assert_eq!(caret_before_ext("клип.mp4"), 4);
}

#[test]
fn stills_are_named_after_their_clips() {
    assert_eq!(still_name("clip.mp4"), "clip.jpg");
    assert_eq!(still_name("a.b.mkv"), "a.b.jpg");
    assert_eq!(still_name("clip"), "clip.jpg");
    assert_eq!(still_name("clip.mp4"), still_name("clip.mkv"));
    assert!(!is_video(&still_name("clip.mp4")));
}

#[test]
fn names_are_checked_before_anything_is_touched() {
    let refused = |typed: &str| match check_name("a.mp4", typed) {
        NameCheck::Refused(why) => why,
        _ => panic!("{typed} should have been refused"),
    };
    assert_eq!(refused(""), "The name cannot be empty.");
    assert_eq!(refused(" \t\u{3000}"), "The name cannot be empty.");
    assert_eq!(refused("x/a.mp4"), "The name cannot contain \\ or /.");
    assert_eq!(
        refused("a"),
        "The name has to keep a video extension (mp4, mkv, mov, webm, avi, m4v)."
    );
    assert!(matches!(check_name("a.mp4", " a.mp4 "), NameCheck::Unchanged));
    assert!(matches!(check_name("a.mp4", " b.mkv "), NameCheck::Candidate(n) if n == "b.mkv"));
    assert!(matches!(check_name("a.mp4", "A.mp4"), NameCheck::Candidate(n) if n == "A.mp4"));
}

#[test]
fn small_helpers_on_names() {
    assert_eq!(trim("  a b\u{00a0}\n"), "a b");
    assert_eq!(trim(" \t "), "");
    assert!(same_text("é", "é") && !same_text("a", "ab") && !same_text("a", "b"));
    assert_eq!(quote("x ", "n", " y"), "x \"n\" y");
    assert_eq!(taken_message("n"), "\"n\" is already in this folder.");
    assert_eq!(display_name(Some("a.mp4"), "x/a.mp4"), "a.mp4");
    assert_eq!(display_name(None, "/"), "/");
    assert!(is_taken(Some(true), &Some(vec![1]), &Some(vec![2])));
    assert!(!is_taken(Some(true), &Some(vec![1]), &Some(vec![1])));
    assert!(!is_taken(Some(false), &None, &None));
    // Not knowing whether it is there is a reason to leave it alone.
    assert!(is_taken(None, &None, &Some(vec![1])));
}

#[test]
fn letter_of_a_windows_path() {
    assert_eq!(letter_of(r"E:\clips\a.MP4"), Some('E'));
}

#[test]
fn a_unc_path_has_no_drive_letter() {
    assert_eq!(letter_of(r"\\server\share\a.MP4"), None);
}

#[test]
fn a_relative_path_has_no_drive_letter() {
    assert_eq!(letter_of("clips/a.MP4"), None);
}

#[test]
fn a_verbatim_path_has_a_drive_letter() {
    assert_eq!(letter_of(r"\\?\e:\clips"), Some('E'));
    assert_eq!(letter_of(r"\\?\UNC\server\share"), None);
    assert_eq!(letter_of("c:x"), Some('C'));
    assert_eq!(letter_of("1:x"), None);
}

#[test]
fn a_bus_is_named_or_told_by_number() {
    assert_eq!(bus_of(Some(BUS_USB)).as_deref(), Some("USB"));
    assert_eq!(bus_of(Some(BUS_NVME)).as_deref(), Some("NVMe"));
    let known: Vec<String> =
        [1, 3, 4, 8, 10, 11, 12, 14].iter().map(|b| bus_of(Some(*b)).unwrap()).collect();
    assert_eq!(known, ["SCSI", "ATA", "FireWire", "RAID", "SAS", "SATA", "SD", "virtual"]);
    assert_eq!(bus_of(Some(99)).as_deref(), Some("bus 99"));
    assert_eq!(bus_of(Some(-1)).as_deref(), Some("bus -1"));
    assert_eq!(bus_of(None), None);
    assert_eq!(device_name('E'), r"\\.\E:");
    assert_eq!(storage_line('E', "USB"), "storage: E: is on a USB bus");
}

#[test]
fn a_drive_is_asked_for_once() {
    let mut log = DriveLog::new();
    assert!(log.first_sight('E'));
    assert!(!log.first_sight('E'));
    assert!(log.first_sight('C'));
    assert!(!log.first_sight('E'));
}

#[test]
fn log_paths_number_previous_runs() {
    let dir = "logs";
    assert_eq!(log_path(dir, 0), format!("{dir}/footage_viewer.log"));
    assert_eq!(log_path(dir, 1), format!("{dir}/footage_viewer.1.log"));
    assert_eq!(log_path(dir, 4), format!("{dir}/footage_viewer.4.log"));
    assert_eq!(log_path("", 0), "footage_viewer.log");
    assert_eq!(log_path("logs/", 0), "logs/footage_viewer.log");
}

#[test]
fn a_rotation_keeps_twenty_runs() {
    // The logs by number: what each run wrote.
    let mut logs: Vec<Option<u32>> = vec![None; KEEP_PREVIOUS + 1];
    for run in 0..25 {
        let (drop, moves) = rotation();
        logs[drop] = None;
        for (from, to) in moves {
            if let Some(held) = logs[from].take() {
                logs[to] = Some(held);
            }
        }
        assert_eq!(logs[0], None, "the current log's place is free");
        logs[0] = Some(run);
    }
    let expected: Vec<Option<u32>> = (5..25).rev().map(Some).collect();
    assert_eq!(logs, expected);
}

#[test]
fn log_lines_align_their_level() {
    assert_eq!(log_line("T", "INFO", "app", "hello"), "T INFO  [app] hello\n");
    assert_eq!(log_line("T", "ERROR", "app", "hello"), "T ERROR [app] hello\n");
}

#[test]
fn civil_from_days_matches_known_dates() {
    assert_eq!(civil_from_days(0), (1970, 1, 1)); // Unix epoch
    assert_eq!(civil_from_days(-1), (1969, 12, 31)); // day before
    assert_eq!(civil_from_days(11_017), (2000, 3, 1)); // leap-year boundary
    assert_eq!(civil_from_days(20_283), (2025, 7, 14));
}

#[test]
fn every_day_of_four_centuries_has_its_own_date() {
    let mut last = civil_from_days(-1);
    for z in 0..146_097 {
        let date = civil_from_days(z);
        assert!(date > last, "day {z} does not follow the one before");
        last = date;
    }
    assert_eq!(last, (2369, 12, 31));
    assert_eq!(civil_from_days(-719_468), (0, 3, 1));
}

#[test]
fn timestamps_are_utc() {
    assert_eq!(utc_timestamp(0, 0), "1970-01-01 00:00:00.000Z");
    assert_eq!(utc_timestamp(1_784_197_351, 7), "2026-07-16 10:22:31.007Z");
    assert_eq!(utc_timestamp(951_782_399, 999), "2000-02-28 23:59:59.999Z");
}

#[test]
fn numbers_are_written_out() {
    let mut s = String::new();
    push_decimal(&mut s, 0);
    push_decimal(&mut s, 1_842_300_000);
    push_padded(&mut s, 7, 3);
    push_padded(&mut s, 12345, 3);
    push_signed(&mut s, -42);
    assert_eq!(s, "0184230000000712345-42");
    let mut s = String::new();
    push_fixed(&mut s, 2997, 100, 2);
    s.push(' ');
    push_fixed(&mut s, 1, 8, 2); // a tie goes to the even digit
    s.push(' ');
    push_fixed(&mut s, 3, 8, 2);
    s.push(' ');
    push_fixed(&mut s, 5, 2, 0);
    s.push(' ');
    push_signed_fixed(&mut s, -1, 3, 3);
    assert_eq!(s, "29.97 0.12 0.38 2 -0.333");
}

#[test]
fn a_check_relaunches_only_what_was_replaced() {
    match run(UpdateCheck::Replaced("0.9.1".to_string())) {
        AfterCheck::Relaunch(m) => {
            assert_eq!(m, "Updated to version 0.9.1. The app will now restart.")
        }
        AfterCheck::GoOn => panic!("a replaced executable is to be started anew"),
    }
    assert!(matches!(run(UpdateCheck::Current), AfterCheck::GoOn));
    assert!(matches!(run(UpdateCheck::Failed), AfterCheck::GoOn));
}

#[test]
fn cells_are_sampled_in_the_middle_of_their_slices() {
    let times: Vec<i64> = (0..4).map(|i| cell_time(8_000_000_000, i, 4)).collect();
    assert_eq!(times, [1_000_000_000, 3_000_000_000, 5_000_000_000, 7_000_000_000]);
    assert_eq!(cell_name(3, 7_000_000_000), "cell_03_t007.00.png");
    assert_eq!(cell_name(12, 123_456_000_000), "cell_12_t123.46.png");
    assert_eq!(cell_name(0, -1_500_000_000), "cell_00_t-01.50.png");
    assert_eq!(cell_time(-8, 0, 4), -1);
}
