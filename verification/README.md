# footage_viewer

A viewer for folders of camera footage. It opens a clip as a contact sheet of its
keyframes, plays it with frame-exact scrubbing, saves stills, and renames or
deletes clips.

- `src/` is the library: everything the viewer decides, computes or formats, in
  Rust verified with Verus. Media times are integer nanoseconds; the work that
  only the outside world can do (decoding, drawing, files, threads) appears as
  events that come in and actions that go out. The machines are `session` (live
  playback), `grid_pass` (the contact sheet), `still` (one frame at full
  resolution) and `viewer` (the app between repaints); `session_laws`,
  `clip_laws`, `grid_laws`, `shelf_laws`, `viewer_laws` and `record_law` state
  what holds of them across many steps.
- `app/` is the program around it: the window, libav, the file system and the
  threads. It performs the actions and hands back the events.
- `tests/` runs the library on clips and folders that live in memory.
