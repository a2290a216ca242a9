//! The decision core of a footage viewer: everything the player decides,
//! computes or formats, as verified functions on plain values.
//!
//! Media times are `i64` nanoseconds from the start of the stream and wall
//! times are `u64` nanoseconds on a monotonic clock; both names end in `_ns`.

pub mod calendar;
pub mod cells;
pub mod clip_laws;
pub mod clip_stats;
pub mod clock;
pub mod drive;
pub mod folder;
pub mod grid_laws;
pub mod grid_pass;
pub mod grid_view;
pub mod json;
pub mod logging;
pub mod naming;
pub mod overlay;
pub mod pace;
pub mod play_state;
pub mod playback;
pub mod pump;
pub mod record_law;
pub mod reports;
pub mod sampler;
pub mod scrub_cache;
pub mod session;
pub mod session_laws;
pub mod shelf;
pub mod shelf_laws;
pub mod sizing;
pub mod still;
pub mod tally;
pub mod text;
pub mod update;
pub mod view;
pub mod viewer;
pub mod viewer_laws;
