//! An in-memory model of an audio disc's table of contents (a cue sheet),
//! together with a deterministic renderer that emits the usual line-oriented
//! text grammar (`CATALOG`, `FILE`, `TRACK`, `INDEX`, ... lines).
//!
//! A [`CueSheet`] owns the disc-wide metadata and a set of tracks ordered by
//! track number; a [`CueTrack`] owns one track's mode, flags, gaps, CD-Text
//! fields, remarks and index points.  Rendering walks these entities in a
//! fixed, canonical order; it can either show each track's own index
//! durations or inject a running disc-wide offset instead.

pub mod cue_cd_text;
pub mod cue_duration;
pub mod cue_file_format;
pub mod cue_rem;
pub mod cue_sheet;
pub mod cue_track;
pub mod cue_track_flag;
pub mod cue_track_mode;
pub mod ordered;
pub mod util;

pub use crate::cue_cd_text::CueCdText;
pub use crate::cue_duration::CueDuration;
pub use crate::cue_duration::DurationFormat;
pub use crate::cue_file_format::CueFileFormat;
pub use crate::cue_sheet::CueSheet;
pub use crate::cue_track::ComputeKind;
pub use crate::cue_track::CueTrack;
pub use crate::cue_track::CueTrackBuilder;
pub use crate::cue_track_flag::CueTrackFlag;
pub use crate::cue_track_mode::CueTrackMode;
pub use crate::util::cue_format_string_value;
