//! The physical encoding of a track.

use vstd::prelude::*;

verus! {

/// The closed set of track modes.
#[derive(Debug, Clone, Copy, PartialEq, Eq, Structural)]
pub enum CueTrackMode {
    AUDIO,
    CDG,
    MODE1_2048,
    MODE1_2352,
    MODE2_2336,
    MODE2_2352,
    CDI2336,
    CDI2352,
}

impl CueTrackMode {
    /// The canonical label of the mode.
    pub open spec fn spec_label(self) -> Seq<char> {
        match self {
            CueTrackMode::AUDIO => "AUDIO"@,
            CueTrackMode::CDG => "CDG"@,
            CueTrackMode::MODE1_2048 => "MODE1/2048"@,
            CueTrackMode::MODE1_2352 => "MODE1/2352"@,
            CueTrackMode::MODE2_2336 => "MODE2/2336"@,
            CueTrackMode::MODE2_2352 => "MODE2/2352"@,
            CueTrackMode::CDI2336 => "CDI/2336"@,
            CueTrackMode::CDI2352 => "CDI/2352"@,
        }
    }

    /// The canonical label of the mode.
    pub fn label(&self) -> (r: &'static str)
        ensures
            r@ == self.spec_label(),
    {
        match self {
            CueTrackMode::AUDIO => "AUDIO",
            CueTrackMode::CDG => "CDG",
            CueTrackMode::MODE1_2048 => "MODE1/2048",
            CueTrackMode::MODE1_2352 => "MODE1/2352",
            CueTrackMode::MODE2_2336 => "MODE2/2336",
            CueTrackMode::MODE2_2352 => "MODE2/2352",
            CueTrackMode::CDI2336 => "CDI/2336",
            CueTrackMode::CDI2352 => "CDI/2352",
        }
    }
}

} // verus!
