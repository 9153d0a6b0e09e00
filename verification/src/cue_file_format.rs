//! The container format of the referenced audio file.

use vstd::prelude::*;

verus! {

/// The closed set of file formats a sheet can reference.
#[derive(Debug, Clone, Copy, PartialEq, Eq, Structural)]
pub enum CueFileFormat {
    BINARY,
    MOTOROLA,
    AIFF,
    WAVE,
    MP3,
}

impl CueFileFormat {
    /// The canonical label of the format.
    pub open spec fn spec_label(self) -> Seq<char> {
        match self {
            CueFileFormat::BINARY => "BINARY"@,
            CueFileFormat::MOTOROLA => "MOTOROLA"@,
            CueFileFormat::AIFF => "AIFF"@,
            CueFileFormat::WAVE => "WAVE"@,
            CueFileFormat::MP3 => "MP3"@,
        }
    }

    /// The canonical label of the format.
    pub fn label(&self) -> (r: &'static str)
        ensures
            r@ == self.spec_label(),
    {
        match self {
            CueFileFormat::BINARY => "BINARY",
            CueFileFormat::MOTOROLA => "MOTOROLA",
            CueFileFormat::AIFF => "AIFF",
            CueFileFormat::WAVE => "WAVE",
            CueFileFormat::MP3 => "MP3",
        }
    }
}

} // verus!
