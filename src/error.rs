use vstd::prelude::*;

verus! {

/// The ways an operation of the engine can fail.
#[derive(Debug, Clone, Copy, PartialEq, Eq, Structural)]
pub enum AudioError {
    /// The file could not be read.
    Io,
    /// The data is not in a recognised format, or is corrupt.
    Decode,
    /// No output sink could be created.
    Device,
    /// The operation needs a loaded file and none is loaded.
    NotLoaded,
}

impl AudioError {
    /// A short description of the error.
    pub fn message(&self) -> (r: String)
        ensures
            r@ == match self {
                AudioError::Io => "failed to read the audio file"@,
                AudioError::Decode => "failed to decode the audio file"@,
                AudioError::Device => "failed to open an output sink"@,
                AudioError::NotLoaded => "no audio file loaded"@,
            },
    {
        match self {
            AudioError::Io => String::from_str("failed to read the audio file"),
            AudioError::Decode => String::from_str("failed to decode the audio file"),
            AudioError::Device => String::from_str("failed to open an output sink"),
            AudioError::NotLoaded => String::from_str("no audio file loaded"),
        }
    }
}

} // verus!
