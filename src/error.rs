use vstd::prelude::*;

verus! {

/// Every failure of the library. All of them are fatal to a run.
#[derive(Debug, Clone, Copy, PartialEq, Eq, Structural)]
pub enum EditError {
    /// Neither an MDCV nor a CLL edit section is present.
    ConfigInvalid,
    /// A metadata payload holds fewer bits than its layout requires.
    DecodeUnderflow,
    /// A re-encoded payload does not fit the 8-bit payload size field.
    PayloadTooLarge,
    /// The SEI messages of a NAL could not be located in its payload.
    MalformedSei,
    /// No input path was given.
    NoInput,
}

impl EditError {
    /// A human readable description of the error.
    pub fn message(&self) -> (r: String) {
        match self {
            EditError::ConfigInvalid => "One of either MDCV or CLL metadata must be present".to_string(),
            EditError::DecodeUnderflow => "Not enough data to decode the SEI payload".to_string(),
            EditError::PayloadTooLarge => "Payload too large".to_string(),
            EditError::MalformedSei => "Malformed SEI NAL unit".to_string(),
            EditError::NoInput => "No input file provided. See `hevc_hdr_editor --help`".to_string(),
        }
    }
}

} // verus!
