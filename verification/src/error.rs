//! Failures of the capture logic.

use vstd::prelude::*;
use vstd::string::StringExecFns;

verus! {

/// Failures that the capture logic can report to its caller.
#[derive(Debug, Copy, Clone, PartialEq, Eq, Structural)]
pub enum Error {
    /// The set of outputs to capture is empty, or the requested region
    /// touches none of the captured outputs.
    NoOutputs,
    /// A frame holds fewer bytes than its dimensions call for.
    BufferTooSmall,
    /// A frame's colour layout cannot be turned into an RGBA image.
    InvalidColor,
    /// The compositor reported that the copy could not be performed.
    FramecopyFailed,
    /// The compositor offered no pixel format that can be captured.
    NoSupportedBufferFormat,
}

impl Error {
    /// The text of each failure.
    pub open spec fn spec_message(self) -> Seq<char> {
        match self {
            Error::NoOutputs => "no outputs supplied"@,
            Error::BufferTooSmall => "image buffer is not big enough"@,
            Error::InvalidColor => "image color type not supported"@,
            Error::FramecopyFailed => "framecopy failed"@,
            Error::NoSupportedBufferFormat => "No supported buffer format"@,
        }
    }

    /// Human-readable description of the failure.
    pub fn message(&self) -> (text: String)
        ensures
            text@ == self.spec_message(),
    {
        match self {
            Error::NoOutputs => String::from_str("no outputs supplied"),
            Error::BufferTooSmall => String::from_str("image buffer is not big enough"),
            Error::InvalidColor => String::from_str("image color type not supported"),
            Error::FramecopyFailed => String::from_str("framecopy failed"),
            Error::NoSupportedBufferFormat => String::from_str("No supported buffer format"),
        }
    }
}

} // verus!
