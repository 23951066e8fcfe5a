//! Errors of the video path.

use vstd::prelude::*;

verus! {

/// What can go wrong between a received payload and a decoded frame.
#[derive(Debug)]
pub enum Error {
    /// The capture device could not be opened or configured.
    CameraNotReady { message: String },
    /// The codec rejected the request; `message` is the codec's own text.
    OpenH264 { message: String },
    /// The decoder produced no usable picture for the bytes it was given.
    Decoding,
    /// A NAL unit did not begin with a start code followed by a header byte.
    MalformedNalUnit,
}

impl Error {
    /// What `message` returns, as a sequence of characters.
    pub open spec fn message_spec(self) -> Seq<char> {
        match self {
            Error::CameraNotReady { message } => message@,
            Error::OpenH264 { message } => message@,
            Error::Decoding => "nothing to decode"@,
            Error::MalformedNalUnit => "malformed NAL unit"@,
        }
    }

    /// The text shown to the user for this error.
    pub fn message(&self) -> (text: String)
        ensures
            text@ == self.message_spec(),
    {
        match self {
            Error::CameraNotReady { message } => message.clone(),
            Error::OpenH264 { message } => message.clone(),
            Error::Decoding => String::from_str("nothing to decode"),
            Error::MalformedNalUnit => String::from_str("malformed NAL unit"),
        }
    }
}

} // verus!
