use vstd::prelude::*;

verus! {

/// Failure taxonomy for every decoder in the crate.
///
/// `UnexpectedEnd` marks a record read that ran past the supplied bytes;
/// `BadSignature` a container whose magic word is wrong; `InvalidTag` a tag
/// word outside its enumerated range; `TreeDepthExceeded` a prefix-tree
/// description that would recurse past its depth budget;
/// `AudioNotImplemented` the audio-sample path, which this crate only skips;
/// `OutOfOrderFrame` a video frame requested out of the mandatory strictly
/// increasing order.  Bit reads past the end of a bit stream are *not*
/// errors: they yield zero bits by design.
#[derive(Clone, Copy, PartialEq, Eq, Structural, Debug)]
pub enum DecodeError {
    UnexpectedEnd,
    BadSignature,
    InvalidTag,
    TreeDepthExceeded,
    AudioNotImplemented,
    OutOfOrderFrame,
}

impl DecodeError {
    /// A short human-readable description of the failure.
    pub fn describe(&self) -> (r: &'static str)
    {
        match self {
            DecodeError::UnexpectedEnd => "unexpected end of input",
            DecodeError::BadSignature => "bad container signature",
            DecodeError::InvalidTag => "tag value outside its enumerated range",
            DecodeError::TreeDepthExceeded => "prefix tree exceeds its depth budget",
            DecodeError::AudioNotImplemented => "audio sample decoding is not implemented",
            DecodeError::OutOfOrderFrame => "video frames must be decoded in increasing order",
        }
    }
}

} // verus!
