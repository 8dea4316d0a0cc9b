use vstd::prelude::*;

verus! {

/// An error from the decoder.
///
/// All setup failures abort construction; no partial decoder is ever handed
/// out. End of input is not an error: frame production reports it as an
/// absent frame instead.
#[derive(Debug, Clone, Copy, PartialEq, Eq, Structural)]
#[non_exhaustive]
pub enum DecodeError {
    /// The input container could not be opened.
    UnableToOpenInput,
    /// The container opened, but its stream information could not be probed.
    UnableToReadStreamInfo,
    /// This may mean that the source data does not have an active video stream.
    UnableToFindVideoStream,
    /// No decoder implementation is available for the stream's codec, or the
    /// codec context could not be opened.
    UnsupportedCodec,
    /// The converted-frame byte buffer could not be bound.
    UnableToReadFrameBuffer,
    /// The decoding engine rejected a compressed packet mid-stream; the packet
    /// stream can no longer be trusted, so this is fatal for the decoder.
    UnableToSendPacketToDecoder,
    /// The source cannot be handed to the platform's file-open call, for
    /// example a path holding a byte no native path may contain.
    InvalidSource,
}

impl DecodeError {
    /// The short description that [`DecodeError::message`] returns.
    pub open spec fn spec_message(&self) -> Seq<char> {
        match self {
            DecodeError::UnableToOpenInput => "unable to open input data"@,
            DecodeError::UnableToReadStreamInfo => "unable to read stream information"@,
            DecodeError::UnableToFindVideoStream => "unable to find video stream"@,
            DecodeError::UnsupportedCodec => "unsupported codec"@,
            DecodeError::UnableToReadFrameBuffer => "could not read frame buffer"@,
            DecodeError::UnableToSendPacketToDecoder => "unable to send packet to decoder"@,
            DecodeError::InvalidSource => "invalid source"@,
        }
    }

    /// A short human-readable description of the error.
    pub fn message(&self) -> (m: &'static str)
        ensures
            m@ == self.spec_message(),
    {
        match self {
            DecodeError::UnableToOpenInput => "unable to open input data",
            DecodeError::UnableToReadStreamInfo => "unable to read stream information",
            DecodeError::UnableToFindVideoStream => "unable to find video stream",
            DecodeError::UnsupportedCodec => "unsupported codec",
            DecodeError::UnableToReadFrameBuffer => "could not read frame buffer",
            DecodeError::UnableToSendPacketToDecoder => "unable to send packet to decoder",
            DecodeError::InvalidSource => "invalid source",
        }
    }
}

} // verus!
