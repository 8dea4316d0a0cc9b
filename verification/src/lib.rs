//! Sequential video-frame decoding core.
//!
//! Given a video container — a filesystem path or an in-memory byte buffer —
//! this library yields successive raster frames in tightly packed 8-bit RGB,
//! with exact dimensions, framerate and 1-based frame indices, and supports
//! looping and signed forward/backward frame skipping.
//!
//! The compressed-stream work itself (demuxing, codec arithmetic, colour
//! conversion) belongs to an external decoding engine and is driven by the
//! embedding program; this crate owns everything that can be decided from
//! plain values: resolving a source into an I/O strategy, the byte-stream
//! adapter's cursor, the frame buffer and index bookkeeping of the production
//! loop, the loop-reset protocol, and the skip controller.

use vstd::prelude::*;

mod decoder;
mod error;
mod source;
mod stream;

pub use decoder::DecoderModel;
pub use decoder::Frame;
pub use decoder::FrameModel;
pub use decoder::PacketEvent;
pub use decoder::PacketOutcome;
pub use decoder::SetupStep;
pub use decoder::SkipPlan;
pub use decoder::StreamKind;
pub use decoder::VideoDecoder;
pub use decoder::backward_offset;
pub use decoder::backward_skip_spec;
pub use decoder::bump_spec;
pub use decoder::decoded_frames;
pub use decoder::drain_spec;
pub use decoder::enqueue_run;
pub use decoder::enqueue_spec;
pub use decoder::find_video_stream;
pub use decoder::forward_skip_spec;
pub use decoder::lemma_bump_is_forward_skip;
pub use decoder::lemma_decoded_frames_concat;
pub use decoder::lemma_drain_is_forward_skip;
pub use decoder::lemma_enqueue_run;
pub use decoder::lemma_exhaustive_decode;
pub use decoder::lemma_forward_skip_compose;
pub use decoder::lemma_indices_strictly_increase;
pub use decoder::lemma_reset_idempotent;
pub use decoder::lemma_skip_round_trip;
pub use decoder::pop_spec;
pub use decoder::produces;
pub use decoder::reset_spec;
pub use decoder::setup_error;
pub use decoder::setup_failure;
pub use error::DecodeError;
pub use source::SourceBinding;
pub use source::VideoSource;
pub use source::path_to_raw;
pub use source::resolve_source;
pub use stream::ReadOutcome;
pub use stream::Stream;
pub use stream::read_stream;

verus! {

/// The height and width of something
#[derive(Debug, Clone, Copy, PartialEq, Eq, Structural)]
pub struct Dimensions {
    pub(crate) width: u32,
    pub(crate) height: u32,
}

impl Dimensions {
    /// Width in pixels.
    pub closed spec fn spec_width(&self) -> u32 {
        self.width
    }

    /// Height in pixels.
    pub closed spec fn spec_height(&self) -> u32 {
        self.height
    }

    /// Bytes in one tightly packed, row-major RGB raster of these dimensions:
    /// three bytes per pixel, no stride padding.
    pub open spec fn frame_bytes(&self) -> int {
        self.spec_width() * self.spec_height() * 3
    }

    #[verifier::when_used_as_spec(spec_width)]
    pub fn width(&self) -> (w: u32)
        ensures
            w == self.spec_width(),
    {
        self.width
    }

    #[verifier::when_used_as_spec(spec_height)]
    pub fn height(&self) -> (h: u32)
        ensures
            h == self.spec_height(),
    {
        self.height
    }
}

} // verus!
