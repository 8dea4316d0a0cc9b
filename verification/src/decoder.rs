use vstd::prelude::*;

use std::collections::VecDeque;

use crate::Dimensions;
use crate::error::DecodeError;

verus! {

/// A single frame from a decoded video.
///
/// Owned exclusively by whoever holds it: the pixel data is a private copy,
/// aliasing nothing inside the decoder. The data is tightly packed, row-major,
/// 8-bit RGB with no stride padding — exactly `width * height * 3` bytes.
pub struct Frame {
    pub(crate) index: usize,
    pub(crate) data: Vec<u8>,
    pub(crate) dimensions: Dimensions,
}

/// Ghost image of a [`Frame`]: its 1-based index, pixel bytes and dimensions.
#[verifier::ext_equal]
pub ghost struct FrameModel {
    pub index: int,
    pub data: Seq<u8>,
    pub dimensions: Dimensions,
}

impl View for Frame {
    type V = FrameModel;

    closed spec fn view(&self) -> FrameModel {
        FrameModel { index: self.index as int, data: self.data@, dimensions: self.dimensions }
    }
}

impl Frame {
    /// The frame number in the source video (starts at 1).
    pub fn index(&self) -> (i: usize)
        ensures
            i == self@.index,
    {
        self.index
    }

    /// Get the dimensions of the frame data.
    pub fn dimensions(&self) -> (d: Dimensions)
        ensures
            d == self@.dimensions,
    {
        self.dimensions
    }

    /// Get a reference to the raw frame data.
    pub fn data(&self) -> (d: &[u8])
        ensures
            d@ == self@.data,
    {
        self.data.as_slice()
    }

    /// Convert this frame into its raw data.
    pub fn into_data(self) -> (d: Vec<u8>)
        ensures
            d@ == self@.data,
    {
        self.data
    }

    /// The raw data along with its dimensions.
    pub fn into_raw(self) -> (r: (Vec<u8>, Dimensions))
        ensures
            r.0@ == self@.data,
            r.1 == self@.dimensions,
    {
        (self.data, self.dimensions)
    }
}

/// Ghost image of a [`VideoDecoder`]: its configuration, the queue of
/// already-decoded frames, and the index the next decoded frame will carry.
#[verifier::ext_equal]
pub ghost struct DecoderModel {
    /// Numerator of the stream's reported rational frame rate.
    pub framerate_num: int,
    /// Denominator of the stream's reported rational frame rate.
    pub framerate_den: int,
    /// Resolved width and height of the selected video stream.
    pub dimensions: Dimensions,
    /// The FIFO frame buffer, oldest first.
    pub buffer: Seq<FrameModel>,
    /// Whether end of input rewinds to the start instead of ending iteration.
    pub should_loop: bool,
    /// 1-based index of the next frame the engine will decode.
    pub next_index: int,
    /// Demuxer index of the selected video stream.
    pub stream_id: int,
}

impl DecoderModel {
    /// Index of the next frame that will be handed to the caller: the oldest
    /// buffered frame's, or `next_index` itself when the buffer is empty.
    pub open spec fn next_produced(self) -> int {
        self.next_index - self.buffer.len()
    }

    /// Well-formedness: positive dimensions whose raster size fits memory, a
    /// 1-based next index that fits the counter, and a buffer of frames with
    /// consecutive indices ending just below `next_index`, each carrying the
    /// decoder's dimensions and a full raster.
    pub open spec fn wf(self) -> bool {
        &&& self.dimensions.spec_width() >= 1
        &&& self.dimensions.spec_height() >= 1
        &&& self.dimensions.frame_bytes() <= usize::MAX
        &&& 1 <= self.next_index <= usize::MAX
        &&& self.buffer.len() < self.next_index
        &&& forall|i: int|
            0 <= i < self.buffer.len() ==> (#[trigger] self.buffer[i]).index == self.next_index
                - self.buffer.len() + i
        &&& forall|i: int|
            0 <= i < self.buffer.len() ==> (#[trigger] self.buffer[i]).dimensions
                == self.dimensions
        &&& forall|i: int|
            0 <= i < self.buffer.len() ==> (#[trigger] self.buffer[i]).data.len()
                == self.dimensions.frame_bytes()
    }

    /// The decoder's configuration — dimensions, framerate, loop mode and
    /// selected stream — never changes over its lifetime.
    pub open spec fn same_config(self, other: DecoderModel) -> bool {
        &&& other.framerate_num == self.framerate_num
        &&& other.framerate_den == self.framerate_den
        &&& other.dimensions == self.dimensions
        &&& other.should_loop == self.should_loop
        &&& other.stream_id == self.stream_id
    }
}

/// The frames a burst of decoded rasters turns into: consecutive indices from
/// `start`, all with the decoder's dimensions.
pub open spec fn decoded_frames(start: int, dims: Dimensions, payloads: Seq<Seq<u8>>) -> Seq<
    FrameModel,
> {
    Seq::new(payloads.len(), |i: int| FrameModel { index: start + i, data: payloads[i], dimensions: dims })
}

/// Folding one decoded packet into the state: its frames join the back of the
/// buffer and `next_index` moves past them.
pub open spec fn enqueue_spec(m: DecoderModel, payloads: Seq<Seq<u8>>) -> DecoderModel {
    DecoderModel {
        buffer: m.buffer + decoded_frames(m.next_index, m.dimensions, payloads),
        next_index: m.next_index + payloads.len(),
        ..m
    }
}

/// Handing the oldest buffered frame to the caller.
pub open spec fn pop_spec(m: DecoderModel) -> DecoderModel {
    DecoderModel { buffer: m.buffer.skip(1), ..m }
}

/// The loop reset: back to the first frame, with nothing pending.
pub open spec fn reset_spec(m: DecoderModel) -> DecoderModel {
    DecoderModel { buffer: Seq::empty(), next_index: 1, ..m }
}

/// Discarding up to `k` already-buffered frames from the front, the cheap
/// first phase of a forward skip; buffered frames were already counted, so
/// `next_index` stands.
pub open spec fn drain_spec(m: DecoderModel, k: int) -> DecoderModel {
    DecoderModel { buffer: m.buffer.skip(vstd::math::min(k, m.buffer.len() as int)), ..m }
}

/// One frame decoded and discarded by the engine during a forward skip.
pub open spec fn bump_spec(m: DecoderModel) -> DecoderModel {
    DecoderModel { next_index: m.next_index + 1, ..m }
}

/// A forward skip of `k` frames that the source fully satisfies: buffered
/// frames are discarded first, the rest decoded and dropped unseen.
pub open spec fn forward_skip_spec(m: DecoderModel, k: int) -> DecoderModel {
    let d = vstd::math::min(k, m.buffer.len() as int);
    DecoderModel { buffer: m.buffer.skip(d), next_index: m.next_index + (k - d), ..m }
}

/// How far forward to skip, from the start, to land `k` frames before the
/// current position: `next_index` already points at the next unproduced
/// frame, hence the correction by 2; floored at zero, never negative.
pub open spec fn backward_offset(next_index: int, k: int) -> int {
    vstd::math::max(0, next_index - 2 - k)
}

/// A backward skip of `k` frames: reset to the start, then replay a forward
/// skip of the recomputed offset (assuming the source satisfies it fully).
pub open spec fn backward_skip_spec(m: DecoderModel, k: int) -> DecoderModel {
    forward_skip_spec(reset_spec(m), backward_offset(m.next_index, k))
}

/// One production step handing out frame `f`: the frame carries the next
/// unproduced index and a full raster of the decoder's dimensions, the next
/// unproduced index moves up by one, and the configuration stands.
pub open spec fn produces(pre: DecoderModel, post: DecoderModel, f: FrameModel) -> bool {
    &&& f.index == pre.next_produced()
    &&& f.dimensions == pre.dimensions
    &&& f.data.len() == pre.dimensions.frame_bytes()
    &&& post.next_produced() == pre.next_produced() + 1
    &&& pre.same_config(post)
}

/// Folding decoded rasters of the right size into a well-formed state keeps
/// it well formed, as long as the indices keep fitting the counter.
proof fn lemma_enqueue_wf(m: DecoderModel, payloads: Seq<Seq<u8>>)
    requires
        m.wf(),
        m.next_index + payloads.len() <= usize::MAX,
        forall|i: int|
            0 <= i < payloads.len() ==> (#[trigger] payloads[i]).len()
                == m.dimensions.frame_bytes(),
    ensures
        enqueue_spec(m, payloads).wf(),
{
    let q = enqueue_spec(m, payloads);
    assert forall|i: int| 0 <= i < q.buffer.len() implies (#[trigger] q.buffer[i]).index
        == q.next_index - q.buffer.len() + i && q.buffer[i].dimensions == q.dimensions
        && q.buffer[i].data.len() == q.dimensions.frame_bytes() by {
        if i < m.buffer.len() {
            assert(q.buffer[i] == m.buffer[i]);
        } else {
            assert(q.buffer[i] == decoded_frames(m.next_index, m.dimensions, payloads)[i
                - m.buffer.len()]);
        }
    }
}

/// How the engine classifies a container stream, as far as stream selection
/// cares: the first video stream is selected, everything else passed over.
#[derive(Debug, Clone, Copy, PartialEq, Eq, Structural)]
pub enum StreamKind {
    /// A video stream.
    Video,
    /// Any other stream: audio, subtitles, data.
    Other,
}

/// Scan the input's streams in order and select the first one classified as
/// video; all subsequent packet routing filters on the returned index.
pub fn find_video_stream(kinds: &Vec<StreamKind>) -> (r: Result<usize, DecodeError>)
    ensures
        match r {
            Ok(i) => {
                &&& i < kinds@.len()
                &&& kinds@[i as int] == StreamKind::Video
                &&& forall|j: int| 0 <= j < i ==> #[trigger] kinds@[j] != StreamKind::Video
            },
            Err(e) => {
                &&& e == DecodeError::UnableToFindVideoStream
                &&& forall|j: int| 0 <= j < kinds@.len() ==> #[trigger] kinds@[j] != StreamKind::Video
            },
        },
{
    let mut i: usize = 0;
    while i < kinds.len()
        invariant
            i <= kinds@.len(),
            forall|j: int| 0 <= j < i ==> #[trigger] kinds@[j] != StreamKind::Video,
        decreases kinds@.len() - i,
    {
        if matches!(kinds[i], StreamKind::Video) {
            return Ok(i);
        }
        i += 1;
    }
    Err(DecodeError::UnableToFindVideoStream)
}

/// One short-circuiting step of pipeline setup whose failure aborts
/// construction with a specific error. Finding the video stream is handled by
/// [`find_video_stream`], source resolution by [`crate::resolve_source`].
#[derive(Debug, Clone, Copy, PartialEq, Eq, Structural)]
pub enum SetupStep {
    /// Opening the input, by path or through the byte-stream adapter.
    OpenInput,
    /// Probing the opened input's stream information.
    ReadStreamInfo,
    /// Resolving a decoder implementation for the stream's codec.
    FindDecoder,
    /// Instantiating the independent codec context and opening it.
    OpenCodec,
    /// Binding the converted-frame byte buffer.
    FillFrameBuffer,
}

/// The error that aborts construction when a setup step fails.
pub open spec fn setup_error(step: SetupStep) -> DecodeError {
    match step {
        SetupStep::OpenInput => DecodeError::UnableToOpenInput,
        SetupStep::ReadStreamInfo => DecodeError::UnableToReadStreamInfo,
        SetupStep::FindDecoder => DecodeError::UnsupportedCodec,
        SetupStep::OpenCodec => DecodeError::UnsupportedCodec,
        SetupStep::FillFrameBuffer => DecodeError::UnableToReadFrameBuffer,
    }
}

/// Map a failed setup step to the error construction aborts with. Setup
/// failures are deterministic and non-retryable: the same source fails the
/// same way again.
pub fn setup_failure(step: SetupStep) -> (e: DecodeError)
    ensures
        e == setup_error(step),
{
    match step {
        SetupStep::OpenInput => DecodeError::UnableToOpenInput,
        SetupStep::ReadStreamInfo => DecodeError::UnableToReadStreamInfo,
        SetupStep::FindDecoder => DecodeError::UnsupportedCodec,
        SetupStep::OpenCodec => DecodeError::UnsupportedCodec,
        SetupStep::FillFrameBuffer => DecodeError::UnableToReadFrameBuffer,
    }
}

/// One engine observation during frame production.
pub enum PacketEvent {
    /// The demuxer has no more packets.
    EndOfInput,
    /// The packet belongs to a stream other than the selected one; it is
    /// discarded without counting anything.
    OtherStream,
    /// The engine rejected the packet at submission.
    SendFailed,
    /// A packet of the selected stream was decoded; each element is one
    /// converted raster, in decode order — possibly none.
    Decoded(Vec<Vec<u8>>),
}

/// What the caller of [`VideoDecoder::on_packet`] must do next.
pub enum PacketOutcome {
    /// A frame is ready for the caller.
    Produced(Frame),
    /// Nothing came of this packet; read the next one.
    Continue,
    /// Rewind the input to its start, then read the next packet.
    ResetAndContinue,
    /// The input is exhausted and looping is off: there are no more frames.
    Exhausted,
}

/// What remains of a skip after [`VideoDecoder::begin_skip`] settled what it
/// could from the frame buffer.
#[derive(Debug, Clone, Copy, PartialEq, Eq, Structural)]
pub enum SkipPlan {
    /// The skip is fully settled.
    Done,
    /// Decode and discard this many more frames, counting each through
    /// [`VideoDecoder::note_skipped`]; stop early if the input runs out.
    DecodeAhead(usize),
    /// Rewind the input to its start, then skip forward this many frames.
    ResetThenForward(usize),
}

/// A video decoder's verified state: configuration fixed at setup, the FIFO
/// buffer of decoded frames, and the frame-index bookkeeping. The compressed
/// side lives with the external engine; its observations are folded in
/// through [`VideoDecoder::on_packet`] and the skip operations.
pub struct VideoDecoder {
    framerate_num: i32,
    framerate_den: i32,
    dimensions: Dimensions,
    buffer: VecDeque<Frame>,
    should_loop: bool,
    index: usize,
    stream_id: i32,
}

impl View for VideoDecoder {
    type V = DecoderModel;

    closed spec fn view(&self) -> DecoderModel {
        DecoderModel {
            framerate_num: self.framerate_num as int,
            framerate_den: self.framerate_den as int,
            dimensions: self.dimensions,
            buffer: Seq::new(self.buffer@.len(), |i: int| self.buffer@[i]@),
            should_loop: self.should_loop,
            next_index: self.index as int,
            stream_id: self.stream_id as int,
        }
    }
}

impl VideoDecoder {
    pub open spec fn wf(&self) -> bool {
        self@.wf()
    }

    /// The decoder as pipeline setup leaves it on success: configuration
    /// resolved from the selected stream, an empty frame buffer, and the next
    /// index at 1 — the first frame is frame 1.
    pub fn new(
        framerate_num: i32,
        framerate_den: i32,
        width: u32,
        height: u32,
        stream_id: i32,
        should_loop: bool,
    ) -> (d: VideoDecoder)
        requires
            1 <= width,
            1 <= height,
            width * height * 3 <= usize::MAX,
        ensures
            d.wf(),
            d@.framerate_num == framerate_num,
            d@.framerate_den == framerate_den,
            d@.dimensions.spec_width() == width,
            d@.dimensions.spec_height() == height,
            d@.buffer =~= Seq::<FrameModel>::empty(),
            d@.should_loop == should_loop,
            d@.next_index == 1,
            d@.stream_id == stream_id,
    {
        VideoDecoder {
            framerate_num,
            framerate_den,
            dimensions: Dimensions { width, height },
            buffer: VecDeque::new(),
            should_loop,
            index: 1,
            stream_id,
        }
    }

    /// Get the dimensions of the video.
    pub fn dimensions(&self) -> (d: Dimensions)
        ensures
            d == self@.dimensions,
    {
        self.dimensions
    }

    /// Get the framerate of the video as the stream's reported rational,
    /// numerator and denominator, in frames-per-second.
    pub fn framerate(&self) -> (r: (i32, i32))
        ensures
            r.0 == self@.framerate_num,
            r.1 == self@.framerate_den,
    {
        (self.framerate_num, self.framerate_den)
    }

    /// Check whether the decoder will loop once reaching the end of the
    /// source data. This is whatever value setup was given.
    pub fn will_loop(&self) -> (b: bool)
        ensures
            b == self@.should_loop,
    {
        self.should_loop
    }

    /// The 1-based index the next decoded frame will carry. Skipping and
    /// production always leave this consistent with the frames actually
    /// consumed.
    pub fn next_index(&self) -> (i: usize)
        ensures
            i == self@.next_index,
    {
        self.index
    }

    /// Whether a packet of stream `stream_index` belongs to the selected
    /// video stream; all packet routing filters on this.
    pub fn wants_packet(&self, stream_index: i32) -> (b: bool)
        ensures
            b == (stream_index == self@.stream_id),
    {
        stream_index == self.stream_id
    }

    /// First step of frame production: hand out the oldest buffered frame if
    /// one is pending — the common case after a packet decoded into several
    /// frames. Only on `None` need the caller read a packet.
    pub fn take_buffered(&mut self) -> (r: Option<Frame>)
        requires
            old(self).wf(),
        ensures
            final(self).wf(),
            old(self)@.same_config(final(self)@),
            old(self)@.buffer.len() == 0 ==> r is None && final(self)@ =~= old(self)@,
            old(self)@.buffer.len() > 0 ==> match r {
                Some(f) => {
                    &&& f@ == old(self)@.buffer[0]
                    &&& final(self)@ =~= pop_spec(old(self)@)
                    &&& produces(old(self)@, final(self)@, f@)
                },
                None => false,
            },
    {
        let r = self.buffer.pop_front();
        proof {
            if old(self)@.buffer.len() > 0 {
                assert(self@.buffer =~= old(self)@.buffer.skip(1)) by {
                    assert forall|i: int| 0 <= i < self@.buffer.len() implies self@.buffer[i]
                        == old(self)@.buffer.skip(1)[i] by {
                        assert(self.buffer@[i] == old(self).buffer@.subrange(
                            1,
                            old(self).buffer@.len() as int,
                        )[i]);
                    }
                }
                assert(self@ =~= pop_spec(old(self)@));
                assert(old(self)@.buffer[0].index == old(self)@.next_produced());
                assert(old(self)@.buffer[0].data.len() == old(self)@.dimensions.frame_bytes());
                assert(self@.next_produced() == old(self)@.next_produced() + 1);
                assert(produces(old(self)@, self@, old(self)@.buffer[0]));
            } else {
                assert(self@.buffer =~= old(self)@.buffer);
                assert(self@ =~= old(self)@);
            }
        }
        r
    }

    /// The loop reset's state half: back to the first frame, nothing pending.
    /// Whenever it runs, the caller must also seek the underlying input to
    /// its start.
    fn reset_position(&mut self)
        requires
            old(self).wf(),
        ensures
            final(self).wf(),
            old(self)@.same_config(final(self)@),
            final(self)@ =~= reset_spec(old(self)@),
    {
        self.buffer.clear();
        self.index = 1;
        proof {
            assert(self@.buffer =~= Seq::<FrameModel>::empty());
            assert(self@ =~= reset_spec(old(self)@));
        }
    }

    /// The rest of frame production: fold one engine observation into the
    /// state and say what to do next.
    ///
    /// End of input either ends iteration (`Exhausted`, never when looping)
    /// or, in loop mode, resets to the first frame and continues. A packet of
    /// another stream is silently discarded. A rejected packet is fatal: the
    /// packet stream cannot be trusted after it, so the error is returned and
    /// nothing retried. Decoded rasters join the buffer as frames numbered
    /// from `next_index` on, and the oldest pending frame is handed out.
    pub fn on_packet(&mut self, event: PacketEvent) -> (r: Result<PacketOutcome, DecodeError>)
        requires
            old(self).wf(),
            event matches PacketEvent::Decoded(payloads) ==> old(self)@.next_index
                + payloads@.len() <= usize::MAX && forall|i: int|
                0 <= i < payloads@.len() ==> (#[trigger] payloads@[i])@.len() == old(
                    self,
                )@.dimensions.frame_bytes(),
        ensures
            final(self).wf(),
            old(self)@.same_config(final(self)@),
            old(self)@.should_loop ==> !(r matches Ok(PacketOutcome::Exhausted)),
            match event {
                PacketEvent::EndOfInput => if old(self)@.should_loop {
                    (r matches Ok(PacketOutcome::ResetAndContinue)) && final(self)@ =~= reset_spec(
                        old(self)@,
                    )
                } else {
                    (r matches Ok(PacketOutcome::Exhausted)) && final(self)@ =~= old(self)@
                },
                PacketEvent::OtherStream => (r matches Ok(PacketOutcome::Continue))
                    && final(self)@ =~= old(self)@,
                PacketEvent::SendFailed => r == Err::<PacketOutcome, DecodeError>(
                    DecodeError::UnableToSendPacketToDecoder,
                ) && final(self)@ =~= old(self)@,
                PacketEvent::Decoded(payloads) => {
                    let queued = enqueue_spec(old(self)@, payloads.deep_view());
                    if queued.buffer.len() > 0 {
                        match r {
                            Ok(PacketOutcome::Produced(f)) => {
                                &&& f@ == queued.buffer[0]
                                &&& final(self)@ =~= pop_spec(queued)
                                &&& produces(old(self)@, final(self)@, f@)
                            },
                            _ => false,
                        }
                    } else {
                        (r matches Ok(PacketOutcome::Continue)) && final(self)@ =~= old(self)@
                    }
                },
            },
    {
        match event {
            PacketEvent::EndOfInput => {
                if self.should_loop {
                    self.reset_position();
                    Ok(PacketOutcome::ResetAndContinue)
                } else {
                    proof {
                        assert(self@ =~= old(self)@);
                    }
                    Ok(PacketOutcome::Exhausted)
                }
            },
            PacketEvent::OtherStream => {
                proof {
                    assert(self@ =~= old(self)@);
                }
                Ok(PacketOutcome::Continue)
            },
            PacketEvent::SendFailed => {
                proof {
                    assert(self@ =~= old(self)@);
                }
                Err(DecodeError::UnableToSendPacketToDecoder)
            },
            PacketEvent::Decoded(payloads) => {
                let ghost pre = self@;
                let ghost all = payloads.deep_view();
                let mut rest = payloads;
                while rest.len() > 0
                    invariant
                        pre.wf(),
                        self@.wf(),
                        pre.next_index + all.len() <= usize::MAX,
                        forall|i: int|
                            0 <= i < all.len() ==> (#[trigger] all[i]).len()
                                == pre.dimensions.frame_bytes(),
                        rest@.len() <= all.len(),
                        rest.deep_view() =~= all.skip(all.len() - rest@.len()),
                        self@ =~= enqueue_spec(pre, all.take(all.len() - rest@.len())),
                    decreases rest@.len(),
                {
                    let ghost done = all.len() - rest@.len();
                    let ghost rest0 = rest.deep_view();
                    let ghost buf0 = self@.buffer;
                    let ghost idx0 = self@.next_index;
                    let data = rest.remove(0);
                    proof {
                        assert(rest0[0] == all.skip(done)[0]);
                        assert(data.deep_view() == rest0[0]);
                        assert(data@ =~= all[done]);
                        assert forall|i: int| 0 <= i < rest.deep_view().len() implies #[trigger] rest.deep_view()[i]
                            == all.skip(done + 1)[i] by {
                            assert(rest.deep_view()[i] == rest0[i + 1]);
                            assert(rest0[i + 1] == all.skip(done)[i + 1]);
                        }
                        assert(rest.deep_view() =~= all.skip(done + 1));
                    }
                    let f = Frame { index: self.index, data, dimensions: self.dimensions };
                    let ghost fmv = f@;
                    let ghost vec0 = self.buffer@;
                    self.buffer.push_back(f);
                    self.index = self.index + 1;
                    proof {
                        let fm = FrameModel {
                            index: idx0,
                            data: all[done],
                            dimensions: pre.dimensions,
                        };
                        assert(fmv == fm);
                        assert(self@.buffer.len() == buf0.len() + 1);
                        assert forall|i: int| 0 <= i < buf0.len() implies #[trigger] self@.buffer[i]
                            == buf0[i] by {
                            assert(self.buffer@[i] == vec0[i]);
                        }
                        assert(self@.buffer[buf0.len() as int] == fmv);
                        let q1 = enqueue_spec(pre, all.take(done + 1));
                        assert(all.take(done + 1)[done] == all[done]);
                        assert forall|i: int| 0 <= i < self@.buffer.len() implies #[trigger] self@.buffer[i]
                            == q1.buffer[i] by {
                            if i < buf0.len() {
                                assert(buf0[i] == enqueue_spec(pre, all.take(done)).buffer[i]);
                                if i < pre.buffer.len() {
                                    assert(q1.buffer[i] == pre.buffer[i]);
                                } else {
                                    assert(q1.buffer[i] == decoded_frames(
                                        pre.next_index,
                                        pre.dimensions,
                                        all.take(done + 1),
                                    )[i - pre.buffer.len()]);
                                }
                            } else {
                                assert(self@.buffer[i] == fm);
                                assert(q1.buffer[i] == decoded_frames(
                                    pre.next_index,
                                    pre.dimensions,
                                    all.take(done + 1),
                                )[done]);
                            }
                        }
                        assert(self@.buffer =~= q1.buffer);
                        assert(self@ =~= q1);
                        lemma_enqueue_wf(pre, all.take(done + 1));
                        assert(self@.wf());
                    }
                }
                proof {
                    assert(all.take(all.len() as int) =~= all);
                    assert(self@ =~= enqueue_spec(pre, all));
                }
                let ghost queued = self@;
                let ghost bufq = self.buffer@;
                let r = self.buffer.pop_front();
                proof {
                    if queued.buffer.len() > 0 {
                        assert forall|i: int| 0 <= i < self@.buffer.len() implies #[trigger] self@.buffer[i]
                            == queued.buffer.skip(1)[i] by {
                            assert(self.buffer@[i] == bufq.subrange(1, bufq.len() as int)[i]);
                        }
                        assert(self@.buffer =~= queued.buffer.skip(1));
                        assert(self@ =~= pop_spec(queued));
                        assert(queued.buffer[0].index == pre.next_produced());
                        assert(queued.buffer[0].data.len() == pre.dimensions.frame_bytes());
                        assert(self@.next_produced() == pre.next_produced() + 1);
                        assert(produces(pre, self@, queued.buffer[0]));
                    } else {
                        assert(self@ =~= queued);
                        assert(pre.buffer.len() == 0 && all.len() == 0);
                        assert(self@ =~= pre);
                    }
                }
                match r {
                    Some(f) => Ok(PacketOutcome::Produced(f)),
                    None => Ok(PacketOutcome::Continue),
                }
            },
        }
    }

    /// Skip the next `n` frames: never loops, never errs.
    ///
    /// This settles what it can without the engine: nothing for `n == 0`;
    /// for `n > 0`, up to `n` already-buffered frames are discarded — they
    /// were produced and counted already — and what is left comes back as
    /// `DecodeAhead`, to be decoded and dropped without conversion or
    /// buffering, each counted through [`VideoDecoder::note_skipped`]; for
    /// `n < 0`, the state rewinds to the first frame and the recomputed
    /// forward offset comes back as `ResetThenForward`. The caller stops a
    /// `DecodeAhead` early when input runs out: skipping past the end is a
    /// silent partial skip, not an error.
    pub fn begin_skip(&mut self, n: isize) -> (plan: SkipPlan)
        requires
            old(self).wf(),
        ensures
            final(self).wf(),
            old(self)@.same_config(final(self)@),
            n == 0 ==> plan == SkipPlan::Done && final(self)@ =~= old(self)@,
            n > 0 ==> final(self)@ =~= drain_spec(old(self)@, n as int) && plan == (
            if n <= old(self)@.buffer.len() {
                SkipPlan::Done
            } else {
                SkipPlan::DecodeAhead((n - old(self)@.buffer.len()) as usize)
            }),
            n < 0 ==> final(self)@ =~= reset_spec(old(self)@) && plan
                == SkipPlan::ResetThenForward(
                backward_offset(old(self)@.next_index, -(n as int)) as usize,
            ),
    {
        if n == 0 {
            proof {
                assert(self@ =~= old(self)@);
            }
            SkipPlan::Done
        } else if n > 0 {
            let goal = n as usize;
            let mut remaining = goal;
            while remaining > 0 && self.buffer.len() > 0
                invariant
                    old(self).wf(),
                    self@.wf(),
                    remaining <= goal,
                    self@ =~= drain_spec(old(self)@, goal - remaining),
                    goal - remaining <= old(self)@.buffer.len(),
                decreases remaining,
            {
                let ghost before = self@;
                let ghost vec0 = self.buffer@;
                let _discarded = self.buffer.pop_front();
                remaining = remaining - 1;
                proof {
                    assert forall|i: int| 0 <= i < self@.buffer.len() implies #[trigger] self@.buffer[i]
                        == before.buffer.skip(1)[i] by {
                        assert(self.buffer@[i] == vec0.subrange(1, vec0.len() as int)[i]);
                    }
                    assert(self@.buffer =~= before.buffer.skip(1));
                    assert(self@.buffer =~= drain_spec(old(self)@, goal - remaining).buffer);
                    assert(self@ =~= drain_spec(old(self)@, goal - remaining));
                }
            }
            proof {
                if remaining == 0 {
                    assert(self@ =~= drain_spec(old(self)@, goal as int));
                } else {
                    assert(self@.buffer.len() == 0);
                    assert(old(self)@.buffer.len() == goal - remaining);
                    assert(self@.buffer =~= drain_spec(old(self)@, goal as int).buffer);
                    assert(self@ =~= drain_spec(old(self)@, goal as int));
                }
            }
            if remaining == 0 {
                SkipPlan::Done
            } else {
                SkipPlan::DecodeAhead(remaining)
            }
        } else {
            // How far forward to go from the start: `next_index` points at
            // the next unproduced frame, so step back past it and the last
            // produced one, then by the skip distance; floored at zero.
            let magnitude: usize = if n == isize::MIN {
                (isize::MAX as usize) + 1
            } else {
                (-n) as usize
            };
            let base = if self.index >= 2 {
                self.index - 2
            } else {
                0
            };
            let offset = if base >= magnitude {
                base - magnitude
            } else {
                0
            };
            self.reset_position();
            SkipPlan::ResetThenForward(offset)
        }
    }

    /// One frame decoded and discarded by the engine while a forward skip's
    /// `DecodeAhead` phase runs; the frame is counted but never materialised.
    pub fn note_skipped(&mut self)
        requires
            old(self).wf(),
            old(self)@.buffer.len() == 0,
            old(self)@.next_index < usize::MAX,
        ensures
            final(self).wf(),
            old(self)@.same_config(final(self)@),
            final(self)@ =~= bump_spec(old(self)@),
    {
        self.index = self.index + 1;
        proof {
            assert(self@ =~= bump_spec(old(self)@));
        }
    }

    /// Split a forward-skip distance that may exceed the signed count type's
    /// range into two signed legs, largest first: skipping the two legs in
    /// turn skips exactly `total` frames, without relying on wraparound.
    pub fn split_skip(total: usize) -> (parts: (isize, isize))
        requires
            total as int <= isize::MAX as int + isize::MAX as int,
        ensures
            0 <= parts.0,
            0 <= parts.1,
            parts.0 + parts.1 == total,
            parts.0 == vstd::math::min(total as int, isize::MAX as int),
    {
        if total <= isize::MAX as usize {
            (total as isize, 0)
        } else {
            (isize::MAX, (total - isize::MAX as usize) as isize)
        }
    }
}

/// Law: frames are produced in strictly increasing index order, one step at
/// a time — two consecutive production steps hand out consecutive indices.
/// On a fresh decoder the next produced index is 1, so iteration starts
/// there.
pub proof fn lemma_indices_strictly_increase(
    m0: DecoderModel,
    m1: DecoderModel,
    m2: DecoderModel,
    f1: FrameModel,
    f2: FrameModel,
)
    requires
        produces(m0, m1, f1),
        produces(m1, m2, f2),
    ensures
        f2.index == f1.index + 1,
        f1.index < f2.index,
{
}

/// Law: the loop reset is idempotent — resetting twice in succession, with
/// no production in between, leaves exactly the state one reset leaves.
pub proof fn lemma_reset_idempotent(m: DecoderModel)
    ensures
        reset_spec(reset_spec(m)) =~= reset_spec(m),
{
}

/// Law: draining `k` buffered frames is the whole of a forward skip that the
/// buffer can satisfy.
pub proof fn lemma_drain_is_forward_skip(m: DecoderModel, k: int)
    requires
        0 <= k <= m.buffer.len(),
    ensures
        drain_spec(m, k) =~= forward_skip_spec(m, k),
{
}

/// Law: with nothing buffered, counting one engine-discarded frame is a
/// forward skip of one.
pub proof fn lemma_bump_is_forward_skip(m: DecoderModel)
    requires
        m.buffer.len() == 0,
    ensures
        bump_spec(m) =~= forward_skip_spec(m, 1),
{
}

/// Law: consecutive forward skips compose — skipping `a` frames and then `b`
/// is skipping `a + b`. This is what lets a distance beyond the signed count
/// type's range be split by [`VideoDecoder::split_skip`] into two legs.
pub proof fn lemma_forward_skip_compose(m: DecoderModel, a: int, b: int)
    requires
        0 <= a,
        0 <= b,
    ensures
        forward_skip_spec(forward_skip_spec(m, a), b) =~= forward_skip_spec(m, a + b),
{
    let once = forward_skip_spec(m, a + b);
    let twice = forward_skip_spec(forward_skip_spec(m, a), b);
    assert(twice.buffer =~= once.buffer);
}

/// Law: on a fresh decoder — nothing produced, nothing buffered — skipping
/// `k` frames forward and then `k` backward restores the state exactly, so
/// the next produced frame's index is what it would have been without
/// skipping. (Stated for a forward skip the source fully satisfies; from a
/// state that has already produced frames, the backward correction lands one
/// frame earlier instead, by design.)
pub proof fn lemma_skip_round_trip(m: DecoderModel, k: int)
    requires
        m.wf(),
        m.next_index == 1,
        m.buffer.len() == 0,
        0 < k,
    ensures
        backward_skip_spec(forward_skip_spec(m, k), k) =~= m,
{
    let after = backward_skip_spec(forward_skip_spec(m, k), k);
    assert(after.buffer =~= m.buffer);
}

/// The decoder state after folding in a whole run of decoded packets, each a
/// burst of rasters, with nothing handed out in between.
pub open spec fn enqueue_run(m: DecoderModel, packets: Seq<Seq<Seq<u8>>>) -> DecoderModel
    decreases packets.len(),
{
    if packets.len() == 0 {
        m
    } else {
        enqueue_run(enqueue_spec(m, packets.first()), packets.drop_first())
    }
}

/// Consecutive bursts number their frames consecutively.
pub proof fn lemma_decoded_frames_concat(
    start: int,
    dims: Dimensions,
    a: Seq<Seq<u8>>,
    b: Seq<Seq<u8>>,
)
    ensures
        decoded_frames(start, dims, a) + decoded_frames(start + a.len(), dims, b) =~= decoded_frames(
            start,
            dims,
            a + b,
        ),
{
}

/// A whole run of decoded packets appends exactly its flattened rasters,
/// numbered on from `next_index`, and moves `next_index` past them; the
/// configuration stands.
pub proof fn lemma_enqueue_run(m: DecoderModel, packets: Seq<Seq<Seq<u8>>>)
    ensures
        enqueue_run(m, packets).next_index == m.next_index + packets.flatten().len(),
        enqueue_run(m, packets).buffer =~= m.buffer + decoded_frames(
            m.next_index,
            m.dimensions,
            packets.flatten(),
        ),
        m.same_config(enqueue_run(m, packets)),
    decreases packets.len(),
{
    if packets.len() == 0 {
        assert(m.buffer + decoded_frames(m.next_index, m.dimensions, packets.flatten())
            =~= m.buffer);
    } else {
        let m1 = enqueue_spec(m, packets.first());
        lemma_enqueue_run(m1, packets.drop_first());
        lemma_decoded_frames_concat(
            m.next_index,
            m.dimensions,
            packets.first(),
            packets.drop_first().flatten(),
        );
        assert(packets.flatten() =~= packets.first() + packets.drop_first().flatten());
        assert(m1.buffer + decoded_frames(m1.next_index, m.dimensions, packets.drop_first().flatten())
            =~= m.buffer + decoded_frames(m.next_index, m.dimensions, packets.flatten()));
    }
}

/// Law: decoding a source to exhaustion is exact. From a fresh decoder, a
/// run that decodes `F` rasters in all yields exactly `F` frames, the `i`-th
/// carrying index `i + 1` and the `i`-th decoded raster as data — so the
/// last index equals `F`. The frames are a function of the decoded bytes
/// alone: identical content, whether it arrived from a file or from memory,
/// yields an identical frame sequence.
pub proof fn lemma_exhaustive_decode(m: DecoderModel, packets: Seq<Seq<Seq<u8>>>)
    requires
        m.next_index == 1,
        m.buffer.len() == 0,
    ensures
        enqueue_run(m, packets).buffer =~= decoded_frames(1, m.dimensions, packets.flatten()),
        enqueue_run(m, packets).buffer.len() == packets.flatten().len(),
        enqueue_run(m, packets).next_index == 1 + packets.flatten().len(),
        packets.flatten().len() > 0 ==> enqueue_run(m, packets).buffer.last().index
            == packets.flatten().len(),
{
    lemma_enqueue_run(m, packets);
    assert(enqueue_run(m, packets).buffer =~= decoded_frames(
        1,
        m.dimensions,
        packets.flatten(),
    ));
}

} // verus!
