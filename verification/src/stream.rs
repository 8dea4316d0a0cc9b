use vstd::prelude::*;

verus! {

/// Read cursor of the byte-stream adapter that bridges an in-memory source to
/// the decoding engine's pull-based read protocol.
///
/// The cursor is kept apart from the bytes it walks: the source buffer is
/// owned elsewhere for the decoder's whole lifetime and is handed to
/// [`read_stream`] on every call, so nothing here copies or aliases it.
#[derive(Debug, Clone, Copy, PartialEq, Eq, Structural)]
pub struct Stream {
    /// Total length of the in-memory source, in bytes.
    pub length: usize,
    /// How many bytes have already been handed out.
    pub offset: usize,
}

/// What one adapter read hands back.
pub enum ReadOutcome {
    /// Bytes copied out of the source: at most the requested count, never
    /// reaching past the declared length.
    Bytes(Vec<u8>),
    /// The cursor already stands at the end of the data.
    EndOfData,
}

impl Stream {
    /// The cursor never runs past the declared length.
    pub open spec fn wf(&self) -> bool {
        self.offset <= self.length
    }

    /// A fresh cursor over a source of `length` bytes.
    pub fn new(length: usize) -> (s: Stream)
        ensures
            s.length == length,
            s.offset == 0,
            s.wf(),
    {
        Stream { length, offset: 0 }
    }

    /// Rewind to the start of the data; the loop-reset protocol seeks the
    /// underlying I/O back to byte offset 0 through this.
    pub fn seek_start(&mut self)
        ensures
            final(self).length == old(self).length,
            final(self).offset == 0,
            final(self).wf(),
    {
        self.offset = 0;
    }
}

/// Fill up to `size` bytes from the cursor position: the adapter's one
/// operation. Returns the bytes written — `data[offset ..]`, clipped to what
/// remains — and advances the cursor by as much; or the end-of-data signal
/// once the cursor has reached the declared length. Purely a synchronous
/// memory copy; never reads beyond `data`'s length.
pub fn read_stream(stream: &mut Stream, data: &Vec<u8>, size: usize) -> (r: ReadOutcome)
    requires
        old(stream).wf(),
        data@.len() == old(stream).length,
    ensures
        final(stream).wf(),
        final(stream).length == old(stream).length,
        old(stream).offset == old(stream).length ==> {
            &&& r is EndOfData
            &&& final(stream).offset == old(stream).offset
        },
        old(stream).offset < old(stream).length ==> {
            let n = vstd::math::min(size as int, old(stream).length - old(stream).offset);
            match r {
                ReadOutcome::Bytes(b) => {
                    &&& b@ =~= data@.subrange(
                        old(stream).offset as int,
                        old(stream).offset + n,
                    )
                    &&& final(stream).offset == old(stream).offset + n
                },
                ReadOutcome::EndOfData => false,
            }
        },
{
    let avail = stream.length - stream.offset;
    if avail == 0 {
        return ReadOutcome::EndOfData;
    }
    let n = if size < avail {
        size
    } else {
        avail
    };
    let start = stream.offset;
    let mut out: Vec<u8> = Vec::new();
    let mut i: usize = 0;
    while i < n
        invariant
            i <= n,
            start + n <= data@.len(),
            data@.len() <= usize::MAX,
            out@ =~= data@.subrange(start as int, start + i),
        decreases n - i,
    {
        out.push(data[start + i]);
        i += 1;
    }
    stream.offset = start + n;
    ReadOutcome::Bytes(out)
}

} // verus!
