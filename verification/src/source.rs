use vstd::prelude::*;
use vstd::string::StringSliceAdditionalSpecFns;

use crate::error::DecodeError;
use crate::stream::Stream;

verus! {

/// The input data for the decoder.
///
/// A raw byte source must outlive the decoder: the engine pulls from it
/// through the byte-stream adapter for the decoder's whole lifetime. A
/// filesystem source only needs to be read during setup.
#[derive(Debug, Clone)]
#[non_exhaustive]
pub enum VideoSource {
    /// Raw binary data.
    Raw(Vec<u8>),
    /// A path to a file.
    Filesystem(String),
}

impl core::convert::From<Vec<u8>> for VideoSource {
    fn from(data: Vec<u8>) -> (s: VideoSource) {
        VideoSource::Raw(data)
    }
}

impl vstd::std_specs::convert::FromSpecImpl<Vec<u8>> for VideoSource {
    open spec fn obeys_from_spec() -> bool {
        true
    }

    open spec fn from_spec(data: Vec<u8>) -> VideoSource {
        VideoSource::Raw(data)
    }
}

impl core::convert::From<String> for VideoSource {
    fn from(path: String) -> (s: VideoSource) {
        VideoSource::Filesystem(path)
    }
}

impl vstd::std_specs::convert::FromSpecImpl<String> for VideoSource {
    open spec fn obeys_from_spec() -> bool {
        true
    }

    open spec fn from_spec(path: String) -> VideoSource {
        VideoSource::Filesystem(path)
    }
}

impl<'a> core::convert::From<&'a str> for VideoSource {
    fn from(path: &'a str) -> (s: VideoSource)
        ensures
            s matches VideoSource::Filesystem(p) && p@ == path@,
    {
        VideoSource::Filesystem(path.to_owned())
    }
}

impl<'a> vstd::std_specs::convert::FromSpecImpl<&'a str> for VideoSource {
    open spec fn obeys_from_spec() -> bool {
        // A borrowed path cannot name the owned `String` it becomes; the
        // `From` impl carries its own exact postcondition instead.
        false
    }

    open spec fn from_spec(path: &'a str) -> VideoSource {
        arbitrary()
    }
}

/// The concrete I/O strategy a source resolves to during setup.
pub enum SourceBinding {
    /// In-memory source: install the byte-stream adapter as the engine's I/O
    /// backend, with a fresh cursor over the source bytes.
    Adapter(Stream),
    /// Filesystem source: hand the engine these null-terminated path bytes
    /// for the platform's native file-open call.
    NativePath(Vec<u8>),
}

/// Whether the UTF-8 bytes of `path` can be carried in a null-terminated
/// byte sequence: true exactly when no byte of the path itself is zero.
pub open spec fn path_representable(path: Seq<char>) -> bool {
    forall|i: int|
        0 <= i < vstd::utf8::encode_utf8(path).len() ==> #[trigger] vstd::utf8::encode_utf8(
            path,
        )[i] != 0
}

/// Convert a path to the null-terminated byte sequence the platform's native
/// file-open call takes. A path that cannot be represented — one holding a
/// zero byte, which no native path may contain — yields `None` rather than
/// being silently truncated.
pub fn path_to_raw(path: &str) -> (r: Option<Vec<u8>>)
    ensures
        path_representable(path@) ==> (r matches Some(b) && b@ =~= path.spec_bytes().push(0)),
        !path_representable(path@) ==> r is None,
{
    let bs: &[u8] = path.as_bytes();
    let mut out: Vec<u8> = Vec::new();
    let mut i: usize = 0;
    while i < bs.len()
        invariant
            i <= bs@.len(),
            bs@ == path.spec_bytes(),
            out@ =~= bs@.subrange(0, i as int),
            forall|j: int| 0 <= j < i ==> #[trigger] bs@[j] != 0,
        decreases bs@.len() - i,
    {
        let b = bs[i];
        if b == 0 {
            return None;
        }
        out.push(b);
        i += 1;
    }
    out.push(0);
    Some(out)
}

/// Resolve a source descriptor into the concrete I/O strategy, the first step
/// of pipeline setup. A raw source gets the byte-stream adapter, bound to a
/// cursor starting at zero; a filesystem source gets native path bytes, or
/// `InvalidSource` when the path cannot be represented.
pub fn resolve_source(source: &VideoSource) -> (r: Result<SourceBinding, DecodeError>)
    ensures
        match source {
            VideoSource::Raw(data) => r matches Ok(SourceBinding::Adapter(s)) && s.length
                == data@.len() && s.offset == 0,
            VideoSource::Filesystem(path) => if path_representable(path@) {
                r matches Ok(SourceBinding::NativePath(b)) && b@ =~= vstd::utf8::encode_utf8(
                    path@,
                ).push(0)
            } else {
                r == Err::<SourceBinding, DecodeError>(DecodeError::InvalidSource)
            },
        },
{
    match source {
        VideoSource::Raw(data) => Ok(SourceBinding::Adapter(Stream::new(data.len()))),
        VideoSource::Filesystem(path) => match path_to_raw(path.as_str()) {
            Some(b) => Ok(SourceBinding::NativePath(b)),
            None => Err(DecodeError::InvalidSource),
        },
    }
}

} // verus!
