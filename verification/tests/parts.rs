//! Tests of the individual parts: the byte-stream adapter, source
//! resolution, stream selection, the setup error protocol, and the frame and
//! error types.

use ffmpeg_video_decoder::{
    DecodeError, PacketEvent, PacketOutcome, ReadOutcome, SetupStep, SourceBinding, Stream,
    StreamKind, VideoDecoder, VideoSource, find_video_stream, path_to_raw, read_stream,
    resolve_source, setup_failure,
};

#[test]
fn adapter_reads_in_chunks_then_signals_end() {
    let data: Vec<u8> = (0u8..10).collect();
    let mut cursor = Stream::new(data.len());

    match read_stream(&mut cursor, &data, 4) {
        ReadOutcome::Bytes(b) => assert_eq!(b, vec![0, 1, 2, 3]),
        ReadOutcome::EndOfData => panic!("bytes were available"),
    }
    match read_stream(&mut cursor, &data, 4) {
        ReadOutcome::Bytes(b) => assert_eq!(b, vec![4, 5, 6, 7]),
        ReadOutcome::EndOfData => panic!("bytes were available"),
    }
    // The last read is clipped to what remains; it never runs past the
    // declared length.
    match read_stream(&mut cursor, &data, 4) {
        ReadOutcome::Bytes(b) => assert_eq!(b, vec![8, 9]),
        ReadOutcome::EndOfData => panic!("bytes were available"),
    }
    assert!(matches!(
        read_stream(&mut cursor, &data, 4),
        ReadOutcome::EndOfData
    ));
    assert!(matches!(
        read_stream(&mut cursor, &data, 4),
        ReadOutcome::EndOfData
    ));
}

#[test]
fn adapter_round_trips_the_source_bytes() {
    // Reading everything through the adapter hands back exactly the source
    // bytes: the in-memory path feeds the engine the same stream a file
    // would.
    let data: Vec<u8> = (0u8..=255).cycle().take(1000).collect();
    let mut cursor = Stream::new(data.len());
    let mut collected = Vec::new();
    loop {
        match read_stream(&mut cursor, &data, 64) {
            ReadOutcome::Bytes(mut b) => collected.append(&mut b),
            ReadOutcome::EndOfData => break,
        }
    }
    assert_eq!(collected, data);
}

#[test]
fn adapter_seek_start_rewinds() {
    let data = vec![5u8, 6, 7];
    let mut cursor = Stream::new(data.len());
    while let ReadOutcome::Bytes(_) = read_stream(&mut cursor, &data, 2) {}
    cursor.seek_start();
    match read_stream(&mut cursor, &data, 3) {
        ReadOutcome::Bytes(b) => assert_eq!(b, vec![5, 6, 7]),
        ReadOutcome::EndOfData => panic!("the cursor was rewound"),
    }
}

#[test]
fn path_to_raw_null_terminates() {
    assert_eq!(path_to_raw("video.mp4").unwrap(), b"video.mp4\0".to_vec());
    assert_eq!(path_to_raw("").unwrap(), b"\0".to_vec());
}

#[test]
fn path_to_raw_rejects_interior_nul() {
    assert!(path_to_raw("video\0.mp4").is_none());
}

#[test]
fn raw_source_resolves_to_adapter() {
    let source = VideoSource::from(vec![1u8, 2, 3, 4]);
    match resolve_source(&source).unwrap() {
        SourceBinding::Adapter(cursor) => {
            assert_eq!(cursor.length, 4);
            assert_eq!(cursor.offset, 0);
        }
        SourceBinding::NativePath(_) => panic!("raw data takes the adapter"),
    }
}

#[test]
fn filesystem_source_resolves_to_native_path() {
    let source = VideoSource::from("movie.mkv");
    match resolve_source(&source).unwrap() {
        SourceBinding::NativePath(bytes) => assert_eq!(bytes, b"movie.mkv\0".to_vec()),
        SourceBinding::Adapter(_) => panic!("a path goes to the native open call"),
    }
}

#[test]
fn unrepresentable_path_is_invalid_source() {
    let source = VideoSource::from(String::from("bad\0path"));
    match resolve_source(&source) {
        Err(e) => assert_eq!(e, DecodeError::InvalidSource),
        Ok(_) => panic!("a path with an interior zero byte cannot be represented"),
    }
}

#[test]
fn source_conversions() {
    assert!(matches!(
        VideoSource::from(vec![9u8]),
        VideoSource::Raw(d) if d == vec![9u8]
    ));
    assert!(matches!(
        VideoSource::from(String::from("a.mp4")),
        VideoSource::Filesystem(p) if p == "a.mp4"
    ));
    assert!(matches!(
        VideoSource::from("b.mp4"),
        VideoSource::Filesystem(p) if p == "b.mp4"
    ));
}

#[test]
fn first_video_stream_is_selected() {
    let kinds = vec![
        StreamKind::Other,
        StreamKind::Video,
        StreamKind::Video,
        StreamKind::Other,
    ];
    assert_eq!(find_video_stream(&kinds).unwrap(), 1);
}

#[test]
fn no_video_stream_is_an_error() {
    let kinds = vec![StreamKind::Other, StreamKind::Other];
    assert_eq!(
        find_video_stream(&kinds).unwrap_err(),
        DecodeError::UnableToFindVideoStream
    );
    assert_eq!(
        find_video_stream(&Vec::new()).unwrap_err(),
        DecodeError::UnableToFindVideoStream
    );
}

#[test]
fn setup_steps_map_to_their_errors() {
    assert_eq!(
        setup_failure(SetupStep::OpenInput),
        DecodeError::UnableToOpenInput
    );
    assert_eq!(
        setup_failure(SetupStep::ReadStreamInfo),
        DecodeError::UnableToReadStreamInfo
    );
    assert_eq!(
        setup_failure(SetupStep::FindDecoder),
        DecodeError::UnsupportedCodec
    );
    assert_eq!(
        setup_failure(SetupStep::OpenCodec),
        DecodeError::UnsupportedCodec
    );
    assert_eq!(
        setup_failure(SetupStep::FillFrameBuffer),
        DecodeError::UnableToReadFrameBuffer
    );
}

#[test]
fn error_messages() {
    assert_eq!(
        DecodeError::UnableToOpenInput.message(),
        "unable to open input data"
    );
    assert_eq!(
        DecodeError::UnableToReadStreamInfo.message(),
        "unable to read stream information"
    );
    assert_eq!(
        DecodeError::UnableToFindVideoStream.message(),
        "unable to find video stream"
    );
    assert_eq!(DecodeError::UnsupportedCodec.message(), "unsupported codec");
    assert_eq!(
        DecodeError::UnableToReadFrameBuffer.message(),
        "could not read frame buffer"
    );
    assert_eq!(
        DecodeError::UnableToSendPacketToDecoder.message(),
        "unable to send packet to decoder"
    );
    assert_eq!(DecodeError::InvalidSource.message(), "invalid source");
}

#[test]
fn frame_accessors_agree() {
    let mut decoder = VideoDecoder::new(24, 1, 2, 2, 0, false);
    let raster: Vec<u8> = (0u8..12).collect();
    let frame = match decoder.on_packet(PacketEvent::Decoded(vec![raster.clone()])) {
        Ok(PacketOutcome::Produced(f)) => f,
        _ => panic!("one decoded raster yields one frame"),
    };
    assert_eq!(frame.index(), 1);
    assert_eq!(frame.data(), raster.as_slice());
    assert_eq!(frame.dimensions().width(), 2);
    assert_eq!(frame.dimensions().height(), 2);

    let dims = frame.dimensions();
    let (bytes, d2) = frame.into_raw();
    assert_eq!(bytes, raster);
    assert_eq!(d2, dims);

    let frame2 = match decoder.on_packet(PacketEvent::Decoded(vec![raster.clone()])) {
        Ok(PacketOutcome::Produced(f)) => f,
        _ => panic!("one decoded raster yields one frame"),
    };
    assert_eq!(frame2.index(), 2);
    assert_eq!(frame2.into_data(), raster);
}

#[test]
fn split_skip_legs_cover_the_distance() {
    assert_eq!(VideoDecoder::split_skip(0), (0, 0));
    assert_eq!(VideoDecoder::split_skip(5), (5, 0));
    assert_eq!(
        VideoDecoder::split_skip(isize::MAX as usize),
        (isize::MAX, 0)
    );
    assert_eq!(
        VideoDecoder::split_skip(isize::MAX as usize + 10),
        (isize::MAX, 10)
    );
}
