use convwatcher::common::config::{pipe_output_format, WorkerIoMode};
use convwatcher::common::transport::{
    accept_chunk, after_source_read, decode_frame, encode_frame, next_chunk_len, FrameError, CHUNK_SIZE, MAX_FRAME_LEN,
};

#[test]
fn frame_round_trip_in_memory() {
    let data = b"hello world".to_vec();
    let mut framed = encode_frame(&data).unwrap();
    assert_eq!(&framed[..4], &[0, 0, 0, 11]);
    framed.extend_from_slice(b"rest");
    let (body, used) = decode_frame(&framed).unwrap();
    assert_eq!(body, data);
    assert_eq!(used, 15);
}

#[test]
fn frame_errors() {
    assert_eq!(decode_frame(&[0, 0, 1]).unwrap_err(), FrameError::Incomplete);
    assert_eq!(decode_frame(&[0, 0, 0, 5, 1, 2]).unwrap_err(), FrameError::Incomplete);
    assert_eq!(decode_frame(&[0, 0x80, 0, 1]).unwrap_err(), FrameError::TooLarge(0x800001));
    let big = vec![0u8; MAX_FRAME_LEN as usize + 1];
    assert_eq!(encode_frame(&big).unwrap_err(), FrameError::TooLarge(MAX_FRAME_LEN as u64 + 1));
}

#[test]
fn stream_accounting_steps() {
    assert_eq!(next_chunk_len(10), 10);
    assert_eq!(next_chunk_len(10_000_000), CHUNK_SIZE);
    assert_eq!(accept_chunk(10, 4), Ok(6));
    assert_eq!(accept_chunk(10, 0), Err(FrameError::EmptyChunk(10)));
    assert_eq!(accept_chunk(3, 4), Err(FrameError::Overshoot(4, 3)));
    let mut remaining = 123u64;
    for c in [100u64, 23] {
        remaining = accept_chunk(remaining, c).unwrap();
    }
    assert_eq!(remaining, 0);
}

#[test]
fn io_mode_and_pipe_formats() {
    assert_eq!(WorkerIoMode::parse("PIPE").unwrap(), WorkerIoMode::Pipe);
    assert_eq!(WorkerIoMode::parse(" temp ").unwrap(), WorkerIoMode::Temp);
    assert!(WorkerIoMode::parse("disk").is_err());
    assert_eq!(pipe_output_format(".MKV"), "matroska");
    assert_eq!(pipe_output_format("mp4"), "matroska");
    assert_eq!(pipe_output_format("mp3"), "mp3");
}

#[test]
fn frame_round_trip() {
    let framed = encode_frame(b"hello world").unwrap();
    let (got, used) = decode_frame(&framed).unwrap();
    assert_eq!(got, b"hello world");
    assert_eq!(used, framed.len());
}

#[test]
fn stream_round_trip() {
    let data: Vec<u8> = (0..CHUNK_SIZE * 2 + 123).map(|i| (i % 251) as u8).collect();
    // Sender side: chunk the source as the stream writer does.
    let mut wire: Vec<u8> = Vec::new();
    let mut remaining = data.len() as u64;
    let mut offset = 0usize;
    while remaining > 0 {
        let want = next_chunk_len(remaining);
        let n = want.min(data.len() - offset);
        remaining = after_source_read(remaining, n as u64).unwrap();
        wire.extend(encode_frame(&data[offset..offset + n]).unwrap());
        offset += n;
    }
    // Receiver side: take frames until the announced length is reached.
    let mut out: Vec<u8> = Vec::new();
    let mut remaining = data.len() as u64;
    let mut pos = 0usize;
    while remaining > 0 {
        let (chunk, used) = decode_frame(&wire[pos..]).unwrap();
        remaining = accept_chunk(remaining, chunk.len() as u64).unwrap();
        out.extend(chunk);
        pos += used;
    }
    assert_eq!(out, data);
    assert_eq!(pos, wire.len());
    assert_eq!(after_source_read(5, 0), Err(FrameError::SourceEndedEarly(5)));
}

#[test]
fn io_mode_names_parse_back_through_from_str() {
    for m in [WorkerIoMode::Temp, WorkerIoMode::Pipe] {
        assert_eq!(m.as_str().parse::<WorkerIoMode>(), Ok(m));
    }
    assert_eq!(" Stream ".parse::<WorkerIoMode>(), Ok(WorkerIoMode::Pipe));
    assert_eq!(
        "disk".parse::<WorkerIoMode>(),
        Err("invalid worker io mode: 'disk' (expected 'temp' or 'pipe')".to_string())
    );
}
