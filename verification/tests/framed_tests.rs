use xodium::{Connection, Decoder, Encoder, Framed, LinesCodec, MemoryStream, SetupCodec, StreamMarker};

#[test]
fn test_framed_next() {
    let stream = MemoryStream::new("line1\nline2\nline3".as_bytes().to_vec());
    let codec = LinesCodec {};
    let mut framed = Framed::new(stream, codec);
    assert_eq!(framed.next().unwrap(), b"line1");
    assert_eq!(framed.next().unwrap(), b"line2");
    assert!(framed.next().is_err());
}

#[test]
fn test_framed_next_buffers_partial_lines() {
    // a message spanning more than one chunk-sized read is reassembled
    let mut long_line: Vec<u8> = vec![b'a'; 3000];
    long_line.push(b'\n');
    long_line.extend_from_slice(b"tail\n");
    let stream = MemoryStream::new(long_line);
    let mut framed = Framed::new(stream, LinesCodec {});
    assert_eq!(framed.next().unwrap(), vec![b'a'; 3000]);
    assert_eq!(framed.next().unwrap(), b"tail");
    assert!(framed.next().is_err());
}

#[test]
fn test_lines_codec_encodes_verbatim() {
    let mut codec = LinesCodec {};
    let mut dst: Vec<u8> = Vec::new();
    codec.encode(b"ab".to_vec(), &mut dst).unwrap();
    codec.encode(b"\n".to_vec(), &mut dst).unwrap();
    assert_eq!(dst, b"ab\n");
}

#[test]
fn test_setup_codec_decode_is_pending() {
    let mut codec = SetupCodec::default();
    let mut src: Vec<u8> = b"anything".to_vec();
    assert_eq!(codec.decode(&mut src).unwrap(), None);
    assert_eq!(src, b"anything");
}

#[test]
fn test_memory_stream_gathers_writes() {
    let mut stream = MemoryStream::new(Vec::new());
    stream.stream_write(b"he").unwrap();
    stream.stream_write(b"llo").unwrap();
    assert_eq!(stream.into_written(), b"hello");
}

#[test]
fn test_connection_setup_over_memory_stream() {
    let stream = MemoryStream::new(Vec::new());
    assert!(Connection::setup(stream).is_ok());
}
