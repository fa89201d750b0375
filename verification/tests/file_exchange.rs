use content_exchange::file_exchange::{
    decode_file_request, decode_file_response, encode_file_request, encode_file_response,
};
use content_exchange::framing::{
    read_length_prefixed, write_length_prefixed, ByteStream, FrameError,
};
use content_exchange::message::{FileRequest, FileResponse};

#[test]
fn file_request_is_the_identifier_as_it_is() {
    let request = FileRequest { file_id: "abc123".to_string() };
    assert_eq!(encode_file_request(&request), b"abc123".to_vec());
    assert_eq!(decode_file_request(b"abc123".to_vec()), Ok(request));
}

#[test]
fn file_request_keeps_text_beyond_ascii() {
    let request = FileRequest { file_id: "caf\u{e9} \u{1f600}".to_string() };
    let bytes = encode_file_request(&request);
    assert_eq!(bytes, "caf\u{e9} \u{1f600}".as_bytes().to_vec());
    assert_eq!(decode_file_request(bytes), Ok(request));
}

#[test]
fn file_request_that_is_not_text_is_malformed() {
    assert_eq!(decode_file_request(vec![0xff, 0xfe]), Err(FrameError::Malformed));
    assert_eq!(decode_file_request(vec![0x61, 0xc3]), Err(FrameError::Malformed));
}

#[test]
fn empty_file_request_is_an_end_of_stream() {
    assert_eq!(decode_file_request(vec![]), Err(FrameError::UnexpectedEof));
}

#[test]
fn file_response_is_the_content_as_it_is() {
    let response = FileResponse { file_body: vec![0, 1, 0xff, 0x80] };
    assert_eq!(encode_file_response(&response), vec![0, 1, 0xff, 0x80]);
    assert_eq!(decode_file_response(vec![0, 1, 0xff, 0x80]), Ok(response));
}

#[test]
fn empty_file_response_is_an_end_of_stream() {
    assert_eq!(decode_file_response(vec![]), Err(FrameError::UnexpectedEof));
}

#[test]
fn file_messages_travel_as_frames() {
    let request = FileRequest { file_id: "abc123".to_string() };
    let response = FileResponse { file_body: vec![7u8; 300] };
    let mut wire = Vec::new();
    write_length_prefixed(&mut wire, &encode_file_request(&request));
    write_length_prefixed(&mut wire, &encode_file_response(&response));
    let mut stream = ByteStream::new(wire);
    let first = read_length_prefixed(&mut stream, 1_000_000).unwrap();
    assert_eq!(decode_file_request(first), Ok(request));
    let second = read_length_prefixed(&mut stream, 1_000_000).unwrap();
    assert_eq!(decode_file_response(second), Ok(response));
    assert_eq!(stream.remaining(), 0);
}

#[test]
fn a_peer_that_closed_without_a_word_is_an_end_of_stream() {
    let mut stream = ByteStream::new(vec![]);
    let payload = read_length_prefixed(&mut stream, 1_000_000).unwrap();
    assert_eq!(decode_file_response(payload), Err(FrameError::UnexpectedEof));
}
