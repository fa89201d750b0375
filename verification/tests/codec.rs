use content_exchange::codec::{
    decode_request, decode_response, encode_request, encode_response, Codec,
    MAX_GIT_REQUEST_SIZE, MAX_GIT_RESPONSE_SIZE,
};
use content_exchange::framing::{write_length_prefixed, write_varint, ByteStream, FrameError};
use content_exchange::message::{GitRequest, GitResponse};
use serde_json::Value;

fn text(s: &str) -> Value {
    Value::String(s.to_string())
}

fn tagged(tag: &str, body: Value) -> Value {
    let mut object = serde_json::Map::new();
    object.insert(tag.to_string(), body);
    Value::Object(object)
}

fn strings(items: &[&str]) -> Vec<String> {
    items.iter().map(|s| s.to_string()).collect()
}

fn request_value(request: &GitRequest) -> Value {
    match request {
        GitRequest::Clone(location) => tagged("Clone", text(location)),
        GitRequest::Fetch(remote, refspecs) => tagged(
            "Fetch",
            Value::Array(vec![
                text(remote),
                match refspecs {
                    Some(list) => Value::Array(list.iter().map(|s| text(s)).collect()),
                    None => Value::Null,
                },
            ]),
        ),
        GitRequest::Push(remote, refspecs) => tagged(
            "Push",
            Value::Array(vec![
                text(remote),
                Value::Array(refspecs.iter().map(|s| text(s)).collect()),
            ]),
        ),
        GitRequest::LsRemote(remote) => tagged("LsRemote", text(remote)),
        GitRequest::Status(location) => tagged("Status", text(location)),
    }
}

fn response_value(response: &GitResponse) -> Value {
    match response {
        GitResponse::Success(message) => tagged("Success", text(message)),
        GitResponse::Error(cause) => tagged("Error", text(cause)),
        GitResponse::LsRemote(refs) => tagged(
            "LsRemote",
            Value::Array(
                refs.iter().map(|(name, oid)| Value::Array(vec![text(name), text(oid)])).collect(),
            ),
        ),
        GitResponse::Status(status) => tagged("Status", text(status)),
        GitResponse::Data(bytes) => {
            tagged("Data", Value::Array(bytes.iter().map(|b| Value::from(*b)).collect()))
        }
    }
}

fn sample_requests() -> Vec<GitRequest> {
    vec![
        GitRequest::Clone("https://example.org/repo.git".to_string()),
        GitRequest::Clone(String::new()),
        GitRequest::Fetch("origin".to_string(), None),
        GitRequest::Fetch("origin".to_string(), Some(Vec::new())),
        GitRequest::Fetch("origin".to_string(), Some(strings(&["refs/heads/main"]))),
        GitRequest::Fetch(String::new(), Some(strings(&["a", "", "c"]))),
        GitRequest::Push("origin".to_string(), Vec::new()),
        GitRequest::Push("origin".to_string(), strings(&["main:main", "+dev:dev"])),
        GitRequest::LsRemote("upstream".to_string()),
        GitRequest::Status("/srv/git/project".to_string()),
        GitRequest::Status("quote \" backslash \\ slash / tab \t newline \n".to_string()),
        GitRequest::Clone("control \u{1}\u{8}\u{c}\u{1f}\u{7f} end".to_string()),
        GitRequest::Clone("caf\u{e9} \u{4e16}\u{754c} \u{1f600}".to_string()),
    ]
}

fn sample_responses() -> Vec<GitResponse> {
    vec![
        GitResponse::Success("done".to_string()),
        GitResponse::Success(String::new()),
        GitResponse::Error("no such remote".to_string()),
        GitResponse::Error("line one\r\nline two".to_string()),
        GitResponse::LsRemote(Vec::new()),
        GitResponse::LsRemote(vec![(
            "refs/heads/main".to_string(),
            "9fceb02d0ae598e95dc970b74767f19372d61af8".to_string(),
        )]),
        GitResponse::LsRemote(vec![
            ("HEAD".to_string(), "aa".to_string()),
            (String::new(), String::new()),
            ("refs/tags/v1".to_string(), "bb".to_string()),
        ]),
        GitResponse::Status("clean".to_string()),
        GitResponse::Data(Vec::new()),
        GitResponse::Data(vec![0]),
        GitResponse::Data(vec![0, 1, 9, 10, 99, 100, 199, 200, 255]),
        GitResponse::Data((0..=255u8).collect()),
    ]
}

#[test]
fn request_text_is_the_tagged_object() {
    assert_eq!(
        encode_request(&GitRequest::Clone("abc".to_string())),
        b"{\"Clone\":\"abc\"}".to_vec()
    );
    assert_eq!(
        encode_request(&GitRequest::Fetch("origin".to_string(), None)),
        b"{\"Fetch\":[\"origin\",null]}".to_vec()
    );
    assert_eq!(
        encode_request(&GitRequest::Fetch("origin".to_string(), Some(strings(&["a", "b"])))),
        b"{\"Fetch\":[\"origin\",[\"a\",\"b\"]]}".to_vec()
    );
    assert_eq!(
        encode_request(&GitRequest::Push("origin".to_string(), Vec::new())),
        b"{\"Push\":[\"origin\",[]]}".to_vec()
    );
    assert_eq!(
        encode_request(&GitRequest::LsRemote("up".to_string())),
        b"{\"LsRemote\":\"up\"}".to_vec()
    );
    assert_eq!(
        encode_request(&GitRequest::Status(String::new())),
        b"{\"Status\":\"\"}".to_vec()
    );
}

#[test]
fn response_text_is_the_tagged_object() {
    assert_eq!(
        encode_response(&GitResponse::Success("ok".to_string())),
        b"{\"Success\":\"ok\"}".to_vec()
    );
    assert_eq!(
        encode_response(&GitResponse::Error("bad".to_string())),
        b"{\"Error\":\"bad\"}".to_vec()
    );
    assert_eq!(
        encode_response(&GitResponse::LsRemote(vec![
            ("HEAD".to_string(), "aa".to_string()),
            ("refs/x".to_string(), "bb".to_string()),
        ])),
        b"{\"LsRemote\":[[\"HEAD\",\"aa\"],[\"refs/x\",\"bb\"]]}".to_vec()
    );
    assert_eq!(
        encode_response(&GitResponse::Status("clean".to_string())),
        b"{\"Status\":\"clean\"}".to_vec()
    );
    assert_eq!(
        encode_response(&GitResponse::Data(vec![0, 7, 42, 255])),
        b"{\"Data\":[0,7,42,255]}".to_vec()
    );
    assert_eq!(encode_response(&GitResponse::Data(Vec::new())), b"{\"Data\":[]}".to_vec());
}

#[test]
fn text_escapes_are_those_of_json() {
    assert_eq!(
        encode_request(&GitRequest::Clone("a\"b\\c/d\u{8}\u{c}\n\r\t\u{1}\u{1f}".to_string())),
        b"{\"Clone\":\"a\\\"b\\\\c/d\\b\\f\\n\\r\\t\\u0001\\u001f\"}".to_vec()
    );
}

#[test]
fn requests_are_written_as_serde_json_writes_them() {
    for request in sample_requests() {
        let expected = serde_json::to_vec(&request_value(&request)).unwrap();
        assert_eq!(encode_request(&request), expected, "{:?}", request);
    }
}

#[test]
fn responses_are_written_as_serde_json_writes_them() {
    for response in sample_responses() {
        let expected = serde_json::to_vec(&response_value(&response)).unwrap();
        assert_eq!(encode_response(&response), expected, "{:?}", response);
    }
}

#[test]
fn every_request_round_trips() {
    for request in sample_requests() {
        let encoded = encode_request(&request);
        assert_eq!(decode_request(&encoded), Ok(request));
    }
}

#[test]
fn every_response_round_trips() {
    for response in sample_responses() {
        let encoded = encode_response(&response);
        assert_eq!(decode_response(&encoded), Ok(response));
    }
}

#[test]
fn large_payload_round_trips() {
    let bytes: Vec<u8> = (0..2_000_000u32).map(|i| (i % 251) as u8).collect();
    let response = GitResponse::Data(bytes);
    let encoded = encode_response(&response);
    assert_eq!(decode_response(&encoded), Ok(response));
}

#[test]
fn pretty_printed_messages_are_read() {
    for request in sample_requests() {
        let pretty = serde_json::to_vec_pretty(&request_value(&request)).unwrap();
        assert_eq!(decode_request(&pretty), Ok(request));
    }
    for response in sample_responses() {
        let pretty = serde_json::to_vec_pretty(&response_value(&response)).unwrap();
        assert_eq!(decode_response(&pretty), Ok(response));
    }
}

#[test]
fn white_space_around_tokens_is_skipped() {
    assert_eq!(
        decode_request(b" \t\r\n{ \"Fetch\" : [ \"o\" , [ \"a\" , \"b\" ] ] } \n"),
        Ok(GitRequest::Fetch("o".to_string(), Some(strings(&["a", "b"]))))
    );
    assert_eq!(
        decode_response(b"{\"Data\": [ 1 ,2, 3 ]}"),
        Ok(GitResponse::Data(vec![1, 2, 3]))
    );
    assert_eq!(
        decode_request(b"{\"Fetch\":[\"o\", null ]}"),
        Ok(GitRequest::Fetch("o".to_string(), None))
    );
}

#[test]
fn every_json_escape_is_read() {
    assert_eq!(
        decode_request(b"{\"Clone\":\"\\\"\\\\\\/\\b\\f\\n\\r\\t\\u0041\\u00e9\\u4E16\"}"),
        Ok(GitRequest::Clone("\"\\/\u{8}\u{c}\n\r\tA\u{e9}\u{4e16}".to_string()))
    );
    assert_eq!(
        decode_request(b"{\"Clone\":\"\\ud83d\\ude00\"}"),
        Ok(GitRequest::Clone("\u{1f600}".to_string()))
    );
    assert_eq!(
        decode_request(b"{\"\\u0043lone\":\"x\"}"),
        Ok(GitRequest::Clone("x".to_string()))
    );
}

fn malformed_request(bytes: &[u8]) {
    assert_eq!(
        decode_request(bytes),
        Err(FrameError::Malformed),
        "{:?}",
        String::from_utf8_lossy(bytes)
    );
}

fn malformed_response(bytes: &[u8]) {
    assert_eq!(
        decode_response(bytes),
        Err(FrameError::Malformed),
        "{:?}",
        String::from_utf8_lossy(bytes)
    );
}

#[test]
fn unknown_variant_is_malformed() {
    malformed_request(b"{\"Rebase\":\"x\"}");
    malformed_request(b"{\"clone\":\"x\"}");
    malformed_request(b"{\"Success\":\"x\"}");
    malformed_response(b"{\"Clone\":\"x\"}");
    malformed_response(b"{\"Packfile\":[1]}");
}

#[test]
fn broken_text_is_malformed() {
    malformed_request(b"");
    malformed_request(b"   ");
    malformed_request(b"{");
    malformed_request(b"{}");
    malformed_request(b"\"Clone\"");
    malformed_request(b"{\"Clone\"}");
    malformed_request(b"{\"Clone\":}");
    malformed_request(b"{\"Clone\":\"x\"");
    malformed_request(b"{\"Clone\":\"x\"}}");
    malformed_request(b"{\"Clone\":\"x\"} x");
    malformed_request(b"{\"Clone\":\"x\",\"Status\":\"y\"}");
    malformed_request(b"{\"Clone\":\"unterminated}");
    malformed_request(b"{\"Clone\":\"bad \\x escape\"}");
    malformed_request(b"{\"Clone\":\"bad \\u12 escape\"}");
    malformed_request(b"{\"Clone\":\"raw \n newline\"}");
    malformed_request(b"{\"Clone\":\"lone \\ud83d surrogate\"}");
    malformed_request(b"{\"Clone\":\"lone \\ude00 surrogate\"}");
    malformed_request(b"{\"Clone\":\"\xff\"}");
    malformed_request(b"{\"Clone\":7}");
    malformed_request(b"{\"Clone\":[\"x\"]}");
    malformed_request(b"{\"Clone\":null}");
}

#[test]
fn wrong_arguments_are_malformed() {
    malformed_request(b"{\"Fetch\":\"origin\"}");
    malformed_request(b"{\"Fetch\":[\"origin\"]}");
    malformed_request(b"{\"Fetch\":[\"origin\",null,null]}");
    malformed_request(b"{\"Fetch\":[\"origin\",[\"a\",]]}");
    malformed_request(b"{\"Fetch\":[\"origin\",[,\"a\"]]}");
    malformed_request(b"{\"Fetch\":[\"origin\",[\"a\" \"b\"]]}");
    malformed_request(b"{\"Fetch\":[\"origin\",nul]}");
    malformed_request(b"{\"Push\":[\"origin\",null]}");
    malformed_request(b"{\"Push\":[\"origin\",[1]]}");
    malformed_response(b"{\"LsRemote\":[[\"a\"]]}");
    malformed_response(b"{\"LsRemote\":[[\"a\",\"b\",\"c\"]]}");
    malformed_response(b"{\"LsRemote\":[\"a\",\"b\"]}");
    malformed_response(b"{\"LsRemote\":\"x\"}");
}

#[test]
fn bytes_are_whole_numbers_up_to_255() {
    assert_eq!(decode_response(b"{\"Data\":[255]}"), Ok(GitResponse::Data(vec![255])));
    assert_eq!(decode_response(b"{\"Data\":[0]}"), Ok(GitResponse::Data(vec![0])));
    malformed_response(b"{\"Data\":[256]}");
    malformed_response(b"{\"Data\":[1000]}");
    malformed_response(b"{\"Data\":[01]}");
    malformed_response(b"{\"Data\":[00]}");
    malformed_response(b"{\"Data\":[-1]}");
    malformed_response(b"{\"Data\":[1.0]}");
    malformed_response(b"{\"Data\":[1e1]}");
    malformed_response(b"{\"Data\":[1E1]}");
    malformed_response(b"{\"Data\":[\"1\"]}");
    malformed_response(b"{\"Data\":[1,]}");
    malformed_response(b"{\"Data\":[1 2]}");
    malformed_response(b"{\"Data\":\"AAEC\"}");
}

#[test]
fn readers_agree_with_serde_json_on_what_is_malformed() {
    let inputs: Vec<&[u8]> = vec![
        b"{\"Data\":[256]}",
        b"{\"Data\":[01]}",
        b"{\"Data\":[1.0]}",
        b"{\"Data\":[1,]}",
        b"{\"Clone\":\"raw \n newline\"}",
        b"{\"Clone\":\"lone \\ud83d surrogate\"}",
        b"{\"Clone\":\"x\"} x",
        b"{\"Clone\":\"bad \\x escape\"}",
    ];
    for input in inputs {
        let by_serde: Result<Value, _> = serde_json::from_slice(input);
        let rejected_by_serde = match by_serde {
            Err(_) => true,
            Ok(value) => {
                // Well-formed JSON of the wrong shape: a number that is no byte.
                value
                    .get("Data")
                    .and_then(|data| data.as_array())
                    .map(|items| items.iter().any(|item| item.as_u64().map_or(true, |n| n > 255)))
                    .unwrap_or(false)
            }
        };
        assert!(rejected_by_serde, "{:?}", String::from_utf8_lossy(input));
        assert!(decode_request(input).is_err());
        assert!(decode_response(input).is_err());
    }
}

#[test]
fn codec_round_trips_a_request_through_a_frame() {
    let mut codec = Codec::default();
    for request in sample_requests() {
        let mut wire = Vec::new();
        codec.write_request(&mut wire, request.clone());
        let mut stream = ByteStream::new(wire);
        assert_eq!(codec.read_request(&mut stream), Ok(request));
        assert_eq!(stream.remaining(), 0);
    }
}

#[test]
fn codec_round_trips_a_response_through_a_frame() {
    let mut codec = Codec::default();
    for response in sample_responses() {
        let mut wire = Vec::new();
        codec.write_response(&mut wire, response.clone());
        let mut stream = ByteStream::new(wire);
        assert_eq!(codec.read_response(&mut stream), Ok(response));
        assert_eq!(stream.remaining(), 0);
    }
}

#[test]
fn codec_frame_is_prefix_then_text() {
    let mut codec = Codec::default();
    let mut wire = Vec::new();
    codec.write_request(&mut wire, GitRequest::Clone("abc".to_string()));
    let text = b"{\"Clone\":\"abc\"}";
    assert_eq!(wire[0] as usize, text.len());
    assert_eq!(&wire[1..], &text[..]);
}

#[test]
fn codec_reads_messages_one_after_another() {
    let mut codec = Codec::default();
    let mut wire = Vec::new();
    codec.write_response(&mut wire, GitResponse::Status("clean".to_string()));
    codec.write_response(&mut wire, GitResponse::Data(vec![1, 2, 3]));
    let mut stream = ByteStream::new(wire);
    assert_eq!(codec.read_response(&mut stream), Ok(GitResponse::Status("clean".to_string())));
    assert_eq!(codec.read_response(&mut stream), Ok(GitResponse::Data(vec![1, 2, 3])));
}

#[test]
fn codec_request_ceiling_is_one_million_bytes() {
    assert_eq!(MAX_GIT_REQUEST_SIZE, 1_000_000);
    assert_eq!(MAX_GIT_RESPONSE_SIZE, 500_000_000);
    let mut codec = Codec::default();

    let mut over = Vec::new();
    write_varint(&mut over, MAX_GIT_REQUEST_SIZE + 1);
    let mut stream = ByteStream::new(over);
    assert_eq!(
        codec.read_request(&mut stream),
        Err(FrameError::TooLarge { declared: 1_000_001, limit: 1_000_000 })
    );

    // A request of exactly one million bytes is read.
    let wrapper = "{\"Clone\":\"\"}".len();
    let location = "a".repeat(MAX_GIT_REQUEST_SIZE - wrapper);
    let request = GitRequest::Clone(location);
    let mut wire = Vec::new();
    codec.write_request(&mut wire, request.clone());
    assert_eq!(wire.len(), 3 + MAX_GIT_REQUEST_SIZE);
    let mut stream = ByteStream::new(wire);
    assert_eq!(codec.read_request(&mut stream), Ok(request));
}

#[test]
fn codec_response_ceiling_is_larger_than_the_request_ceiling() {
    let mut codec = Codec::default();
    let body = vec![b'x'; MAX_GIT_REQUEST_SIZE + 1];
    let response = GitResponse::Success(String::from_utf8(body).unwrap());
    let mut wire = Vec::new();
    codec.write_response(&mut wire, response.clone());
    let mut stream = ByteStream::new(wire.clone());
    assert_eq!(codec.read_response(&mut stream), Ok(response));
    let mut stream = ByteStream::new(wire);
    assert!(matches!(codec.read_request(&mut stream), Err(FrameError::TooLarge { .. })));

    let mut over = Vec::new();
    write_varint(&mut over, MAX_GIT_RESPONSE_SIZE + 1);
    let mut stream = ByteStream::new(over);
    assert_eq!(
        codec.read_response(&mut stream),
        Err(FrameError::TooLarge { declared: 500_000_001, limit: 500_000_000 })
    );
}

#[test]
fn codec_reports_a_frame_that_spells_no_message_as_malformed() {
    let mut codec = Codec::default();
    let mut wire = Vec::new();
    write_length_prefixed(&mut wire, b"not a message");
    let mut stream = ByteStream::new(wire.clone());
    assert_eq!(codec.read_request(&mut stream), Err(FrameError::Malformed));
    let mut stream = ByteStream::new(wire);
    assert_eq!(codec.read_response(&mut stream), Err(FrameError::Malformed));
}

#[test]
fn codec_on_a_closed_stream_reads_an_empty_frame() {
    // An idle stream that closes yields an empty payload, which spells no
    // message.
    let mut codec = Codec::default();
    let mut stream = ByteStream::new(Vec::new());
    assert_eq!(codec.read_request(&mut stream), Err(FrameError::Malformed));
}

#[test]
fn codec_on_a_stream_cut_short_reports_eof() {
    let mut codec = Codec::default();
    let mut wire = Vec::new();
    codec.write_request(&mut wire, GitRequest::Status("somewhere".to_string()));
    wire.truncate(wire.len() - 1);
    let mut stream = ByteStream::new(wire);
    assert_eq!(codec.read_request(&mut stream), Err(FrameError::UnexpectedEof));
}

#[test]
fn is_error_only_for_the_error_variant() {
    assert!(GitResponse::Error("x".to_string()).is_error());
    assert!(GitResponse::Error(String::new()).is_error());
    assert!(!GitResponse::Success("x".to_string()).is_error());
    assert!(!GitResponse::LsRemote(Vec::new()).is_error());
    assert!(!GitResponse::Status("error".to_string()).is_error());
    assert!(!GitResponse::Data(b"Error".to_vec()).is_error());
}
