//! The codec of the exchange protocol: each message is the text of its
//! variant, as one length-prefixed frame.
//!
//! A message is written as a JSON object with one key, the name of the
//! variant, and the arguments of the variant as its value: a text alone, or an
//! array of the arguments where there are two.

use crate::framing::{
    frame, frame_consumed, frame_of_stream, lemma_read_inverts_write, read_length_prefixed,
    write_length_prefixed, ByteStream, FrameError,
};
use crate::message::{texts, GitRequest, GitRequestView, GitResponse, GitResponseView};
use crate::reader::{
    from, read_bracket_end, read_byte_list, read_close, read_first_of_two,
    read_optional_string_list, read_pair_list, read_string, read_string_list, read_tag,
};
use crate::roundtrip::{
    lemma_byte_list_reads_back, lemma_optional_string_list_reads_back, lemma_pair_list_reads_back,
    lemma_string_list_reads_back, lemma_string_reads_back, lemma_tag_reads_back,
    lemma_two_read_back,
};
use crate::text::same_text;
use crate::wire::{
    array_text, byte_list_in, byte_list_text, closes, is_space, lemma_joined_two, null_text,
    optional_string_list_element, pair_list_in, pair_list_text, string_in, string_list_element,
    string_list_text, string_text, tag_in, tagged_text, two_in, write_byte_list, write_null,
    write_pair_list, write_string, write_string_list, CLOSE_BRACE, CLOSE_BRACKET, COLON, COMMA,
    OPEN_BRACE, OPEN_BRACKET,
};
use vstd::prelude::*;

verus! {

/// The largest request that is read, in bytes: requests carry a location and
/// a few names.
pub const MAX_GIT_REQUEST_SIZE: usize = 1_000_000;

/// The largest response that is read, in bytes: responses carry packfiles and
/// file bodies.
pub const MAX_GIT_RESPONSE_SIZE: usize = 500_000_000;

pub const TAG_CLONE: &'static str = "Clone";

pub const TAG_FETCH: &'static str = "Fetch";

pub const TAG_PUSH: &'static str = "Push";

pub const TAG_LS_REMOTE: &'static str = "LsRemote";

pub const TAG_STATUS: &'static str = "Status";

pub const TAG_SUCCESS: &'static str = "Success";

pub const TAG_ERROR: &'static str = "Error";

pub const TAG_DATA: &'static str = "Data";

/// The text of a request.
pub open spec fn request_text(request: GitRequestView) -> Seq<u8> {
    match request {
        GitRequestView::Clone(location) => tagged_text(TAG_CLONE@, string_text(location)),
        GitRequestView::Fetch(remote, None) => tagged_text(
            TAG_FETCH@,
            array_text(seq![string_text(remote), null_text()]),
        ),
        GitRequestView::Fetch(remote, Some(refspecs)) => tagged_text(
            TAG_FETCH@,
            array_text(seq![string_text(remote), string_list_text(refspecs)]),
        ),
        GitRequestView::Push(remote, refspecs) => tagged_text(
            TAG_PUSH@,
            array_text(seq![string_text(remote), string_list_text(refspecs)]),
        ),
        GitRequestView::LsRemote(remote) => tagged_text(TAG_LS_REMOTE@, string_text(remote)),
        GitRequestView::Status(location) => tagged_text(TAG_STATUS@, string_text(location)),
    }
}

/// The text of a response.
pub open spec fn response_text(response: GitResponseView) -> Seq<u8> {
    match response {
        GitResponseView::Success(message) => tagged_text(TAG_SUCCESS@, string_text(message)),
        GitResponseView::Error(cause) => tagged_text(TAG_ERROR@, string_text(cause)),
        GitResponseView::LsRemote(refs) => tagged_text(TAG_LS_REMOTE@, pair_list_text(refs)),
        GitResponseView::Status(status) => tagged_text(TAG_STATUS@, string_text(status)),
        GitResponseView::Data(bytes) => tagged_text(TAG_DATA@, byte_list_text(bytes)),
    }
}

/// Starts an object with the one key `tag`.
fn open_tagged(out: &mut Vec<u8>, tag: &str)
    ensures
        final(out)@ == old(out)@ + seq![OPEN_BRACE] + string_text(tag@) + seq![COLON],
{
    out.push(OPEN_BRACE);
    write_string(out, tag);
    out.push(COLON);
}

/// Writes an object whose value is one text.
fn write_tagged_string(out: &mut Vec<u8>, tag: &str, text: &str)
    ensures
        final(out)@ == old(out)@ + tagged_text(tag@, string_text(text@)),
{
    open_tagged(out, tag);
    write_string(out, text);
    out.push(CLOSE_BRACE);
}

/// The text of `request`.
pub fn encode_request(request: &GitRequest) -> (out: Vec<u8>)
    ensures
        out@ == request_text(request@),
{
    let mut out: Vec<u8> = Vec::new();
    match request {
        GitRequest::Clone(location) => {
            write_tagged_string(&mut out, TAG_CLONE, location.as_str());
        },
        GitRequest::LsRemote(remote) => {
            write_tagged_string(&mut out, TAG_LS_REMOTE, remote.as_str());
        },
        GitRequest::Status(location) => {
            write_tagged_string(&mut out, TAG_STATUS, location.as_str());
        },
        GitRequest::Fetch(remote, refspecs) => {
            open_tagged(&mut out, TAG_FETCH);
            out.push(OPEN_BRACKET);
            write_string(&mut out, remote.as_str());
            out.push(COMMA);
            match refspecs {
                Some(list) => {
                    write_string_list(&mut out, list);
                    proof {
                        lemma_joined_two(
                            string_text(remote@),
                            string_list_text(texts(list@)),
                        );
                    }
                },
                None => {
                    write_null(&mut out);
                    proof {
                        lemma_joined_two(string_text(remote@), null_text());
                    }
                },
            }
            out.push(CLOSE_BRACKET);
            out.push(CLOSE_BRACE);
        },
        GitRequest::Push(remote, refspecs) => {
            open_tagged(&mut out, TAG_PUSH);
            out.push(OPEN_BRACKET);
            write_string(&mut out, remote.as_str());
            out.push(COMMA);
            write_string_list(&mut out, refspecs);
            out.push(CLOSE_BRACKET);
            out.push(CLOSE_BRACE);
            proof {
                lemma_joined_two(
                    string_text(remote@),
                    string_list_text(texts(refspecs@)),
                );
            }
        },
    }
    assert(out@ =~= request_text(request@));
    out
}

/// The text of `response`.
pub fn encode_response(response: &GitResponse) -> (out: Vec<u8>)
    ensures
        out@ == response_text(response@),
{
    let mut out: Vec<u8> = Vec::new();
    match response {
        GitResponse::Success(message) => {
            write_tagged_string(&mut out, TAG_SUCCESS, message.as_str());
        },
        GitResponse::Error(cause) => {
            write_tagged_string(&mut out, TAG_ERROR, cause.as_str());
        },
        GitResponse::Status(status) => {
            write_tagged_string(&mut out, TAG_STATUS, status.as_str());
        },
        GitResponse::LsRemote(refs) => {
            open_tagged(&mut out, TAG_LS_REMOTE);
            write_pair_list(&mut out, refs);
            out.push(CLOSE_BRACE);
        },
        GitResponse::Data(bytes) => {
            open_tagged(&mut out, TAG_DATA);
            write_byte_list(&mut out, bytes.as_slice());
            out.push(CLOSE_BRACE);
        },
    }
    assert(out@ =~= response_text(response@));
    out
}

/// The request that the value of an object with the key `tag` spells, and
/// what follows it. A key that names no variant spells nothing.
pub open spec fn request_body_in(tag: Seq<char>, s: Seq<u8>) -> Option<
    (GitRequestView, Seq<u8>),
> {
    if tag == TAG_CLONE@ {
        match string_in(s) {
            Some((location, rest)) => Some((GitRequestView::Clone(location), rest)),
            None => None,
        }
    } else if tag == TAG_FETCH@ {
        match two_in(optional_string_list_element(), s) {
            Some((args, rest)) => Some((GitRequestView::Fetch(args.0, args.1), rest)),
            None => None,
        }
    } else if tag == TAG_PUSH@ {
        match two_in(string_list_element(), s) {
            Some((args, rest)) => Some((GitRequestView::Push(args.0, args.1), rest)),
            None => None,
        }
    } else if tag == TAG_LS_REMOTE@ {
        match string_in(s) {
            Some((remote, rest)) => Some((GitRequestView::LsRemote(remote), rest)),
            None => None,
        }
    } else if tag == TAG_STATUS@ {
        match string_in(s) {
            Some((location, rest)) => Some((GitRequestView::Status(location), rest)),
            None => None,
        }
    } else {
        None
    }
}

/// The response that the value of an object with the key `tag` spells, and
/// what follows it. A key that names no variant spells nothing.
pub open spec fn response_body_in(tag: Seq<char>, s: Seq<u8>) -> Option<
    (GitResponseView, Seq<u8>),
> {
    if tag == TAG_SUCCESS@ {
        match string_in(s) {
            Some((message, rest)) => Some((GitResponseView::Success(message), rest)),
            None => None,
        }
    } else if tag == TAG_ERROR@ {
        match string_in(s) {
            Some((cause, rest)) => Some((GitResponseView::Error(cause), rest)),
            None => None,
        }
    } else if tag == TAG_LS_REMOTE@ {
        match pair_list_in(s) {
            Some((refs, rest)) => Some((GitResponseView::LsRemote(refs), rest)),
            None => None,
        }
    } else if tag == TAG_STATUS@ {
        match string_in(s) {
            Some((status, rest)) => Some((GitResponseView::Status(status), rest)),
            None => None,
        }
    } else if tag == TAG_DATA@ {
        match byte_list_in(s) {
            Some((bytes, rest)) => Some((GitResponseView::Data(bytes), rest)),
            None => None,
        }
    } else {
        None
    }
}

/// The request that a text spells: an object with one key, the name of a
/// variant, and the arguments of that variant as its value, and nothing after
/// it but white space.
pub open spec fn request_in(s: Seq<u8>) -> Option<GitRequestView> {
    match tag_in(s) {
        None => None,
        Some((tag, start)) => match request_body_in(tag, start) {
            None => None,
            Some((request, rest)) => if closes(rest) {
                Some(request)
            } else {
                None
            },
        },
    }
}

/// The response that a text spells.
pub open spec fn response_in(s: Seq<u8>) -> Option<GitResponseView> {
    match tag_in(s) {
        None => None,
        Some((tag, start)) => match response_body_in(tag, start) {
            None => None,
            Some((response, rest)) => if closes(rest) {
                Some(response)
            } else {
                None
            },
        },
    }
}

/// Reads the value of a request with the key `tag` at `pos`.
fn read_request_body(tag: &str, buf: &[u8], pos: usize) -> (r: Option<(GitRequest, usize)>)
    requires
        pos <= buf@.len(),
    ensures
        match request_body_in(tag@, from(buf@, pos)) {
            Some((request, rest)) => r is Some && (r->0).0@ == request && (r->0).1 <= buf@.len()
                && from(buf@, (r->0).1) == rest,
            None => r is None,
        },
{
    if same_text(tag, TAG_CLONE) {
        match read_string(buf, pos) {
            Some((location, next)) => Some((GitRequest::Clone(location), next)),
            None => None,
        }
    } else if same_text(tag, TAG_FETCH) {
        match read_first_of_two(buf, pos) {
            None => None,
            Some((remote, start)) => match read_optional_string_list(buf, start) {
                None => None,
                Some((refspecs, last)) => match read_bracket_end(buf, last) {
                    Some(next) => Some((GitRequest::Fetch(remote, refspecs), next)),
                    None => None,
                },
            },
        }
    } else if same_text(tag, TAG_PUSH) {
        match read_first_of_two(buf, pos) {
            None => None,
            Some((remote, start)) => match read_string_list(buf, start) {
                None => None,
                Some((refspecs, last)) => match read_bracket_end(buf, last) {
                    Some(next) => Some((GitRequest::Push(remote, refspecs), next)),
                    None => None,
                },
            },
        }
    } else if same_text(tag, TAG_LS_REMOTE) {
        match read_string(buf, pos) {
            Some((remote, next)) => Some((GitRequest::LsRemote(remote), next)),
            None => None,
        }
    } else if same_text(tag, TAG_STATUS) {
        match read_string(buf, pos) {
            Some((location, next)) => Some((GitRequest::Status(location), next)),
            None => None,
        }
    } else {
        None
    }
}

/// Reads the value of a response with the key `tag` at `pos`.
fn read_response_body(tag: &str, buf: &[u8], pos: usize) -> (r: Option<(GitResponse, usize)>)
    requires
        pos <= buf@.len(),
    ensures
        match response_body_in(tag@, from(buf@, pos)) {
            Some((response, rest)) => r is Some && (r->0).0@ == response && (r->0).1 <= buf@.len()
                && from(buf@, (r->0).1) == rest,
            None => r is None,
        },
{
    if same_text(tag, TAG_SUCCESS) {
        match read_string(buf, pos) {
            Some((message, next)) => Some((GitResponse::Success(message), next)),
            None => None,
        }
    } else if same_text(tag, TAG_ERROR) {
        match read_string(buf, pos) {
            Some((cause, next)) => Some((GitResponse::Error(cause), next)),
            None => None,
        }
    } else if same_text(tag, TAG_LS_REMOTE) {
        match read_pair_list(buf, pos) {
            Some((refs, next)) => Some((GitResponse::LsRemote(refs), next)),
            None => None,
        }
    } else if same_text(tag, TAG_STATUS) {
        match read_string(buf, pos) {
            Some((status, next)) => Some((GitResponse::Status(status), next)),
            None => None,
        }
    } else if same_text(tag, TAG_DATA) {
        match read_byte_list(buf, pos) {
            Some((bytes, next)) => Some((GitResponse::Data(bytes), next)),
            None => None,
        }
    } else {
        None
    }
}

/// The request that `bytes` spell. Bytes that spell no request are
/// malformed.
pub fn decode_request(bytes: &[u8]) -> (r: Result<GitRequest, FrameError>)
    ensures
        match request_in(bytes@) {
            Some(request) => r is Ok && r->Ok_0@ == request,
            None => r == Err::<GitRequest, FrameError>(FrameError::Malformed),
        },
{
    match read_tag(bytes) {
        None => Err(FrameError::Malformed),
        Some((tag, start)) => match read_request_body(tag.as_str(), bytes, start) {
            None => Err(FrameError::Malformed),
            Some((request, rest)) => {
                if read_close(bytes, rest) {
                    Ok(request)
                } else {
                    Err(FrameError::Malformed)
                }
            },
        },
    }
}

/// The response that `bytes` spell. Bytes that spell no response are
/// malformed.
pub fn decode_response(bytes: &[u8]) -> (r: Result<GitResponse, FrameError>)
    ensures
        match response_in(bytes@) {
            Some(response) => r is Ok && r->Ok_0@ == response,
            None => r == Err::<GitResponse, FrameError>(FrameError::Malformed),
        },
{
    match read_tag(bytes) {
        None => Err(FrameError::Malformed),
        Some((tag, start)) => match read_response_body(tag.as_str(), bytes, start) {
            None => Err(FrameError::Malformed),
            Some((response, rest)) => {
                if read_close(bytes, rest) {
                    Ok(response)
                } else {
                    Err(FrameError::Malformed)
                }
            },
        },
    }
}

/// What reading a request from a stream yields, when the stream delivers
/// exactly `s` and then closes: the request that the first frame spells.
pub open spec fn request_of_stream(s: Seq<u8>) -> Result<GitRequestView, FrameError> {
    match frame_of_stream(s, MAX_GIT_REQUEST_SIZE) {
        Err(e) => Err(e),
        Ok(payload) => match request_in(payload) {
            Some(request) => Ok(request),
            None => Err(FrameError::Malformed),
        },
    }
}

/// What reading a response from a stream yields, when the stream delivers
/// exactly `s` and then closes: the response that the first frame spells.
pub open spec fn response_of_stream(s: Seq<u8>) -> Result<GitResponseView, FrameError> {
    match frame_of_stream(s, MAX_GIT_RESPONSE_SIZE) {
        Err(e) => Err(e),
        Ok(payload) => match response_in(payload) {
            Some(response) => Ok(response),
            None => Err(FrameError::Malformed),
        },
    }
}

/// The codec of the exchange protocol.
#[derive(Debug, Default, Clone, Copy)]
pub struct Codec;

impl Codec {
    /// Reads one frame of at most `MAX_GIT_REQUEST_SIZE` bytes and the
    /// request that it spells.
    pub fn read_request(&mut self, io: &mut ByteStream) -> (r: Result<GitRequest, FrameError>)
        ensures
            match request_of_stream(old(io)@) {
                Ok(request) => r is Ok && r->Ok_0@ == request,
                Err(e) => r == Err::<GitRequest, FrameError>(e),
            },
            final(io)@ == old(io)@.skip(frame_consumed(old(io)@, MAX_GIT_REQUEST_SIZE) as int),
    {
        match read_length_prefixed(io, MAX_GIT_REQUEST_SIZE) {
            Err(e) => Err(e),
            Ok(encoded) => decode_request(encoded.as_slice()),
        }
    }

    /// Reads one frame of at most `MAX_GIT_RESPONSE_SIZE` bytes and the
    /// response that it spells.
    pub fn read_response(&mut self, io: &mut ByteStream) -> (r: Result<GitResponse, FrameError>)
        ensures
            match response_of_stream(old(io)@) {
                Ok(response) => r is Ok && r->Ok_0@ == response,
                Err(e) => r == Err::<GitResponse, FrameError>(e),
            },
            final(io)@ == old(io)@.skip(frame_consumed(old(io)@, MAX_GIT_RESPONSE_SIZE) as int),
    {
        match read_length_prefixed(io, MAX_GIT_RESPONSE_SIZE) {
            Err(e) => Err(e),
            Ok(encoded) => decode_response(encoded.as_slice()),
        }
    }

    /// Writes `request` as one frame.
    pub fn write_request(&mut self, io: &mut Vec<u8>, request: GitRequest)
        ensures
            final(io)@ == old(io)@ + frame(request_text(request@)),
    {
        let encoded = encode_request(&request);
        write_length_prefixed(io, encoded.as_slice());
    }

    /// Writes `response` as one frame.
    pub fn write_response(&mut self, io: &mut Vec<u8>, response: GitResponse)
        ensures
            final(io)@ == old(io)@ + frame(response_text(response@)),
    {
        let encoded = encode_response(&response);
        write_length_prefixed(io, encoded.as_slice());
    }
}

/// The names of the variants of a request differ from each other, and so do
/// those of a response.
pub proof fn lemma_tags_differ()
    ensures
        TAG_FETCH@ != TAG_CLONE@,
        TAG_PUSH@ != TAG_CLONE@ && TAG_PUSH@ != TAG_FETCH@,
        TAG_LS_REMOTE@ != TAG_CLONE@ && TAG_LS_REMOTE@ != TAG_FETCH@ && TAG_LS_REMOTE@ != TAG_PUSH@,
        TAG_STATUS@ != TAG_CLONE@ && TAG_STATUS@ != TAG_FETCH@ && TAG_STATUS@ != TAG_PUSH@
            && TAG_STATUS@ != TAG_LS_REMOTE@,
        TAG_ERROR@ != TAG_SUCCESS@,
        TAG_LS_REMOTE@ != TAG_SUCCESS@ && TAG_LS_REMOTE@ != TAG_ERROR@,
        TAG_STATUS@ != TAG_SUCCESS@ && TAG_STATUS@ != TAG_ERROR@,
        TAG_DATA@ != TAG_SUCCESS@ && TAG_DATA@ != TAG_ERROR@ && TAG_DATA@ != TAG_LS_REMOTE@
            && TAG_DATA@ != TAG_STATUS@,
{
    reveal_strlit("Clone");
    reveal_strlit("Fetch");
    reveal_strlit("Push");
    reveal_strlit("LsRemote");
    reveal_strlit("Status");
    reveal_strlit("Success");
    reveal_strlit("Error");
    reveal_strlit("Data");
    assert(TAG_CLONE@.len() == 5 && TAG_CLONE@[0] == 'C');
    assert(TAG_FETCH@.len() == 5 && TAG_FETCH@[0] == 'F');
    assert(TAG_PUSH@.len() == 4);
    assert(TAG_LS_REMOTE@.len() == 8);
    assert(TAG_STATUS@.len() == 6);
    assert(TAG_SUCCESS@.len() == 7);
    assert(TAG_ERROR@.len() == 5 && TAG_ERROR@[0] == 'E');
    assert(TAG_DATA@.len() == 4);
}

/// An object whose value is one text reads back as its key and that text.
proof fn lemma_tagged_string_reads_back(tag: Seq<char>, text: Seq<char>)
    ensures
        tag_in(tagged_text(tag, string_text(text))) == Some(
            (tag, string_text(text) + seq![CLOSE_BRACE]),
        ),
        string_in(string_text(text) + seq![CLOSE_BRACE]) == Some((text, seq![CLOSE_BRACE])),
        closes(seq![CLOSE_BRACE]),
{
    lemma_string_reads_back(text, seq![CLOSE_BRACE]);
    lemma_tag_reads_back(tag, string_text(text));
}

/// An object whose value is a text and a second argument reads back as its
/// key and both, where the second argument reads back before a closing
/// bracket.
proof fn lemma_tagged_two_read_back<T>(
    second: spec_fn(Seq<u8>) -> Option<(T, Seq<u8>)>,
    tag: Seq<char>,
    first: Seq<char>,
    part: Seq<u8>,
    value: T,
)
    requires
        part.len() > 0,
        !is_space(part[0]),
        second(part + (seq![CLOSE_BRACKET] + seq![CLOSE_BRACE])) == Some(
            (value, seq![CLOSE_BRACKET] + seq![CLOSE_BRACE]),
        ),
    ensures
        tag_in(tagged_text(tag, array_text(seq![string_text(first), part]))) == Some(
            (tag, array_text(seq![string_text(first), part]) + seq![CLOSE_BRACE]),
        ),
        two_in(second, array_text(seq![string_text(first), part]) + seq![CLOSE_BRACE]) == Some(
            ((first, value), seq![CLOSE_BRACE]),
        ),
        closes(seq![CLOSE_BRACE]),
{
    lemma_two_read_back(second, first, part, value, seq![CLOSE_BRACE]);
    lemma_tag_reads_back(tag, array_text(seq![string_text(first), part]));
}

/// The text of a fetch request spells it.
proof fn lemma_fetch_round_trip(remote: Seq<char>, refspecs: Option<Seq<Seq<char>>>)
    ensures
        request_in(request_text(GitRequestView::Fetch(remote, refspecs))) == Some(
            GitRequestView::Fetch(remote, refspecs),
        ),
{
    lemma_tags_differ();
    let end = seq![CLOSE_BRACKET] + seq![CLOSE_BRACE];
    let part = match refspecs {
        Some(list) => string_list_text(list),
        None => null_text(),
    };
    if refspecs is Some {
        lemma_string_list_reads_back(refspecs->0, end);
    } else {
        assert(null_text()[0] == 0x6e);
    }
    lemma_optional_string_list_reads_back(refspecs, end);
    lemma_tagged_two_read_back(optional_string_list_element(), TAG_FETCH@, remote, part, refspecs);
}

/// The text of a push request spells it.
proof fn lemma_push_round_trip(remote: Seq<char>, refspecs: Seq<Seq<char>>)
    ensures
        request_in(request_text(GitRequestView::Push(remote, refspecs))) == Some(
            GitRequestView::Push(remote, refspecs),
        ),
{
    lemma_tags_differ();
    lemma_string_list_reads_back(refspecs, seq![CLOSE_BRACKET] + seq![CLOSE_BRACE]);
    lemma_tagged_two_read_back(
        string_list_element(),
        TAG_PUSH@,
        remote,
        string_list_text(refspecs),
        refspecs,
    );
}

/// Decoding inverts encoding: the text of every request spells that request.
pub proof fn lemma_request_round_trip(request: GitRequestView)
    ensures
        request_in(request_text(request)) == Some(request),
{
    lemma_tags_differ();
    match request {
        GitRequestView::Clone(location) => lemma_tagged_string_reads_back(TAG_CLONE@, location),
        GitRequestView::LsRemote(remote) => lemma_tagged_string_reads_back(TAG_LS_REMOTE@, remote),
        GitRequestView::Status(location) => lemma_tagged_string_reads_back(TAG_STATUS@, location),
        GitRequestView::Fetch(remote, refspecs) => lemma_fetch_round_trip(remote, refspecs),
        GitRequestView::Push(remote, refspecs) => lemma_push_round_trip(remote, refspecs),
    }
}

/// Decoding inverts encoding: the text of every response spells that
/// response.
pub proof fn lemma_response_round_trip(response: GitResponseView)
    ensures
        response_in(response_text(response)) == Some(response),
{
    lemma_tags_differ();
    let close = seq![CLOSE_BRACE];
    match response {
        GitResponseView::Success(message) => lemma_tagged_string_reads_back(TAG_SUCCESS@, message),
        GitResponseView::Error(cause) => lemma_tagged_string_reads_back(TAG_ERROR@, cause),
        GitResponseView::Status(status) => lemma_tagged_string_reads_back(TAG_STATUS@, status),
        GitResponseView::LsRemote(refs) => {
            lemma_pair_list_reads_back(refs, close);
            lemma_tag_reads_back(TAG_LS_REMOTE@, pair_list_text(refs));
        },
        GitResponseView::Data(bytes) => {
            lemma_byte_list_reads_back(bytes, close);
            lemma_tag_reads_back(TAG_DATA@, byte_list_text(bytes));
        },
    }
}

/// Reading a request inverts writing it: a stream that starts with the frame
/// of a request whose text is within the ceiling yields that request, and the
/// reader takes the frame and nothing after it.
pub proof fn lemma_request_survives_the_wire(request: GitRequestView, rest: Seq<u8>)
    requires
        request_text(request).len() <= MAX_GIT_REQUEST_SIZE,
    ensures
        request_of_stream(frame(request_text(request)) + rest) == Ok::<
            GitRequestView,
            FrameError,
        >(request),
        frame_consumed(frame(request_text(request)) + rest, MAX_GIT_REQUEST_SIZE) == frame(
            request_text(request),
        ).len(),
{
    lemma_read_inverts_write(request_text(request), rest, MAX_GIT_REQUEST_SIZE);
    lemma_request_round_trip(request);
}

/// Reading a response inverts writing it: a stream that starts with the frame
/// of a response whose text is within the ceiling yields that response, and
/// the reader takes the frame and nothing after it.
pub proof fn lemma_response_survives_the_wire(response: GitResponseView, rest: Seq<u8>)
    requires
        response_text(response).len() <= MAX_GIT_RESPONSE_SIZE,
    ensures
        response_of_stream(frame(response_text(response)) + rest) == Ok::<
            GitResponseView,
            FrameError,
        >(response),
        frame_consumed(frame(response_text(response)) + rest, MAX_GIT_RESPONSE_SIZE) == frame(
            response_text(response),
        ).len(),
{
    lemma_read_inverts_write(response_text(response), rest, MAX_GIT_RESPONSE_SIZE);
    lemma_response_round_trip(response);
}

} // verus!
