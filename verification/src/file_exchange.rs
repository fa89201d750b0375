//! The file exchange: a request is a content identifier as one frame, a
//! response the content as one frame, both as they are.
//!
//! An empty frame is no message. It is what a reader gets from a peer that
//! closed its stream without a word, so a reader reports it as an end of
//! stream, and a peer that cannot serve a request answers with it.

use crate::framing::FrameError;
use crate::message::{FileRequest, FileResponse};
use crate::text::string_from_utf8;
use vstd::prelude::*;
use vstd::slice::slice_to_vec;
use vstd::utf8::{decode_utf8, encode_utf8, valid_utf8};

verus! {

broadcast use vstd::utf8::encode_utf8_decode_utf8;

/// The content identifier that the payload of a request frame spells.
pub open spec fn file_request_in(bytes: Seq<u8>) -> Result<Seq<char>, FrameError> {
    if bytes.len() == 0 {
        Err(FrameError::UnexpectedEof)
    } else if valid_utf8(bytes) {
        Ok(decode_utf8(bytes))
    } else {
        Err(FrameError::Malformed)
    }
}

/// The content that the payload of a response frame holds.
pub open spec fn file_response_in(bytes: Seq<u8>) -> Result<Seq<u8>, FrameError> {
    if bytes.len() == 0 {
        Err(FrameError::UnexpectedEof)
    } else {
        Ok(bytes)
    }
}

/// The payload of the frame of `request`: the identifier as UTF-8.
pub fn encode_file_request(request: &FileRequest) -> (out: Vec<u8>)
    ensures
        out@ == encode_utf8(request.file_id@),
{
    slice_to_vec(request.file_id.as_str().as_bytes())
}

/// The payload of the frame of `response`: the content.
pub fn encode_file_response(response: &FileResponse) -> (out: Vec<u8>)
    ensures
        out@ == response.file_body@,
{
    slice_to_vec(response.file_body.as_slice())
}

/// The request that the payload of a frame spells. An empty payload is an
/// end of stream, one that is not text is malformed.
pub fn decode_file_request(bytes: Vec<u8>) -> (r: Result<FileRequest, FrameError>)
    ensures
        match file_request_in(bytes@) {
            Ok(file_id) => r is Ok && r->Ok_0.file_id@ == file_id,
            Err(e) => r == Err::<FileRequest, FrameError>(e),
        },
{
    if bytes.len() == 0 {
        return Err(FrameError::UnexpectedEof);
    }
    match string_from_utf8(bytes) {
        Some(file_id) => Ok(FileRequest { file_id }),
        None => Err(FrameError::Malformed),
    }
}

/// The response that the payload of a frame holds. An empty payload is an
/// end of stream.
pub fn decode_file_response(bytes: Vec<u8>) -> (r: Result<FileResponse, FrameError>)
    ensures
        match file_response_in(bytes@) {
            Ok(file_body) => r is Ok && r->Ok_0.file_body@ == file_body,
            Err(e) => r == Err::<FileResponse, FrameError>(e),
        },
{
    if bytes.len() == 0 {
        Err(FrameError::UnexpectedEof)
    } else {
        Ok(FileResponse { file_body: bytes })
    }
}

/// Decoding inverts encoding for every identifier and every content but the
/// empty ones, which no frame can carry.
pub proof fn lemma_file_round_trip(file_id: Seq<char>, file_body: Seq<u8>)
    ensures
        file_id.len() > 0 ==> file_request_in(encode_utf8(file_id)) == Ok::<
            Seq<char>,
            FrameError,
        >(file_id),
        file_body.len() > 0 ==> file_response_in(file_body) == Ok::<Seq<u8>, FrameError>(
            file_body,
        ),
        file_request_in(encode_utf8(Seq::<char>::empty())) is Err,
        file_response_in(Seq::<u8>::empty()) is Err,
{
    vstd::utf8::encode_utf8_valid_utf8(file_id);
    assert(decode_utf8(encode_utf8(file_id)) == file_id);
    assert(decode_utf8(Seq::<u8>::empty()) == Seq::<char>::empty());
    assert(encode_utf8(Seq::<char>::empty()) == Seq::<u8>::empty());
}

} // verus!
