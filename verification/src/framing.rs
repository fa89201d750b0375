//! Length-prefixed frames on a byte stream.
//!
//! A frame is the varint of the payload's length followed by the payload. A
//! reader takes the prefix one byte at a time, refuses a declared length over
//! its ceiling before it touches the body, and then takes exactly the declared
//! number of bytes. What a read yields is stated as a function of the bytes
//! that the stream delivers before it closes.

use crate::varint::{
    buffer_capacity, decode_usize, decoded, encode_usize, encoding, first_final, is_final_byte,
    lemma_decoded_encoding, lemma_encoding_fits, lemma_first_final, lemma_first_final_is,
    lemma_first_final_take, lemma_prefix_value_fits, max_encoded_len, prefix_value, Decoded,
};
use vstd::arithmetic::div_mod::lemma_small_mod;
use vstd::prelude::*;
use vstd::slice::{slice_subrange, slice_to_vec};

verus! {

/// Why a frame could not be read.
#[derive(Debug, Clone, Copy, PartialEq, Eq, Structural)]
pub enum FrameError {
    /// The declared length is over the reader's ceiling. No byte of the body
    /// was taken.
    TooLarge { declared: usize, limit: usize },
    /// The bytes are not well formed: a length prefix that no `usize` holds,
    /// or a payload that spells no message.
    Malformed,
    /// The stream closed inside a frame.
    UnexpectedEof,
}

/// What a reader of a length prefix does next, the stream being still open.
#[derive(Debug, Clone, Copy, PartialEq, Eq, Structural)]
pub enum PrefixProgress {
    /// The prefix is not complete: take one more byte.
    NeedByte,
    /// The prefix is complete and declares this length.
    Length(usize),
    /// The prefix cannot be completed.
    Failed(FrameError),
}

/// The length that a stream declares, when the stream delivers exactly `s` and
/// then closes. A stream that delivers nothing declares the length zero. A
/// prefix that spells more than a `usize` holds is malformed, and so is one
/// that does not end within `max_encoded_len()` bytes.
pub open spec fn length_of_stream(s: Seq<u8>) -> Result<usize, FrameError> {
    if s.len() == 0 {
        Ok(0usize)
    } else {
        match decoded(s) {
            Decoded::Value(_) => if prefix_value(s) > usize::MAX {
                Err(FrameError::Malformed)
            } else {
                Ok(prefix_value(s) as usize)
            },
            _ => if s.len() >= max_encoded_len() {
                Err(FrameError::Malformed)
            } else {
                Err(FrameError::UnexpectedEof)
            },
        }
    }
}

/// How many bytes of `s` a reader of the length prefix takes.
pub open spec fn length_consumed(s: Seq<u8>) -> nat {
    if s.len() == 0 {
        0
    } else {
        match decoded(s) {
            Decoded::Value(_) => (first_final(s) + 1) as nat,
            _ => if s.len() >= max_encoded_len() {
                max_encoded_len()
            } else {
                s.len()
            },
        }
    }
}

/// What the prefix reader does after the bytes `received`, the stream being
/// still open.
///
/// A complete prefix declares the number it spells, unless no `usize` holds
/// that number. After a needless zero group the reader goes on, as long as
/// the prefix may grow.
pub open spec fn prefix_progress_spec(received: Seq<u8>) -> PrefixProgress {
    match decoded(received) {
        Decoded::Value(_) => if prefix_value(received) > usize::MAX {
            PrefixProgress::Failed(FrameError::Malformed)
        } else {
            PrefixProgress::Length(prefix_value(received) as usize)
        },
        Decoded::Overflow => PrefixProgress::Failed(FrameError::Malformed),
        Decoded::Insufficient => PrefixProgress::NeedByte,
        Decoded::NotMinimal => if received.len() >= max_encoded_len() {
            PrefixProgress::Failed(FrameError::Malformed)
        } else {
            PrefixProgress::NeedByte
        },
    }
}

/// The payload that a stream yields under the ceiling `max_size`, when the
/// stream delivers exactly `s` and then closes.
pub open spec fn frame_of_stream(s: Seq<u8>, max_size: usize) -> Result<Seq<u8>, FrameError> {
    match length_of_stream(s) {
        Err(e) => Err(e),
        Ok(n) => {
            let body = s.skip(length_consumed(s) as int);
            if n > max_size {
                Err(FrameError::TooLarge { declared: n, limit: max_size })
            } else if body.len() < n {
                Err(FrameError::UnexpectedEof)
            } else {
                Ok(body.take(n as int))
            }
        },
    }
}

/// How many bytes of `s` a frame reader under the ceiling `max_size` takes.
pub open spec fn frame_consumed(s: Seq<u8>, max_size: usize) -> nat {
    match length_of_stream(s) {
        Err(_) => length_consumed(s),
        Ok(n) => if n > max_size {
            length_consumed(s)
        } else if s.len() - length_consumed(s) < n {
            s.len()
        } else {
            length_consumed(s) + n as nat
        },
    }
}

/// The frame that carries `payload`.
pub open spec fn frame(payload: Seq<u8>) -> Seq<u8> {
    encoding(payload.len()) + payload
}

/// An in-memory byte stream that is read from the front and closes when its
/// bytes are used up. Its view is what is still to come.
pub struct ByteStream {
    data: Vec<u8>,
    pos: usize,
}

impl View for ByteStream {
    type V = Seq<u8>;

    closed spec fn view(&self) -> Seq<u8> {
        if self.pos <= self.data.len() {
            self.data@.skip(self.pos as int)
        } else {
            Seq::empty()
        }
    }
}

impl ByteStream {
    /// A stream that delivers `data` and then closes.
    pub fn new(data: Vec<u8>) -> (s: Self)
        ensures
            s@ == data@,
    {
        let s = ByteStream { data, pos: 0 };
        s
    }

    /// How many bytes are still to come.
    pub fn remaining(&self) -> (n: usize)
        ensures
            n == self@.len(),
    {
        if self.pos <= self.data.len() {
            self.data.len() - self.pos
        } else {
            0
        }
    }

    /// Takes the next byte, or nothing when the stream has closed.
    pub fn read_byte(&mut self) -> (b: Option<u8>)
        ensures
            old(self)@.len() == 0 ==> b is None && final(self)@ == old(self)@,
            old(self)@.len() > 0 ==> b == Some(old(self)@[0]) && final(self)@ == old(self)@.skip(1),
    {
        if self.pos < self.data.len() {
            let b = self.data[self.pos];
            self.pos = self.pos + 1;
            Some(b)
        } else {
            None
        }
    }

    /// Takes exactly `len` bytes. Where fewer are left, takes them all and
    /// returns nothing.
    pub fn read_exact(&mut self, len: usize) -> (r: Option<Vec<u8>>)
        ensures
            len <= old(self)@.len() ==> r is Some && r->0@ == old(self)@.take(len as int)
                && final(self)@ == old(self)@.skip(len as int),
            len > old(self)@.len() ==> r is None && final(self)@.len() == 0,
    {
        if self.pos > self.data.len() {
            self.pos = self.data.len();
        }
        if len <= self.data.len() - self.pos {
            let end = self.pos + len;
            let out = slice_to_vec(slice_subrange(self.data.as_slice(), self.pos, end));
            self.pos = end;
            Some(out)
        } else {
            self.pos = self.data.len();
            None
        }
    }
}

/// The index of the first byte without a continuation bit, or the length of
/// the buffer when every byte has one.
fn final_index(buf: &[u8]) -> (j: usize)
    ensures
        j == first_final(buf@),
{
    let mut i: usize = 0;
    while i < buf.len() && buf[i] >= 0x80
        invariant
            i <= buf@.len(),
            forall|k: int| 0 <= k < i ==> !is_final_byte(#[trigger] buf@[k]),
        decreases buf@.len() - i,
    {
        i = i + 1;
    }
    proof {
        lemma_first_final_is(buf@, i as int);
    }
    i
}

/// What a reader that holds the bytes `received` of a length prefix does
/// next, the stream being still open.
pub fn prefix_progress(received: &[u8]) -> (p: PrefixProgress)
    ensures
        p == prefix_progress_spec(received@),
{
    let capacity = buffer_capacity();
    match decode_usize(received) {
        Decoded::Value(n) => {
            let last = final_index(received);
            let most: u8 = if capacity == 10 {
                0x01
            } else {
                0x0f
            };
            proof {
                lemma_prefix_value_fits(received@);
                if prefix_value(received@) <= usize::MAX {
                    lemma_small_mod(prefix_value(received@), usize::MAX as nat + 1);
                }
            }
            if last + 1 == capacity && received[last] > most {
                PrefixProgress::Failed(FrameError::Malformed)
            } else {
                PrefixProgress::Length(n)
            }
        },
        Decoded::Overflow => PrefixProgress::Failed(FrameError::Malformed),
        Decoded::Insufficient => PrefixProgress::NeedByte,
        Decoded::NotMinimal => {
            if received.len() >= capacity {
                PrefixProgress::Failed(FrameError::Malformed)
            } else {
                PrefixProgress::NeedByte
            }
        },
    }
}

/// The length declared by a stream that closed after the bytes `received`.
pub fn prefix_at_close(received: &[u8]) -> (r: Result<usize, FrameError>)
    ensures
        r == length_of_stream(received@),
{
    if received.len() == 0 {
        Ok(0)
    } else {
        match prefix_progress(received) {
            PrefixProgress::Length(n) => Ok(n),
            PrefixProgress::Failed(e) => Err(e),
            PrefixProgress::NeedByte => Err(FrameError::UnexpectedEof),
        }
    }
}

/// The ceiling rule: a declared length over `max_size` is refused.
pub fn check_declared_length(declared: usize, max_size: usize) -> (r: Result<(), FrameError>)
    ensures
        declared <= max_size ==> r is Ok,
        declared > max_size ==> r == Err::<(), FrameError>(
            FrameError::TooLarge { declared, limit: max_size },
        ),
{
    if declared > max_size {
        Err(FrameError::TooLarge { declared, limit: max_size })
    } else {
        Ok(())
    }
}

/// What decoding a cut of a buffer says of the whole buffer, and back.
pub proof fn lemma_decoded_take(s: Seq<u8>, m: int)
    requires
        0 <= m <= s.len(),
    ensures
        decoded(s.take(m)) is Value ==> decoded(s) == decoded(s.take(m)) && first_final(s) < m,
        first_final(s) < m ==> prefix_value(s.take(m)) == prefix_value(s),
        decoded(s.take(m)) is Overflow ==> decoded(s) is Overflow,
        decoded(s) is Value && first_final(s) < m ==> decoded(s.take(m)) == decoded(s),
{
    let cut = s.take(m);
    let j = first_final(s);
    lemma_first_final(s);
    lemma_first_final_take(s, m);
    if j < m {
        assert(cut.take(j + 1) =~= s.take(j + 1));
    }
}

/// Reads a length prefix from the stream, one byte at a time.
///
/// A stream that closes before its first byte declares the length zero. A
/// stream that closes inside the prefix fails with `UnexpectedEof`, a prefix
/// that no `usize` holds with `Malformed`. No byte after the prefix is taken.
pub fn read_varint(socket: &mut ByteStream) -> (r: Result<usize, FrameError>)
    ensures
        r == length_of_stream(old(socket)@),
        final(socket)@ == old(socket)@.skip(length_consumed(old(socket)@) as int),
{
    let ghost s = socket@;
    let mut received: Vec<u8> = Vec::new();
    loop
        invariant
            s == old(socket)@,
            received.len() <= s.len(),
            received@ == s.take(received.len() as int),
            socket@ == s.skip(received.len() as int),
            prefix_progress_spec(received@) is NeedByte,
        decreases s.len() - received.len(),
    {
        let ghost m0 = received.len() as int;
        match socket.read_byte() {
            None => {
                assert(s.take(m0) =~= s);
                return prefix_at_close(received.as_slice());
            },
            Some(b) => {
                received.push(b);
                let ghost m = m0 + 1;
                assert(received@ =~= s.take(m));
                proof {
                    lemma_decoded_take(s, m);
                    lemma_decoded_take(s, m0);
                }
                match prefix_progress(received.as_slice()) {
                    PrefixProgress::NeedByte => {},
                    PrefixProgress::Length(n) => {
                        return Ok(n);
                    },
                    PrefixProgress::Failed(e) => {
                        return Err(e);
                    },
                }
            },
        }
    }
}

/// Reads one frame from the stream under the ceiling `max_size`.
///
/// A declared length over the ceiling fails with `TooLarge` before any byte of
/// the body is taken. A stream that closes before the body is complete fails
/// with `UnexpectedEof`. A stream that closes before its first byte yields an
/// empty payload.
pub fn read_length_prefixed(socket: &mut ByteStream, max_size: usize) -> (r: Result<
    Vec<u8>,
    FrameError,
>)
    ensures
        match frame_of_stream(old(socket)@, max_size) {
            Ok(payload) => r is Ok && r->Ok_0@ == payload,
            Err(e) => r == Err::<Vec<u8>, FrameError>(e),
        },
        final(socket)@ == old(socket)@.skip(frame_consumed(old(socket)@, max_size) as int),
{
    let ghost s = socket@;
    let len = match read_varint(socket) {
        Ok(len) => len,
        Err(e) => {
            return Err(e);
        },
    };
    proof {
        lemma_length_consumed_bound(s);
    }
    match check_declared_length(len, max_size) {
        Ok(()) => {},
        Err(e) => {
            return Err(e);
        },
    }
    match socket.read_exact(len) {
        Some(buf) => Ok(buf),
        None => Err(FrameError::UnexpectedEof),
    }
}

/// The prefix reader never takes more than the stream holds.
pub proof fn lemma_length_consumed_bound(s: Seq<u8>)
    ensures
        length_consumed(s) <= s.len(),
{
    lemma_first_final(s);
}

/// Appends the varint of `len` to the outgoing bytes.
pub fn write_varint(socket: &mut Vec<u8>, len: usize)
    ensures
        final(socket)@ == old(socket)@ + encoding(len as nat),
{
    let mut encoded = encode_usize(len);
    socket.append(&mut encoded);
}

/// Appends the frame of `data` to the outgoing bytes: the varint of its
/// length, then `data` itself.
pub fn write_length_prefixed(socket: &mut Vec<u8>, data: &[u8])
    ensures
        final(socket)@ == old(socket)@ + frame(data@),
{
    write_varint(socket, data.len());
    let mut body = slice_to_vec(data);
    socket.append(&mut body);
}

/// Reading inverts writing: a stream that starts with the frame of `payload`
/// yields `payload` under every ceiling that admits its length, and the reader
/// takes the frame and nothing after it.
pub proof fn lemma_read_inverts_write(payload: Seq<u8>, rest: Seq<u8>, max_size: usize)
    requires
        payload.len() <= max_size,
    ensures
        frame_of_stream(frame(payload) + rest, max_size) == Ok::<Seq<u8>, FrameError>(payload),
        frame_consumed(frame(payload) + rest, max_size) == frame(payload).len(),
{
    let n = payload.len() as usize;
    let prefix = encoding(n as nat);
    let s = frame(payload) + rest;
    lemma_encoding_fits(n);
    lemma_decoded_encoding(n, payload + rest);
    assert(s =~= prefix + (payload + rest));
    let body = s.skip(prefix.len() as int);
    assert(body.take(n as int) =~= payload);
}

/// The ceiling is exact. A stream that declares one byte more than
/// `max_size` is refused with `TooLarge` after its prefix alone, whatever
/// follows; a stream that declares `max_size` and delivers that many bytes
/// yields them.
pub proof fn lemma_ceiling_is_exact(max_size: usize, body: Seq<u8>, rest: Seq<u8>)
    requires
        max_size < usize::MAX,
        body.len() == max_size,
    ensures
        frame_of_stream(encoding((max_size + 1) as nat) + rest, max_size) == Err::<
            Seq<u8>,
            FrameError,
        >(FrameError::TooLarge { declared: (max_size + 1) as usize, limit: max_size }),
        frame_consumed(encoding((max_size + 1) as nat) + rest, max_size) == encoding(
            (max_size + 1) as nat,
        ).len(),
        frame_of_stream(encoding(max_size as nat) + body + rest, max_size) == Ok::<
            Seq<u8>,
            FrameError,
        >(body),
{
    let over = (max_size + 1) as usize;
    lemma_encoding_fits(over);
    lemma_decoded_encoding(over, rest);
    lemma_read_inverts_write(body, rest, max_size);
}

/// Overflow is malformed data, not an oversized frame: a complete prefix that
/// spells more than a `usize` holds fails with `Malformed` under every
/// ceiling, and the reader takes the prefix and nothing after it.
pub proof fn lemma_overflow_is_malformed(s: Seq<u8>, max_size: usize)
    requires
        first_final(s) < s.len(),
        first_final(s) < max_encoded_len(),
        prefix_value(s) > usize::MAX,
    ensures
        frame_of_stream(s, max_size) == Err::<Seq<u8>, FrameError>(FrameError::Malformed),
        frame_consumed(s, max_size) == first_final(s) + 1,
{
    lemma_first_final(s);
    lemma_prefix_value_fits(s);
}

/// How a stream may end. A stream that closes before its first byte yields an
/// empty payload and no error. A stream that closes after a prefix within the
/// ceiling, with less than the declared body delivered, fails with
/// `UnexpectedEof`.
pub proof fn lemma_closed_stream(declared: usize, partial: Seq<u8>, max_size: usize)
    requires
        declared <= max_size,
        partial.len() < declared,
    ensures
        frame_of_stream(Seq::<u8>::empty(), max_size) == Ok::<Seq<u8>, FrameError>(
            Seq::<u8>::empty(),
        ),
        frame_consumed(Seq::<u8>::empty(), max_size) == 0,
        frame_of_stream(encoding(declared as nat) + partial, max_size) == Err::<
            Seq<u8>,
            FrameError,
        >(FrameError::UnexpectedEof),
{
    let none = Seq::<u8>::empty();
    assert(none.skip(0).take(0) =~= none);
    lemma_encoding_fits(declared);
    lemma_decoded_encoding(declared, partial);
}

} // verus!
