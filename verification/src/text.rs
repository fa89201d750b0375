//! Text as it travels: UTF-8 bytes to `String` and back.

use vstd::prelude::*;
use vstd::utf8::{encode_utf8, valid_utf8};

verus! {

broadcast use vstd::utf8::encode_utf8_decode_utf8;

/// `String::from_utf8`.
///
/// Trusted: the call succeeds exactly on well-formed UTF-8, and the string it
/// returns holds the bytes it was given.
#[verifier::external_body]
pub(crate) fn string_from_utf8(bytes: Vec<u8>) -> (r: Option<String>)
    ensures
        r is Some <==> valid_utf8(bytes@),
        r is Some ==> encode_utf8(r->0@) == bytes@,
{
    match String::from_utf8(bytes) {
        Ok(s) => Some(s),
        Err(_) => None,
    }
}

/// Two texts with the same UTF-8 bytes are the same text.
pub proof fn lemma_utf8_is_injective(a: Seq<char>, b: Seq<char>)
    requires
        encode_utf8(a) == encode_utf8(b),
    ensures
        a == b,
{
    assert(vstd::utf8::decode_utf8(encode_utf8(a)) == a);
}

/// Whether two texts are the same.
pub fn same_text(a: &str, b: &str) -> (same: bool)
    ensures
        same == (a@ == b@),
{
    let same = crate::membership::bytes_equal(a.as_bytes(), b.as_bytes());
    proof {
        if same {
            lemma_utf8_is_injective(a@, b@);
        }
    }
    same
}

} // verus!
