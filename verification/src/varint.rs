//! Unsigned variable-length integers: the length prefix of every frame.
//!
//! A number is written in 7-bit groups, least significant group first. Every
//! byte but the last carries the continuation bit `0x80`. Encoding and decoding
//! are done by the `unsigned-varint` crate; this module states what those calls
//! return and proves what the framing layer needs from them.

use vstd::prelude::*;

verus! {

/// Whether `b` ends a varint: its continuation bit is clear.
pub open spec fn is_final_byte(b: u8) -> bool {
    b < 0x80
}

/// The number spelled by the low seven bits of each byte, least significant
/// group first.
pub open spec fn groups_value(bytes: Seq<u8>) -> nat
    decreases bytes.len(),
{
    if bytes.len() == 0 {
        0
    } else {
        (bytes[0] % 0x80) as nat + 0x80 * groups_value(bytes.skip(1))
    }
}

/// The index of the first byte without a continuation bit, or `bytes.len()`
/// when every byte has one.
pub open spec fn first_final(bytes: Seq<u8>) -> int
    decreases bytes.len(),
{
    if bytes.len() == 0 {
        0
    } else if is_final_byte(bytes[0]) {
        0
    } else {
        1 + first_final(bytes.skip(1))
    }
}

/// The shortest varint of `n`.
pub open spec fn encoding(n: nat) -> Seq<u8>
    decreases n,
{
    if n < 0x80 {
        seq![n as u8]
    } else {
        seq![(n % 0x80 + 0x80) as u8] + encoding(n / 0x80)
    }
}

/// The longest varint that is read for a `usize`: ten bytes where `usize` has
/// 64 bits, five where it has 32.
pub open spec fn max_encoded_len() -> nat {
    if usize::MAX == 0xffff_ffff {
        5
    } else {
        10
    }
}

/// The longest varint of a `usize` ends in a group of one bit where `usize`
/// has 64 bits, and of four bits where it has 32: this is the largest such
/// group.
pub open spec fn max_final_group() -> u8 {
    if usize::MAX == 0xffff_ffff {
        0x0f
    } else {
        0x01
    }
}

/// The number that the varint at the start of `buf` spells, in full: the
/// groups up to the first byte without a continuation bit.
pub open spec fn prefix_value(buf: Seq<u8>) -> nat {
    groups_value(buf.take(first_final(buf) + 1))
}

/// What decoding a buffer yields.
pub enum Decoded {
    /// The buffer starts with a complete varint. The value is what the
    /// decoder makes of it: the number spelled, cut to the width of `usize`.
    Value(usize),
    /// More continuation bytes than a `usize` may take.
    Overflow,
    /// The buffer ends before the varint does.
    Insufficient,
    /// The varint ends in a needless zero group.
    NotMinimal,
}

/// The outcome of decoding `buf`.
///
/// With `j` the index of the first byte without a continuation bit: a value
/// comes out when `j` lies in the buffer and within `max_encoded_len()`, unless
/// that byte is a zero after the first position. The value is the groups up to
/// `j`, cut to the width of `usize`. Without such a `j`, a buffer of
/// `max_encoded_len()` bytes or more overflows, a shorter one is insufficient.
pub open spec fn decoded(buf: Seq<u8>) -> Decoded {
    let j = first_final(buf);
    if j < buf.len() && j < max_encoded_len() {
        if j > 0 && buf[j] == 0 {
            Decoded::NotMinimal
        } else {
            Decoded::Value((prefix_value(buf) % (usize::MAX as nat + 1)) as usize)
        }
    } else if buf.len() >= max_encoded_len() {
        Decoded::Overflow
    } else {
        Decoded::Insufficient
    }
}

/// `first_final` stays within the buffer; every byte before it continues, and
/// the byte at it, if there is one, does not.
pub proof fn lemma_first_final(bytes: Seq<u8>)
    ensures
        0 <= first_final(bytes) <= bytes.len(),
        forall|i: int| 0 <= i < first_final(bytes) ==> !is_final_byte(#[trigger] bytes[i]),
        first_final(bytes) < bytes.len() ==> is_final_byte(bytes[first_final(bytes)]),
    decreases bytes.len(),
{
    if bytes.len() > 0 && !is_final_byte(bytes[0]) {
        let tail = bytes.skip(1);
        lemma_first_final(tail);
        assert forall|i: int| 0 <= i < first_final(bytes) implies !is_final_byte(
            #[trigger] bytes[i],
        ) by {
            if i > 0 {
                assert(bytes[i] == tail[i - 1]);
            }
        }
    }
}

/// An index with only continuation bytes before it, and none at it, is
/// `first_final`.
pub proof fn lemma_first_final_is(bytes: Seq<u8>, k: int)
    requires
        0 <= k <= bytes.len(),
        forall|i: int| 0 <= i < k ==> !is_final_byte(#[trigger] bytes[i]),
        k < bytes.len() ==> is_final_byte(bytes[k]),
    ensures
        first_final(bytes) == k,
    decreases bytes.len(),
{
    if bytes.len() > 0 && !is_final_byte(bytes[0]) {
        let tail = bytes.skip(1);
        assert forall|i: int| 0 <= i < k - 1 implies !is_final_byte(#[trigger] tail[i]) by {}
        lemma_first_final_is(tail, k - 1);
    }
}

/// Cutting a buffer short moves `first_final` to the cut at most.
pub proof fn lemma_first_final_take(bytes: Seq<u8>, m: int)
    requires
        0 <= m <= bytes.len(),
    ensures
        first_final(bytes.take(m)) == if first_final(bytes) < m {
            first_final(bytes)
        } else {
            m
        },
{
    lemma_first_final(bytes);
    let k = if first_final(bytes) < m {
        first_final(bytes)
    } else {
        m
    };
    let cut = bytes.take(m);
    assert forall|i: int| 0 <= i < k implies !is_final_byte(#[trigger] cut[i]) by {}
    lemma_first_final_is(cut, k);
}

/// The value of a group followed by more groups.
pub proof fn lemma_groups_value_cons(first: u8, rest: Seq<u8>)
    ensures
        groups_value(seq![first] + rest) == (first % 0x80) as nat + 0x80 * groups_value(rest),
{
    let all = seq![first] + rest;
    assert(all.skip(1) =~= rest);
}

/// The shape of the shortest varint: one byte at least, a continuation bit on
/// every byte but the last, and no zero at the end unless the number is zero.
pub proof fn lemma_encoding_shape(n: nat)
    ensures
        encoding(n).len() >= 1,
        forall|i: int| 0 <= i < encoding(n).len() - 1 ==> !is_final_byte(#[trigger] encoding(n)[i]),
        is_final_byte(encoding(n).last()),
        n > 0 ==> encoding(n).last() != 0,
        n < 0x80 <==> encoding(n).len() == 1,
    decreases n,
{
    if n >= 0x80 {
        let rest = encoding(n / 0x80);
        let first = (n % 0x80 + 0x80) as u8;
        lemma_encoding_shape(n / 0x80);
        let all = seq![first] + rest;
        assert forall|i: int| 0 <= i < all.len() - 1 implies !is_final_byte(#[trigger] all[i]) by {}
    }
}

/// The groups of the shortest varint of `n` spell `n`.
pub proof fn lemma_encoding_value(n: nat)
    ensures
        groups_value(encoding(n)) == n,
    decreases n,
{
    if n < 0x80 {
        lemma_groups_value_cons(n as u8, Seq::empty());
    } else {
        let first = (n % 0x80 + 0x80) as u8;
        lemma_encoding_value(n / 0x80);
        lemma_groups_value_cons(first, encoding(n / 0x80));
    }
}

/// `0x80` to the power `k`.
pub open spec fn group_limit(k: nat) -> nat
    decreases k,
{
    if k == 0 {
        1
    } else {
        0x80 * group_limit((k - 1) as nat)
    }
}

/// A number below `0x80` to the `k` takes `k` bytes at most.
pub proof fn lemma_encoding_len(n: nat, k: nat)
    requires
        k >= 1,
        n < group_limit(k),
    ensures
        encoding(n).len() <= k,
    decreases k,
{
    reveal_with_fuel(group_limit, 2);
    if n >= 0x80 {
        lemma_encoding_len(n / 0x80, (k - 1) as nat);
    }
}

/// Every `usize` has a varint within `max_encoded_len()`.
pub proof fn lemma_encoding_fits(n: usize)
    ensures
        1 <= encoding(n as nat).len() <= max_encoded_len(),
{
    lemma_encoding_shape(n as nat);
    reveal_with_fuel(group_limit, 11);
    if usize::MAX == 0xffff_ffff {
        lemma_encoding_len(n as nat, 5);
    } else {
        lemma_encoding_len(n as nat, 10);
    }
}

/// Decoding inverts encoding: a buffer that starts with the shortest varint of
/// `n` decodes to `n`, whatever follows.
pub proof fn lemma_decoded_encoding(n: usize, rest: Seq<u8>)
    ensures
        decoded(encoding(n as nat) + rest) == Decoded::Value(n),
        first_final(encoding(n as nat) + rest) == encoding(n as nat).len() - 1,
        prefix_value(encoding(n as nat) + rest) == n,
{
    let enc = encoding(n as nat);
    let buf = enc + rest;
    let j = enc.len() - 1;
    lemma_encoding_shape(n as nat);
    lemma_encoding_fits(n);
    lemma_encoding_value(n as nat);
    assert forall|i: int| 0 <= i < j implies !is_final_byte(#[trigger] buf[i]) by {}
    lemma_first_final_is(buf, j);
    assert(buf.take(j + 1) =~= enc);
    vstd::arithmetic::div_mod::lemma_small_mod(n as nat, usize::MAX as nat + 1);
}

/// The groups of a buffer spell less than `0x80` to the power of its length.
pub proof fn lemma_groups_value_bound(bytes: Seq<u8>)
    ensures
        groups_value(bytes) < group_limit(bytes.len()),
    decreases bytes.len(),
{
    if bytes.len() > 0 {
        lemma_groups_value_bound(bytes.skip(1));
        assert(group_limit(bytes.len()) == 0x80 * group_limit(bytes.skip(1).len()));
    }
}

/// One group more at the end adds that group, shifted past the others.
pub proof fn lemma_groups_value_push(bytes: Seq<u8>, last: u8)
    ensures
        groups_value(bytes.push(last)) == groups_value(bytes) + (last % 0x80) * group_limit(
            bytes.len(),
        ),
    decreases bytes.len(),
{
    let more = bytes.push(last);
    let group = (last % 0x80) as nat;
    if bytes.len() == 0 {
        assert(more.skip(1) =~= Seq::<u8>::empty());
        assert(groups_value(more.skip(1)) == 0);
        assert(groups_value(more) == group);
        assert(group_limit(0) == 1);
    } else {
        let tail = bytes.skip(1);
        assert(more.skip(1) =~= tail.push(last));
        lemma_groups_value_push(tail, last);
        let unit = group_limit(tail.len());
        assert(group_limit(bytes.len()) == 0x80 * unit);
        assert(group * (0x80 * unit) == 0x80 * (group * unit)) by (nonlinear_arith);
        assert(groups_value(more) == (bytes[0] % 0x80) + 0x80 * (groups_value(tail) + group
            * unit));
    }
}

/// More groups have a higher limit.
pub proof fn lemma_group_limit_grows(k: nat, m: nat)
    requires
        k <= m,
    ensures
        group_limit(k) <= group_limit(m),
        group_limit(k) >= 1,
    decreases m,
{
    if k < m {
        lemma_group_limit_grows(k, (m - 1) as nat);
    } else if k > 0 {
        lemma_group_limit_grows((k - 1) as nat, (k - 1) as nat);
    }
}

/// When a complete varint spells more than a `usize` holds: exactly when it
/// has the greatest length and its last group is over `max_final_group()`.
pub proof fn lemma_prefix_value_fits(buf: Seq<u8>)
    requires
        first_final(buf) < buf.len(),
        first_final(buf) < max_encoded_len(),
    ensures
        prefix_value(buf) > usize::MAX <==> first_final(buf) + 1 == max_encoded_len()
            && buf[first_final(buf)] > max_final_group(),
{
    let j = first_final(buf);
    lemma_first_final(buf);
    let low = buf.take(j);
    let last = buf[j] as nat;
    let unit = group_limit(j as nat);
    assert(buf.take(j + 1) =~= low.push(buf[j]));
    lemma_groups_value_push(low, buf[j]);
    lemma_groups_value_bound(low);
    assert(last == buf[j] % 0x80);
    assert(prefix_value(buf) == groups_value(low) + last * unit);
    assert(groups_value(low) < unit);
    let top = (max_encoded_len() - 1) as nat;
    reveal_with_fuel(group_limit, 11);
    assert(usize::MAX == 0xffff_ffff || usize::MAX == 0xffff_ffff_ffff_ffff);
    if j < top {
        lemma_group_limit_grows((j + 1) as nat, top);
        assert(group_limit((j + 1) as nat) == 0x80 * unit);
        assert(last * unit <= 0x7f * unit) by (nonlinear_arith)
            requires
                last <= 0x7f,
                unit >= 0,
        ;
        assert(prefix_value(buf) < group_limit(top));
    } else {
        let most = max_final_group() as nat;
        if usize::MAX == 0xffff_ffff {
            assert(unit == group_limit(4));
            assert(group_limit(4) == 0x1000_0000);
        } else {
            assert(unit == group_limit(9));
            assert(group_limit(9) == 0x8000_0000_0000_0000);
        }
        assert(usize::MAX == (most + 1) * unit - 1);
        if last > most {
            assert(last * unit >= (most + 1) * unit) by (nonlinear_arith)
                requires
                    last >= most + 1,
                    unit >= 0,
            ;
        } else {
            assert(last * unit <= most * unit) by (nonlinear_arith)
                requires
                    last <= most,
                    unit >= 0,
            ;
        }
    }
}

/// `unsigned_varint::encode::usize`, on a buffer from
/// `unsigned_varint::encode::usize_buffer`.
///
/// Trusted: the bytes returned are the shortest varint of `n`, that is the
/// 7-bit groups of `n` from the least significant on, each but the last with
/// the continuation bit set.
#[verifier::external_body]
pub(crate) fn encode_usize(n: usize) -> (out: Vec<u8>)
    ensures
        out@ == encoding(n as nat),
{
    let mut buf = unsigned_varint::encode::usize_buffer();
    unsigned_varint::encode::usize(n, &mut buf).to_vec()
}

/// `unsigned_varint::decode::usize`.
///
/// Trusted: the call walks `buf` to the first byte without a continuation
/// bit. There it returns the value of the groups read, shifted into a `usize`
/// (bits beyond its width are lost), or the error `NotMinimal` when that byte
/// is a zero after the first position. A continuation bit on the last byte
/// that a `usize` may take is the error `Overflow`; a buffer that ends before
/// that is the error `Insufficient`. The error type is open to more variants;
/// this version of the crate has these three.
#[verifier::external_body]
pub(crate) fn decode_usize(buf: &[u8]) -> (r: Decoded)
    ensures
        r == decoded(buf@),
{
    match unsigned_varint::decode::usize(buf) {
        Ok((n, _)) => Decoded::Value(n),
        Err(unsigned_varint::decode::Error::Insufficient) => Decoded::Insufficient,
        Err(unsigned_varint::decode::Error::NotMinimal) => Decoded::NotMinimal,
        Err(_) => Decoded::Overflow,
    }
}

/// `unsigned_varint::encode::usize_buffer`.
///
/// Trusted: the buffer that holds any encoded `usize` has
/// `max_encoded_len()` bytes.
#[verifier::external_body]
pub(crate) fn buffer_capacity() -> (n: usize)
    ensures
        n == max_encoded_len(),
{
    unsigned_varint::encode::usize_buffer().len()
}

} // verus!
