//! Reading inverts writing: what the readers make of the written form of a
//! value is that value, and the input after it is untouched.

use crate::wire::{
    array_in, array_text, byte_element, byte_in, byte_list_in, byte_list_text, byte_text, chars_in,
    closes, escaped, escaped_byte, is_digit, is_space, items_in, joined, lemma_joined_two,
    null_text, optional_string_list_in, pair_element, pair_in, pair_list_in, pair_list_text,
    pair_text, skip_space, starts_with, string_element, string_in, string_list_in, string_list_text,
    string_text, tag_in, tagged_text, two_in, with_bytes, BACKSLASH, CLOSE_BRACE, CLOSE_BRACKET,
    COLON, COMMA, OPEN_BRACKET, QUOTE,
};
use vstd::prelude::*;
use vstd::utf8::encode_utf8;

verus! {

/// Input that does not start with white space has none to skip.
pub proof fn lemma_no_space_to_skip(s: Seq<u8>)
    requires
        s.len() == 0 || !is_space(s[0]),
    ensures
        skip_space(s) == s,
{
}

/// The escape of one byte reads back as that byte.
proof fn lemma_escaped_byte_reads_back(b: u8, rest: Seq<u8>)
    ensures
        chars_in(escaped_byte(b) + rest) == with_bytes(seq![b], chars_in(rest)),
{
    let s = escaped_byte(b) + rest;
    if b == QUOTE || b == BACKSLASH || b == 0x08 || b == 0x09 || b == 0x0a || b == 0x0c || b
        == 0x0d {
        assert(s.skip(2) =~= rest);
    } else if b < 0x20 {
        assert(s.skip(6) =~= rest);
    } else {
        assert(s.skip(1) =~= rest);
    }
}

/// The escaped bytes of a text and the closing quote read back as the bytes.
pub proof fn lemma_escaped_reads_back(bytes: Seq<u8>, rest: Seq<u8>)
    ensures
        chars_in(escaped(bytes) + seq![QUOTE] + rest) == Some((bytes, rest)),
    decreases bytes.len(),
{
    let s = escaped(bytes) + seq![QUOTE] + rest;
    if bytes.len() > 0 {
        let tail = escaped(bytes.skip(1)) + seq![QUOTE] + rest;
        assert(s =~= escaped_byte(bytes[0]) + tail);
        lemma_escaped_byte_reads_back(bytes[0], tail);
        lemma_escaped_reads_back(bytes.skip(1), rest);
    }
}

/// A written text reads back as that text, whatever follows it.
pub proof fn lemma_string_reads_back(text: Seq<char>, rest: Seq<u8>)
    ensures
        string_in(string_text(text) + rest) == Some((text, rest)),
        string_text(text).len() > 0,
        string_text(text)[0] == QUOTE,
{
    let bytes = encode_utf8(text);
    let s = string_text(text) + rest;
    assert(s.skip(1) =~= escaped(bytes) + seq![QUOTE] + rest);
    lemma_escaped_reads_back(bytes, rest);
    vstd::utf8::encode_utf8_valid_utf8(text);
    vstd::utf8::encode_utf8_decode_utf8(text);
}

/// Whether the input starts with what may follow an element of an array.
pub open spec fn separates(tail: Seq<u8>) -> bool {
    starts_with(tail, COMMA) || starts_with(tail, CLOSE_BRACKET)
}

/// A written byte reads back as that byte, where a separator follows it.
pub proof fn lemma_byte_reads_back(n: u8, rest: Seq<u8>)
    requires
        separates(rest),
    ensures
        byte_in(byte_text(n) + rest) == Some((n, rest)),
        byte_text(n).len() > 0,
        is_digit(byte_text(n)[0]),
{
}

/// Whether a byte may start the written form of a value: a quote, an opening
/// bracket, or a digit.
pub open spec fn starts_value(b: u8) -> bool {
    b == QUOTE || b == OPEN_BRACKET || is_digit(b)
}

/// The written form `part` reads back as `value` wherever a separator follows
/// it.
pub open spec fn reads_back<T>(
    element: spec_fn(Seq<u8>) -> Option<(T, Seq<u8>)>,
    part: Seq<u8>,
    value: T,
) -> bool {
    &&& part.len() > 0
    &&& starts_value(part[0])
    &&& forall|tail: Seq<u8>| #[trigger]
        separates(tail) ==> element(part + tail) == Some((value, tail))
}

/// Every written form of a list reads back as the value at its place.
pub open spec fn all_read_back<T>(
    element: spec_fn(Seq<u8>) -> Option<(T, Seq<u8>)>,
    parts: Seq<Seq<u8>>,
    values: Seq<T>,
) -> bool {
    &&& parts.len() == values.len()
    &&& forall|i: int|
        0 <= i < parts.len() ==> #[trigger] reads_back(element, parts[i], values[i])
}

/// Parts joined start as the first part starts.
proof fn lemma_joined_starts(parts: Seq<Seq<u8>>)
    requires
        parts.len() > 0,
        parts[0].len() > 0,
    ensures
        joined(parts).len() > 0,
        joined(parts)[0] == parts[0][0],
{
}

/// The written elements of a list, joined and closed, read back as the list.
proof fn lemma_items_read_back<T>(
    element: spec_fn(Seq<u8>) -> Option<(T, Seq<u8>)>,
    parts: Seq<Seq<u8>>,
    values: Seq<T>,
    rest: Seq<u8>,
)
    requires
        parts.len() > 0,
        all_read_back(element, parts, values),
    ensures
        items_in(element, joined(parts) + seq![CLOSE_BRACKET] + rest) == Some((values, rest)),
    decreases parts.len(),
{
    let s = joined(parts) + seq![CLOSE_BRACKET] + rest;
    assert(reads_back(element, parts[0], values[0]));
    if parts.len() == 1 {
        let tail = seq![CLOSE_BRACKET] + rest;
        assert(separates(tail));
        assert(s =~= parts[0] + tail);
        lemma_no_space_to_skip(tail);
    } else {
        let later = parts.skip(1);
        let later_values = values.skip(1);
        let next = joined(later) + seq![CLOSE_BRACKET] + rest;
        let tail = seq![COMMA] + next;
        assert(separates(tail));
        assert(s =~= parts[0] + tail);
        lemma_no_space_to_skip(tail);
        assert(tail.skip(1) =~= next);
        assert(reads_back(element, parts[1], values[1]));
        lemma_joined_starts(later);
        lemma_no_space_to_skip(next);
        assert forall|i: int| 0 <= i < later.len() implies #[trigger] reads_back(
            element,
            later[i],
            later_values[i],
        ) by {}
        lemma_items_read_back(element, later, later_values, rest);
    }
}

/// A written list reads back as the list, whatever follows it.
pub proof fn lemma_array_reads_back<T>(
    element: spec_fn(Seq<u8>) -> Option<(T, Seq<u8>)>,
    parts: Seq<Seq<u8>>,
    values: Seq<T>,
    rest: Seq<u8>,
)
    requires
        all_read_back(element, parts, values),
    ensures
        array_in(element, array_text(parts) + rest) == Some((values, rest)),
        array_text(parts).len() > 0,
        array_text(parts)[0] == OPEN_BRACKET,
{
    let s = array_text(parts) + rest;
    let inner = joined(parts) + seq![CLOSE_BRACKET] + rest;
    assert(s.skip(1) =~= inner);
    if parts.len() == 0 {
        lemma_no_space_to_skip(inner);
    } else {
        assert(reads_back(element, parts[0], values[0]));
        lemma_joined_starts(parts);
        lemma_no_space_to_skip(inner);
        lemma_items_read_back(element, parts, values, rest);
    }
}

/// A written list of texts reads back as the list, whatever follows it.
pub proof fn lemma_string_list_reads_back(items: Seq<Seq<char>>, rest: Seq<u8>)
    ensures
        string_list_in(string_list_text(items) + rest) == Some((items, rest)),
        string_list_text(items).len() > 0,
        string_list_text(items)[0] == OPEN_BRACKET,
{
    let parts = Seq::new(items.len(), |i: int| string_text(items[i]));
    assert forall|i: int| 0 <= i < parts.len() implies #[trigger] reads_back(
        string_element(),
        parts[i],
        items[i],
    ) by {
        lemma_string_reads_back(items[i], Seq::empty());
        assert forall|tail: Seq<u8>| #[trigger] separates(tail) implies string_element()(
            parts[i] + tail,
        ) == Some((items[i], tail)) by {
            lemma_string_reads_back(items[i], tail);
        }
    }
    lemma_array_reads_back(string_element(), parts, items, rest);
}

/// A written pair of texts reads back as the pair, whatever follows it.
pub proof fn lemma_pair_reads_back(pair: (Seq<char>, Seq<char>), rest: Seq<u8>)
    ensures
        pair_in(pair_text(pair) + rest) == Some((pair, rest)),
        pair_text(pair).len() > 0,
        pair_text(pair)[0] == OPEN_BRACKET,
{
    lemma_string_reads_back(pair.1, seq![CLOSE_BRACKET] + rest);
    lemma_two_read_back(string_element(), pair.0, string_text(pair.1), pair.1, rest);
}

/// A written array of a text and a second value reads back as the two,
/// whatever follows it, where the second value reads back before a closing
/// bracket.
pub proof fn lemma_two_read_back<T>(
    second: spec_fn(Seq<u8>) -> Option<(T, Seq<u8>)>,
    first: Seq<char>,
    part: Seq<u8>,
    value: T,
    rest: Seq<u8>,
)
    requires
        part.len() > 0,
        !is_space(part[0]),
        second(part + (seq![CLOSE_BRACKET] + rest)) == Some((value, seq![CLOSE_BRACKET] + rest)),
    ensures
        two_in(second, array_text(seq![string_text(first), part]) + rest) == Some(
            ((first, value), rest),
        ),
        array_text(seq![string_text(first), part])[0] == OPEN_BRACKET,
{
    let s = array_text(seq![string_text(first), part]) + rest;
    let close = seq![CLOSE_BRACKET] + rest;
    let after_first = seq![COMMA] + (part + close);
    lemma_joined_two(string_text(first), part);
    lemma_string_reads_back(first, after_first);
    assert(s.skip(1) =~= string_text(first) + after_first);
    lemma_no_space_to_skip(s.skip(1));
    lemma_no_space_to_skip(after_first);
    assert(after_first.skip(1) =~= part + close);
    lemma_no_space_to_skip(part + close);
    lemma_no_space_to_skip(close);
}

/// A written list of pairs of texts reads back as the list, whatever follows
/// it.
pub proof fn lemma_pair_list_reads_back(items: Seq<(Seq<char>, Seq<char>)>, rest: Seq<u8>)
    ensures
        pair_list_in(pair_list_text(items) + rest) == Some((items, rest)),
        pair_list_text(items).len() > 0,
        pair_list_text(items)[0] == OPEN_BRACKET,
{
    let parts = Seq::new(items.len(), |i: int| pair_text(items[i]));
    assert forall|i: int| 0 <= i < parts.len() implies #[trigger] reads_back(
        pair_element(),
        parts[i],
        items[i],
    ) by {
        lemma_pair_reads_back(items[i], Seq::empty());
        assert forall|tail: Seq<u8>| #[trigger] separates(tail) implies pair_element()(
            parts[i] + tail,
        ) == Some((items[i], tail)) by {
            lemma_pair_reads_back(items[i], tail);
        }
    }
    lemma_array_reads_back(pair_element(), parts, items, rest);
}

/// A written list of bytes reads back as the list, whatever follows it.
pub proof fn lemma_byte_list_reads_back(items: Seq<u8>, rest: Seq<u8>)
    ensures
        byte_list_in(byte_list_text(items) + rest) == Some((items, rest)),
        byte_list_text(items).len() > 0,
        byte_list_text(items)[0] == OPEN_BRACKET,
{
    let parts = Seq::new(items.len(), |i: int| byte_text(items[i]));
    assert forall|i: int| 0 <= i < parts.len() implies #[trigger] reads_back(
        byte_element(),
        parts[i],
        items[i],
    ) by {
        lemma_byte_reads_back(items[i], seq![COMMA]);
        assert forall|tail: Seq<u8>| #[trigger] separates(tail) implies byte_element()(
            parts[i] + tail,
        ) == Some((items[i], tail)) by {
            lemma_byte_reads_back(items[i], tail);
        }
    }
    lemma_array_reads_back(byte_element(), parts, items, rest);
}

/// A written list of texts, or `null` in its place, reads back as what was
/// written, whatever follows it.
pub proof fn lemma_optional_string_list_reads_back(
    items: Option<Seq<Seq<char>>>,
    rest: Seq<u8>,
)
    ensures
        optional_string_list_in(
            match items {
                Some(list) => string_list_text(list),
                None => null_text(),
            } + rest,
        ) == Some((items, rest)),
{
    match items {
        Some(list) => {
            lemma_string_list_reads_back(list, rest);
        },
        None => {
            let s = null_text() + rest;
            assert(s.take(4) =~= null_text());
        },
    }
}

/// The key and the value of a written object are found again.
pub proof fn lemma_tag_reads_back(tag: Seq<char>, body: Seq<u8>)
    requires
        body.len() > 0,
        !is_space(body[0]),
    ensures
        tag_in(tagged_text(tag, body)) == Some((tag, body + seq![CLOSE_BRACE])),
        closes(seq![CLOSE_BRACE]),
{
    let s = tagged_text(tag, body);
    let value = body + seq![CLOSE_BRACE];
    let after_key = seq![COLON] + value;
    lemma_no_space_to_skip(s);
    lemma_string_reads_back(tag, after_key);
    assert(s.skip(1) =~= string_text(tag) + after_key);
    lemma_no_space_to_skip(s.skip(1));
    lemma_no_space_to_skip(after_key);
    lemma_no_space_to_skip(value);
    let end = seq![CLOSE_BRACE];
    lemma_no_space_to_skip(end);
}

} // verus!
