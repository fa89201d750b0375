//! Readers of the text encoding: each takes a buffer and a position, and
//! yields the value at that position and the position after it, or nothing.

use crate::message::{text_pairs, texts};
use crate::text::string_from_utf8;
use crate::wire::{
    bracket_end_in, byte_element, byte_in, byte_list_in, chars_in, closes, escape_in,
    first_of_two_in, hex4_in, hex_value, items_in, null_text, optional_string_list_in, pair_element,
    pair_in, pair_list_in, scalar_bytes, skip_space, starts_with, string_element, string_in,
    string_list_in, tag_in, with_bytes, with_item, BACKSLASH, CLOSE_BRACE, CLOSE_BRACKET, COLON,
    COMMA, DIGIT_ZERO, OPEN_BRACE, OPEN_BRACKET, QUOTE,
};
use vstd::prelude::*;

verus! {

broadcast use vstd::utf8::encode_utf8_decode_utf8;

/// What is left of a buffer from a position on.
pub open spec fn from(buf: Seq<u8>, pos: usize) -> Seq<u8> {
    buf.skip(pos as int)
}

/// One byte further in the buffer is one byte less of what is left.
pub proof fn lemma_from_step(buf: Seq<u8>, pos: usize, n: usize)
    requires
        pos + n <= buf.len(),
        pos + n <= usize::MAX,
    ensures
        from(buf, pos).skip(n as int) == from(buf, (pos + n) as usize),
        from(buf, pos).len() == buf.len() - pos,
        forall|k: int| 0 <= k < buf.len() - pos ==> #[trigger] from(buf, pos)[k] == buf[pos + k],
{
}

/// The position after the white space at `pos`.
pub fn skip_spaces(buf: &[u8], pos: usize) -> (next: usize)
    requires
        pos <= buf@.len(),
    ensures
        pos <= next <= buf@.len(),
        from(buf@, next) == skip_space(from(buf@, pos)),
{
    let mut i: usize = pos;
    while i < buf.len() && (buf[i] == 0x20 || buf[i] == 0x09 || buf[i] == 0x0a || buf[i] == 0x0d)
        invariant
            pos <= i <= buf@.len(),
            skip_space(from(buf@, i)) == skip_space(from(buf@, pos)),
        decreases buf@.len() - i,
    {
        proof {
            lemma_from_step(buf@, i, 1);
        }
        i = i + 1;
    }
    proof {
        lemma_from_step(buf@, i, 0);
    }
    i
}

/// Whether the buffer has the byte `b` at `pos`.
pub fn has_byte(buf: &[u8], pos: usize, b: u8) -> (has: bool)
    requires
        pos <= buf@.len(),
    ensures
        has == starts_with(from(buf@, pos), b),
{
    proof {
        lemma_from_step(buf@, pos, 0);
    }
    pos < buf.len() && buf[pos] == b
}

/// The value of a hexadecimal digit.
fn hex_value_of(b: u8) -> (v: Option<u32>)
    ensures
        v == hex_value(b),
{
    if 0x30 <= b && b <= 0x39 {
        Some((b - 0x30) as u32)
    } else if 0x61 <= b && b <= 0x66 {
        Some((b - 0x57) as u32)
    } else if 0x41 <= b && b <= 0x46 {
        Some((b - 0x37) as u32)
    } else {
        None
    }
}

/// The number that the four bytes at `pos` spell in hexadecimal.
fn read_hex4(buf: &[u8], pos: usize) -> (v: Option<u32>)
    requires
        pos <= buf@.len(),
    ensures
        v == hex4_in(from(buf@, pos)),
        v is Some ==> pos + 4 <= buf@.len() && v->0 < 0x10000,
{
    proof {
        lemma_from_step(buf@, pos, 0);
    }
    if buf.len() - pos < 4 {
        return None;
    }
    match (
        hex_value_of(buf[pos]),
        hex_value_of(buf[pos + 1]),
        hex_value_of(buf[pos + 2]),
        hex_value_of(buf[pos + 3]),
    ) {
        (Some(a), Some(b), Some(c), Some(d)) => Some(a * 4096 + b * 256 + c * 16 + d),
        _ => None,
    }
}

/// Appends the UTF-8 bytes of a code point.
fn push_scalar(out: &mut Vec<u8>, cp: u32)
    requires
        cp < 0x110000,
    ensures
        final(out)@ == old(out)@ + scalar_bytes(cp),
{
    if cp < 0x80 {
        out.push(cp as u8);
    } else if cp < 0x800 {
        out.push((0xc0 + cp / 64) as u8);
        out.push((0x80 + cp % 64) as u8);
    } else if cp < 0x10000 {
        out.push((0xe0 + cp / 4096) as u8);
        out.push((0x80 + (cp / 64) % 64) as u8);
        out.push((0x80 + cp % 64) as u8);
    } else {
        out.push((0xf0 + cp / 262144) as u8);
        out.push((0x80 + (cp / 4096) % 64) as u8);
        out.push((0x80 + (cp / 64) % 64) as u8);
        out.push((0x80 + cp % 64) as u8);
    }
}

/// Reads the escape at `pos`, the backslash already taken, and appends what
/// it stands for. Yields how many bytes the escape takes.
fn read_escape(buf: &[u8], pos: usize, out: &mut Vec<u8>) -> (taken: Option<usize>)
    requires
        pos <= buf@.len(),
    ensures
        match escape_in(from(buf@, pos)) {
            Some((bytes, n)) => taken == Some(n as usize) && 1 <= n && pos + n <= buf@.len()
                && final(out)@ == old(out)@ + bytes,
            None => taken is None && final(out)@ == old(out)@,
        },
{
    proof {
        lemma_from_step(buf@, pos, 0);
    }
    if pos >= buf.len() {
        return None;
    }
    proof {
        lemma_from_step(buf@, pos, 1);
    }
    let c = buf[pos];
    if c == QUOTE || c == BACKSLASH || c == 0x2f {
        out.push(c);
        Some(1)
    } else if c == 0x62 {
        out.push(0x08);
        Some(1)
    } else if c == 0x66 {
        out.push(0x0c);
        Some(1)
    } else if c == 0x6e {
        out.push(0x0a);
        Some(1)
    } else if c == 0x72 {
        out.push(0x0d);
        Some(1)
    } else if c == 0x74 {
        out.push(0x09);
        Some(1)
    } else if c == 0x75 {
        match read_hex4(buf, pos + 1) {
            None => None,
            Some(unit) => {
                if 0xd800 <= unit && unit < 0xdc00 {
                    if buf.len() - pos >= 11 && buf[pos + 5] == BACKSLASH && buf[pos + 6] == 0x75 {
                        proof {
                            lemma_from_step(buf@, pos, 7);
                        }
                        match read_hex4(buf, pos + 7) {
                            Some(low) => {
                                if 0xdc00 <= low && low < 0xe000 {
                                    push_scalar(
                                        out,
                                        0x10000 + (unit - 0xd800) * 0x400 + (low - 0xdc00),
                                    );
                                    Some(11)
                                } else {
                                    None
                                }
                            },
                            None => None,
                        }
                    } else {
                        None
                    }
                } else if 0xdc00 <= unit && unit < 0xe000 {
                    None
                } else {
                    push_scalar(out, unit);
                    Some(5)
                }
            },
        }
    } else {
        None
    }
}

/// The text of the JSON string at `pos`.
pub fn read_string(buf: &[u8], pos: usize) -> (r: Option<(String, usize)>)
    requires
        pos <= buf@.len(),
    ensures
        match string_in(from(buf@, pos)) {
            Some((text, rest)) => r is Some && (r->0).0@ == text && pos < (r->0).1 <= buf@.len()
                && from(buf@, (r->0).1) == rest,
            None => r is None,
        },
{
    if !has_byte(buf, pos, QUOTE) {
        return None;
    }
    let len = buf.len();
    proof {
        lemma_from_step(buf@, pos, 1);
    }
    let start = pos + 1;
    let mut bytes: Vec<u8> = Vec::new();
    let mut i: usize = start;
    loop
        invariant
            start == pos + 1,
            start <= i <= buf@.len(),
            starts_with(from(buf@, pos), QUOTE),
            from(buf@, pos).skip(1) == from(buf@, start),
            chars_in(from(buf@, start)) == with_bytes(bytes@, chars_in(from(buf@, i))),
        decreases buf@.len() - i,
    {
        proof {
            lemma_from_step(buf@, i, 0);
        }
        if i >= buf.len() {
            return None;
        }
        proof {
            lemma_from_step(buf@, i, 1);
        }
        let c = buf[i];
        if c == QUOTE {
            return match string_from_utf8(bytes) {
                Some(text) => Some((text, i + 1)),
                None => None,
            };
        } else if c == BACKSLASH {
            match read_escape(buf, i + 1, &mut bytes) {
                Some(n) => {
                    proof {
                        lemma_from_step(buf@, i, (1 + n) as usize);
                    }
                    i = i + 1 + n;
                },
                None => {
                    return None;
                },
            }
        } else if c < 0x20 {
            return None;
        } else {
            bytes.push(c);
            i = i + 1;
        }
    }
}

/// The byte that the JSON number at `pos` spells.
pub fn read_byte(buf: &[u8], pos: usize) -> (r: Option<(u8, usize)>)
    requires
        pos <= buf@.len(),
    ensures
        match byte_in(from(buf@, pos)) {
            Some((value, rest)) => r is Some && (r->0).0 == value && pos < (r->0).1 <= buf@.len()
                && from(buf@, (r->0).1) == rest,
            None => r is None,
        },
{
    let left = buf.len() - pos;
    proof {
        lemma_from_step(buf@, pos, 0);
        if pos + 1 <= buf@.len() {
            lemma_from_step(buf@, pos, 1);
        }
        if pos + 2 <= buf@.len() {
            lemma_from_step(buf@, pos, 2);
        }
        if pos + 3 <= buf@.len() {
            lemma_from_step(buf@, pos, 3);
        }
    }
    if left == 0 || !is_digit_byte(buf[pos]) {
        return None;
    }
    let mut digits: usize = 1;
    let mut value: u32 = (buf[pos] - DIGIT_ZERO) as u32;
    if buf[pos] == DIGIT_ZERO {
        if left > 1 && is_digit_byte(buf[pos + 1]) {
            return None;
        }
    } else if left > 1 && is_digit_byte(buf[pos + 1]) {
        value = value * 10 + (buf[pos + 1] - DIGIT_ZERO) as u32;
        digits = 2;
        if left > 2 && is_digit_byte(buf[pos + 2]) {
            value = value * 10 + (buf[pos + 2] - DIGIT_ZERO) as u32;
            digits = 3;
            if left > 3 && is_digit_byte(buf[pos + 3]) {
                return None;
            }
        }
    }
    if left > digits && (buf[pos + digits] == 0x2e || buf[pos + digits] == 0x65 || buf[pos
        + digits] == 0x45) {
        return None;
    }
    if value > 255 {
        return None;
    }
    Some((value as u8, pos + digits))
}

/// Whether a byte is a decimal digit.
fn is_digit_byte(b: u8) -> (digit: bool)
    ensures
        digit == crate::wire::is_digit(b),
{
    0x30 <= b && b <= 0x39
}

/// Values in front of what a reader of lists yields.
pub open spec fn with_items<T>(front: Seq<T>, read: Option<(Seq<T>, Seq<u8>)>) -> Option<
    (Seq<T>, Seq<u8>),
> {
    match read {
        Some((more, rest)) => Some((front + more, rest)),
        None => None,
    }
}

/// One value more in front is one value more at the end of the front.
proof fn lemma_with_items_push<T>(front: Seq<T>, item: T, read: Option<(Seq<T>, Seq<u8>)>)
    ensures
        with_items(front, with_item(item, read)) == with_items(front.push(item), read),
        with_items(front, Some((seq![item], Seq::<u8>::empty()))) == Some(
            (front.push(item), Seq::<u8>::empty()),
        ),
{
}

/// The position after the closing bracket at `pos`, white space aside.
pub fn read_bracket_end(buf: &[u8], pos: usize) -> (r: Option<usize>)
    requires
        pos <= buf@.len(),
    ensures
        match bracket_end_in(from(buf@, pos)) {
            Some(rest) => r is Some && pos < r->0 <= buf@.len() && from(buf@, r->0) == rest,
            None => r is None,
        },
{
    let end = skip_spaces(buf, pos);
    if has_byte(buf, end, CLOSE_BRACKET) {
        let len = buf.len();
        proof {
            lemma_from_step(buf@, end, 1);
        }
        Some(end + 1)
    } else {
        None
    }
}

/// The first text of the array of two elements at `pos`, and the position of
/// the second element.
pub fn read_first_of_two(buf: &[u8], pos: usize) -> (r: Option<(String, usize)>)
    requires
        pos <= buf@.len(),
    ensures
        match first_of_two_in(from(buf@, pos)) {
            Some((first, rest)) => r is Some && (r->0).0@ == first && pos < (r->0).1 <= buf@.len()
                && from(buf@, (r->0).1) == rest,
            None => r is None,
        },
{
    if !has_byte(buf, pos, OPEN_BRACKET) {
        return None;
    }
    let len = buf.len();
    proof {
        lemma_from_step(buf@, pos, 1);
    }
    let start = skip_spaces(buf, pos + 1);
    match read_string(buf, start) {
        None => None,
        Some((first, after)) => {
            let then = skip_spaces(buf, after);
            if has_byte(buf, then, COMMA) {
                proof {
                    lemma_from_step(buf@, then, 1);
                }
                let second = skip_spaces(buf, then + 1);
                Some((first, second))
            } else {
                None
            }
        },
    }
}

/// The pair of texts at `pos`.
pub fn read_pair(buf: &[u8], pos: usize) -> (r: Option<((String, String), usize)>)
    requires
        pos <= buf@.len(),
    ensures
        match pair_in(from(buf@, pos)) {
            Some((pair, rest)) => r is Some && ((r->0).0).0@ == pair.0 && ((r->0).0).1@ == pair.1
                && pos < (r->0).1 <= buf@.len() && from(buf@, (r->0).1) == rest,
            None => r is None,
        },
{
    match read_first_of_two(buf, pos) {
        None => None,
        Some((first, start)) => match read_string(buf, start) {
            None => None,
            Some((second, last)) => match read_bracket_end(buf, last) {
                Some(next) => Some(((first, second), next)),
                None => None,
            },
        },
    }
}

/// The list of texts at `pos`.
pub fn read_string_list(buf: &[u8], pos: usize) -> (r: Option<(Vec<String>, usize)>)
    requires
        pos <= buf@.len(),
    ensures
        match string_list_in(from(buf@, pos)) {
            Some((list, rest)) => r is Some && texts((r->0).0@) == list && pos < (r->0).1
                <= buf@.len() && from(buf@, (r->0).1) == rest,
            None => r is None,
        },
{
    if !has_byte(buf, pos, OPEN_BRACKET) {
        return None;
    }
    let len = buf.len();
    proof {
        lemma_from_step(buf@, pos, 1);
    }
    let inner = skip_spaces(buf, pos + 1);
    let mut items: Vec<String> = Vec::new();
    if has_byte(buf, inner, CLOSE_BRACKET) {
        proof {
            lemma_from_step(buf@, inner, 1);
        }
        return Some((items, inner + 1));
    }
    let mut i: usize = inner;
    loop
        invariant
            pos < inner <= i <= buf@.len(),
            len == buf@.len(),
            string_list_in(from(buf@, pos)) == items_in(string_element(), from(buf@, inner)),
            items_in(string_element(), from(buf@, inner)) == with_items(
                texts(items@),
                items_in(string_element(), from(buf@, i)),
            ),
        decreases buf@.len() - i,
    {
        proof {
            lemma_from_step(buf@, i, 0);
        }
        match read_string(buf, i) {
            None => {
                return None;
            },
            Some((item, after)) => {
                let then = skip_spaces(buf, after);
                let ghost front = texts(items@);
                let ghost value = item@;
                if has_byte(buf, then, CLOSE_BRACKET) {
                    proof {
                        lemma_from_step(buf@, then, 1);
                    }
                    items.push(item);
                    return Some((items, then + 1));
                } else if has_byte(buf, then, COMMA) {
                    proof {
                        lemma_from_step(buf@, then, 1);
                    }
                    let next = skip_spaces(buf, then + 1);
                    proof {
                        lemma_from_step(buf@, next, 0);
                        lemma_with_items_push(
                            front,
                            value,
                            items_in(string_element(), from(buf@, next)),
                        );
                    }
                    items.push(item);
                    i = next;
                } else {
                    return None;
                }
            },
        }
    }
}

/// The list of texts at `pos`, or nothing where `null` stands there.
pub fn read_optional_string_list(buf: &[u8], pos: usize) -> (r: Option<
    (Option<Vec<String>>, usize),
>)
    requires
        pos <= buf@.len(),
    ensures
        match optional_string_list_in(from(buf@, pos)) {
            Some((list, rest)) => r is Some && pos < (r->0).1 <= buf@.len() && from(
                buf@,
                (r->0).1,
            ) == rest && match list {
                Some(items) => (r->0).0 is Some && texts(((r->0).0)->0@) == items,
                None => (r->0).0 is None,
            },
            None => r is None,
        },
{
    let len = buf.len();
    proof {
        lemma_from_step(buf@, pos, 0);
    }
    if len - pos >= 4 && buf[pos] == 0x6e && buf[pos + 1] == 0x75 && buf[pos + 2] == 0x6c && buf[pos
        + 3] == 0x6c {
        proof {
            lemma_from_step(buf@, pos, 4);
            assert(from(buf@, pos).take(4) =~= null_text());
        }
        return Some((None, pos + 4));
    }
    match read_string_list(buf, pos) {
        Some((list, next)) => Some((Some(list), next)),
        None => None,
    }
}

/// The list of pairs of texts at `pos`.
pub fn read_pair_list(buf: &[u8], pos: usize) -> (r: Option<(Vec<(String, String)>, usize)>)
    requires
        pos <= buf@.len(),
    ensures
        match pair_list_in(from(buf@, pos)) {
            Some((list, rest)) => r is Some && text_pairs((r->0).0@) == list && pos < (r->0).1
                <= buf@.len() && from(buf@, (r->0).1) == rest,
            None => r is None,
        },
{
    if !has_byte(buf, pos, OPEN_BRACKET) {
        return None;
    }
    let len = buf.len();
    proof {
        lemma_from_step(buf@, pos, 1);
    }
    let inner = skip_spaces(buf, pos + 1);
    let mut items: Vec<(String, String)> = Vec::new();
    if has_byte(buf, inner, CLOSE_BRACKET) {
        proof {
            lemma_from_step(buf@, inner, 1);
        }
        return Some((items, inner + 1));
    }
    let mut i: usize = inner;
    loop
        invariant
            pos < inner <= i <= buf@.len(),
            len == buf@.len(),
            pair_list_in(from(buf@, pos)) == items_in(pair_element(), from(buf@, inner)),
            items_in(pair_element(), from(buf@, inner)) == with_items(
                text_pairs(items@),
                items_in(pair_element(), from(buf@, i)),
            ),
        decreases buf@.len() - i,
    {
        proof {
            lemma_from_step(buf@, i, 0);
        }
        match read_pair(buf, i) {
            None => {
                return None;
            },
            Some((item, after)) => {
                let then = skip_spaces(buf, after);
                let ghost front = text_pairs(items@);
                let ghost value = (item.0@, item.1@);
                if has_byte(buf, then, CLOSE_BRACKET) {
                    proof {
                        lemma_from_step(buf@, then, 1);
                    }
                    items.push(item);
                    return Some((items, then + 1));
                } else if has_byte(buf, then, COMMA) {
                    proof {
                        lemma_from_step(buf@, then, 1);
                    }
                    let next = skip_spaces(buf, then + 1);
                    proof {
                        lemma_from_step(buf@, next, 0);
                        lemma_with_items_push(
                            front,
                            value,
                            items_in(pair_element(), from(buf@, next)),
                        );
                    }
                    items.push(item);
                    i = next;
                } else {
                    return None;
                }
            },
        }
    }
}

/// The list of bytes at `pos`.
pub fn read_byte_list(buf: &[u8], pos: usize) -> (r: Option<(Vec<u8>, usize)>)
    requires
        pos <= buf@.len(),
    ensures
        match byte_list_in(from(buf@, pos)) {
            Some((list, rest)) => r is Some && (r->0).0@ == list && pos < (r->0).1 <= buf@.len()
                && from(buf@, (r->0).1) == rest,
            None => r is None,
        },
{
    if !has_byte(buf, pos, OPEN_BRACKET) {
        return None;
    }
    let len = buf.len();
    proof {
        lemma_from_step(buf@, pos, 1);
    }
    let inner = skip_spaces(buf, pos + 1);
    let mut items: Vec<u8> = Vec::new();
    if has_byte(buf, inner, CLOSE_BRACKET) {
        proof {
            lemma_from_step(buf@, inner, 1);
        }
        return Some((items, inner + 1));
    }
    let mut i: usize = inner;
    loop
        invariant
            pos < inner <= i <= buf@.len(),
            len == buf@.len(),
            byte_list_in(from(buf@, pos)) == items_in(byte_element(), from(buf@, inner)),
            items_in(byte_element(), from(buf@, inner)) == with_items(
                items@,
                items_in(byte_element(), from(buf@, i)),
            ),
        decreases buf@.len() - i,
    {
        proof {
            lemma_from_step(buf@, i, 0);
        }
        match read_byte(buf, i) {
            None => {
                return None;
            },
            Some((item, after)) => {
                let then = skip_spaces(buf, after);
                let ghost front = items@;
                if has_byte(buf, then, CLOSE_BRACKET) {
                    proof {
                        lemma_from_step(buf@, then, 1);
                    }
                    items.push(item);
                    return Some((items, then + 1));
                } else if has_byte(buf, then, COMMA) {
                    proof {
                        lemma_from_step(buf@, then, 1);
                    }
                    let next = skip_spaces(buf, then + 1);
                    proof {
                        lemma_from_step(buf@, next, 0);
                        lemma_with_items_push(
                            front,
                            item,
                            items_in(byte_element(), from(buf@, next)),
                        );
                    }
                    items.push(item);
                    i = next;
                } else {
                    return None;
                }
            },
        }
    }
}

/// The key of the object at the start of the buffer and the position of its
/// value.
pub fn read_tag(buf: &[u8]) -> (r: Option<(String, usize)>)
    ensures
        match tag_in(buf@) {
            Some((tag, rest)) => r is Some && (r->0).0@ == tag && (r->0).1 <= buf@.len() && from(
                buf@,
                (r->0).1,
            ) == rest,
            None => r is None,
        },
{
    let len = buf.len();
    assert(from(buf@, 0) =~= buf@);
    let start = skip_spaces(buf, 0);
    if !has_byte(buf, start, OPEN_BRACE) {
        return None;
    }
    proof {
        lemma_from_step(buf@, start, 1);
    }
    let key = skip_spaces(buf, start + 1);
    match read_string(buf, key) {
        None => None,
        Some((tag, after)) => {
            let then = skip_spaces(buf, after);
            if has_byte(buf, then, COLON) {
                proof {
                    lemma_from_step(buf@, then, 1);
                }
                let value = skip_spaces(buf, then + 1);
                Some((tag, value))
            } else {
                None
            }
        },
    }
}

/// Whether the buffer closes the object at `pos` and ends, white space aside.
pub fn read_close(buf: &[u8], pos: usize) -> (closed: bool)
    requires
        pos <= buf@.len(),
    ensures
        closed == closes(from(buf@, pos)),
{
    let len = buf.len();
    let end = skip_spaces(buf, pos);
    if has_byte(buf, end, CLOSE_BRACE) {
        proof {
            lemma_from_step(buf@, end, 1);
        }
        let last = skip_spaces(buf, end + 1);
        proof {
            lemma_from_step(buf@, last, 0);
        }
        last == len
    } else {
        false
    }
}

} // verus!
