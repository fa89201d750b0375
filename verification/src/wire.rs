//! The text encoding of messages: JSON, as far as the vocabulary needs it.
//!
//! A text is a JSON string, a byte is a JSON number, a list is a JSON array.
//! Writing produces the compact form: no white space, and only the escapes
//! that JSON demands. Reading takes more: white space between the tokens, and
//! every escape of JSON. What is read is stated as a function of the input:
//! each reader yields a value and the input that follows it, or nothing.

use crate::message::{text_pairs, texts};
use vstd::prelude::*;
use vstd::utf8::{decode_utf8, encode_utf8, valid_utf8};

verus! {

pub const QUOTE: u8 = 0x22;

pub const BACKSLASH: u8 = 0x5c;

pub const COMMA: u8 = 0x2c;

pub const COLON: u8 = 0x3a;

pub const OPEN_BRACKET: u8 = 0x5b;

pub const CLOSE_BRACKET: u8 = 0x5d;

pub const OPEN_BRACE: u8 = 0x7b;

pub const CLOSE_BRACE: u8 = 0x7d;

pub const DIGIT_ZERO: u8 = 0x30;

/// The lower-case hexadecimal digit of a number below sixteen.
pub open spec fn hex_digit(n: u8) -> u8 {
    if n < 10 {
        (0x30 + n) as u8
    } else {
        (0x57 + n) as u8
    }
}

/// How one byte of a text stands inside a JSON string. The quote and the
/// backslash get a backslash in front, control characters their short escape
/// or `\u00XX`, every other byte stands for itself.
pub open spec fn escaped_byte(b: u8) -> Seq<u8> {
    if b == QUOTE {
        seq![BACKSLASH, QUOTE]
    } else if b == BACKSLASH {
        seq![BACKSLASH, BACKSLASH]
    } else if b == 0x08 {
        seq![BACKSLASH, 0x62u8]
    } else if b == 0x09 {
        seq![BACKSLASH, 0x74u8]
    } else if b == 0x0a {
        seq![BACKSLASH, 0x6eu8]
    } else if b == 0x0c {
        seq![BACKSLASH, 0x66u8]
    } else if b == 0x0d {
        seq![BACKSLASH, 0x72u8]
    } else if b < 0x20 {
        seq![BACKSLASH, 0x75u8, DIGIT_ZERO, DIGIT_ZERO, hex_digit(b / 16), hex_digit(b % 16)]
    } else {
        seq![b]
    }
}

/// How the bytes of a text stand inside a JSON string.
pub open spec fn escaped(bytes: Seq<u8>) -> Seq<u8>
    decreases bytes.len(),
{
    if bytes.len() == 0 {
        Seq::empty()
    } else {
        escaped_byte(bytes[0]) + escaped(bytes.skip(1))
    }
}

/// The JSON string of a text given by its UTF-8 bytes.
pub open spec fn quoted(bytes: Seq<u8>) -> Seq<u8> {
    seq![QUOTE] + escaped(bytes) + seq![QUOTE]
}

/// The JSON string of a text.
pub open spec fn string_text(text: Seq<char>) -> Seq<u8> {
    quoted(encode_utf8(text))
}

/// The JSON number of a byte: its decimal digits.
pub open spec fn byte_text(n: u8) -> Seq<u8> {
    if n < 10 {
        seq![(DIGIT_ZERO + n) as u8]
    } else if n < 100 {
        seq![(DIGIT_ZERO + n / 10) as u8, (DIGIT_ZERO + n % 10) as u8]
    } else {
        seq![
            (DIGIT_ZERO + n / 100) as u8,
            (DIGIT_ZERO + (n / 10) % 10) as u8,
            (DIGIT_ZERO + n % 10) as u8,
        ]
    }
}

/// The parts with a comma between each two.
pub open spec fn joined(parts: Seq<Seq<u8>>) -> Seq<u8>
    decreases parts.len(),
{
    if parts.len() == 0 {
        Seq::empty()
    } else if parts.len() == 1 {
        parts[0]
    } else {
        parts[0] + seq![COMMA] + joined(parts.skip(1))
    }
}

/// The JSON array of elements given by their texts.
pub open spec fn array_text(parts: Seq<Seq<u8>>) -> Seq<u8> {
    seq![OPEN_BRACKET] + joined(parts) + seq![CLOSE_BRACKET]
}

/// The JSON array of a list of texts.
pub open spec fn string_list_text(items: Seq<Seq<char>>) -> Seq<u8> {
    array_text(Seq::new(items.len(), |i: int| string_text(items[i])))
}

/// The JSON array of two texts.
pub open spec fn pair_text(pair: (Seq<char>, Seq<char>)) -> Seq<u8> {
    array_text(seq![string_text(pair.0), string_text(pair.1)])
}

/// The JSON array of a list of pairs of texts.
pub open spec fn pair_list_text(items: Seq<(Seq<char>, Seq<char>)>) -> Seq<u8> {
    array_text(Seq::new(items.len(), |i: int| pair_text(items[i])))
}

/// The JSON array of a list of bytes.
pub open spec fn byte_list_text(items: Seq<u8>) -> Seq<u8> {
    array_text(Seq::new(items.len(), |i: int| byte_text(items[i])))
}

/// The JSON object with the one key `tag` and the value `body`.
pub open spec fn tagged_text(tag: Seq<char>, body: Seq<u8>) -> Seq<u8> {
    seq![OPEN_BRACE] + string_text(tag) + seq![COLON] + body + seq![CLOSE_BRACE]
}

/// The JSON literal `null`.
pub open spec fn null_text() -> Seq<u8> {
    seq![0x6eu8, 0x75u8, 0x6cu8, 0x6cu8]
}

/// Escaping goes byte by byte: a byte more at the end is its escape more at
/// the end.
pub proof fn lemma_escaped_push(bytes: Seq<u8>, b: u8)
    ensures
        escaped(bytes.push(b)) == escaped(bytes) + escaped_byte(b),
    decreases bytes.len(),
{
    if bytes.len() == 0 {
        assert(escaped(bytes.push(b).skip(1)) =~= Seq::<u8>::empty());
    } else {
        assert(bytes.push(b).skip(1) =~= bytes.skip(1).push(b));
        lemma_escaped_push(bytes.skip(1), b);
    }
}

/// Joining goes part by part: a part more at the end is a comma and that part
/// more at the end, or the part alone where it is the first.
pub proof fn lemma_joined_push(parts: Seq<Seq<u8>>, part: Seq<u8>)
    ensures
        joined(parts.push(part)) == if parts.len() == 0 {
            part
        } else {
            joined(parts) + seq![COMMA] + part
        },
    decreases parts.len(),
{
    if parts.len() > 0 {
        assert(parts.push(part).skip(1) =~= parts.skip(1).push(part));
        lemma_joined_push(parts.skip(1), part);
    }
}

/// Two parts joined are the first, a comma, and the second.
pub proof fn lemma_joined_two(first: Seq<u8>, second: Seq<u8>)
    ensures
        joined(seq![first, second]) == first + seq![COMMA] + second,
{
    let two = seq![first, second];
    assert(joined(two.skip(1)) == second);
}

/// The lower-case hexadecimal digit of a number below sixteen.
fn hex_digit_of(n: u8) -> (d: u8)
    requires
        n < 16,
    ensures
        d == hex_digit(n),
{
    if n < 10 {
        0x30 + n
    } else {
        0x57 + n
    }
}

/// Appends the escape of one byte.
fn write_escaped_byte(out: &mut Vec<u8>, b: u8)
    ensures
        final(out)@ == old(out)@ + escaped_byte(b),
{
    if b == QUOTE || b == BACKSLASH {
        out.push(BACKSLASH);
        out.push(b);
    } else if b == 0x08 {
        out.push(BACKSLASH);
        out.push(0x62);
    } else if b == 0x09 {
        out.push(BACKSLASH);
        out.push(0x74);
    } else if b == 0x0a {
        out.push(BACKSLASH);
        out.push(0x6e);
    } else if b == 0x0c {
        out.push(BACKSLASH);
        out.push(0x66);
    } else if b == 0x0d {
        out.push(BACKSLASH);
        out.push(0x72);
    } else if b < 0x20 {
        out.push(BACKSLASH);
        out.push(0x75);
        out.push(DIGIT_ZERO);
        out.push(DIGIT_ZERO);
        out.push(hex_digit_of(b / 16));
        out.push(hex_digit_of(b % 16));
    } else {
        out.push(b);
    }
}

/// Appends the JSON string of `text`.
pub fn write_string(out: &mut Vec<u8>, text: &str)
    ensures
        final(out)@ == old(out)@ + string_text(text@),
{
    let bytes = text.as_bytes();
    out.push(QUOTE);
    let mut i: usize = 0;
    while i < bytes.len()
        invariant
            i <= bytes@.len(),
            bytes@ == encode_utf8(text@),
            out@ == old(out)@ + seq![QUOTE] + escaped(bytes@.take(i as int)),
        decreases bytes@.len() - i,
    {
        proof {
            lemma_escaped_push(bytes@.take(i as int), bytes@[i as int]);
            assert(bytes@.take(i as int).push(bytes@[i as int]) =~= bytes@.take(i + 1));
        }
        write_escaped_byte(out, bytes[i]);
        i = i + 1;
    }
    assert(bytes@.take(i as int) =~= bytes@);
    out.push(QUOTE);
}

/// Appends the JSON number of a byte.
pub fn write_byte(out: &mut Vec<u8>, n: u8)
    ensures
        final(out)@ == old(out)@ + byte_text(n),
{
    if n >= 100 {
        out.push(DIGIT_ZERO + n / 100);
    }
    if n >= 10 {
        out.push(DIGIT_ZERO + (n / 10) % 10);
    }
    out.push(DIGIT_ZERO + n % 10);
}

/// Appends the JSON array of a list of texts.
pub fn write_string_list(out: &mut Vec<u8>, items: &Vec<String>)
    ensures
        final(out)@ == old(out)@ + string_list_text(texts(items@)),
{
    let ghost parts = Seq::new(items@.len(), |i: int| string_text(items@[i]@));
    out.push(OPEN_BRACKET);
    let mut i: usize = 0;
    while i < items.len()
        invariant
            i <= items@.len(),
            parts == Seq::new(items@.len(), |i: int| string_text(items@[i]@)),
            out@ == old(out)@ + seq![OPEN_BRACKET] + joined(parts.take(i as int)),
        decreases items@.len() - i,
    {
        proof {
            lemma_joined_push(parts.take(i as int), parts[i as int]);
            assert(parts.take(i as int).push(parts[i as int]) =~= parts.take(i + 1));
        }
        if i > 0 {
            out.push(COMMA);
        }
        write_string(out, items[i].as_str());
        i = i + 1;
    }
    assert(parts.take(i as int) =~= parts);
    out.push(CLOSE_BRACKET);
    assert(parts =~= Seq::new(
        texts(items@).len(),
        |i: int| string_text(texts(items@)[i]),
    ));
}

/// Appends the JSON array of a list of pairs of texts.
pub fn write_pair_list(out: &mut Vec<u8>, items: &Vec<(String, String)>)
    ensures
        final(out)@ == old(out)@ + pair_list_text(text_pairs(items@)),
{
    let ghost parts = Seq::new(items@.len(), |i: int| pair_text((items@[i].0@, items@[i].1@)));
    out.push(OPEN_BRACKET);
    let mut i: usize = 0;
    while i < items.len()
        invariant
            i <= items@.len(),
            parts == Seq::new(items@.len(), |i: int| pair_text((items@[i].0@, items@[i].1@))),
            out@ == old(out)@ + seq![OPEN_BRACKET] + joined(parts.take(i as int)),
        decreases items@.len() - i,
    {
        proof {
            lemma_joined_push(parts.take(i as int), parts[i as int]);
            assert(parts.take(i as int).push(parts[i as int]) =~= parts.take(i + 1));
        }
        if i > 0 {
            out.push(COMMA);
        }
        out.push(OPEN_BRACKET);
        write_string(out, items[i].0.as_str());
        out.push(COMMA);
        write_string(out, items[i].1.as_str());
        out.push(CLOSE_BRACKET);
        proof {
            lemma_joined_two(
                string_text(items@[i as int].0@),
                string_text(items@[i as int].1@),
            );
        }
        i = i + 1;
    }
    assert(parts.take(i as int) =~= parts);
    out.push(CLOSE_BRACKET);
    assert(parts =~= Seq::new(
        text_pairs(items@).len(),
        |i: int| pair_text(text_pairs(items@)[i]),
    ));
}

/// Appends the JSON array of a list of bytes.
pub fn write_byte_list(out: &mut Vec<u8>, items: &[u8])
    ensures
        final(out)@ == old(out)@ + byte_list_text(items@),
{
    let ghost parts = Seq::new(items@.len(), |i: int| byte_text(items@[i]));
    out.push(OPEN_BRACKET);
    let mut i: usize = 0;
    while i < items.len()
        invariant
            i <= items@.len(),
            parts == Seq::new(items@.len(), |i: int| byte_text(items@[i])),
            out@ == old(out)@ + seq![OPEN_BRACKET] + joined(parts.take(i as int)),
        decreases items@.len() - i,
    {
        proof {
            lemma_joined_push(parts.take(i as int), parts[i as int]);
            assert(parts.take(i as int).push(parts[i as int]) =~= parts.take(i + 1));
        }
        if i > 0 {
            out.push(COMMA);
        }
        write_byte(out, items[i]);
        i = i + 1;
    }
    assert(parts.take(i as int) =~= parts);
    out.push(CLOSE_BRACKET);
}

/// Appends the JSON literal `null`.
pub fn write_null(out: &mut Vec<u8>)
    ensures
        final(out)@ == old(out)@ + null_text(),
{
    out.push(0x6e);
    out.push(0x75);
    out.push(0x6c);
    out.push(0x6c);
}

/// Whether a byte is JSON white space.
pub open spec fn is_space(b: u8) -> bool {
    b == 0x20 || b == 0x09 || b == 0x0a || b == 0x0d
}

/// The input without the white space at its start.
pub open spec fn skip_space(s: Seq<u8>) -> Seq<u8>
    decreases s.len(),
{
    if s.len() > 0 && is_space(s[0]) {
        skip_space(s.skip(1))
    } else {
        s
    }
}

/// Whether the input starts with the byte `b`.
pub open spec fn starts_with(s: Seq<u8>, b: u8) -> bool {
    s.len() > 0 && s[0] == b
}

/// The value of a hexadecimal digit of either case.
pub open spec fn hex_value(b: u8) -> Option<u32> {
    if 0x30 <= b <= 0x39 {
        Some((b - 0x30) as u32)
    } else if 0x61 <= b <= 0x66 {
        Some((b - 0x57) as u32)
    } else if 0x41 <= b <= 0x46 {
        Some((b - 0x37) as u32)
    } else {
        None
    }
}

/// The number that the first four bytes of the input spell in hexadecimal.
pub open spec fn hex4_in(s: Seq<u8>) -> Option<u32> {
    if s.len() < 4 {
        None
    } else {
        match (hex_value(s[0]), hex_value(s[1]), hex_value(s[2]), hex_value(s[3])) {
            (Some(a), Some(b), Some(c), Some(d)) => Some((a * 4096 + b * 256 + c * 16 + d) as u32),
            _ => None,
        }
    }
}

/// The UTF-8 bytes of a code point.
pub open spec fn scalar_bytes(cp: u32) -> Seq<u8> {
    if cp < 0x80 {
        seq![cp as u8]
    } else if cp < 0x800 {
        seq![(0xc0 + cp / 64) as u8, (0x80 + cp % 64) as u8]
    } else if cp < 0x10000 {
        seq![(0xe0 + cp / 4096) as u8, (0x80 + (cp / 64) % 64) as u8, (0x80 + cp % 64) as u8]
    } else {
        seq![
            (0xf0 + cp / 262144) as u8,
            (0x80 + (cp / 4096) % 64) as u8,
            (0x80 + (cp / 64) % 64) as u8,
            (0x80 + cp % 64) as u8,
        ]
    }
}

/// The escape at the start of the input, the backslash already taken: the
/// bytes it stands for and how many bytes of input it takes. A `\u` escape of
/// the first half of a surrogate pair must be followed by one of the second
/// half; a half alone is no escape.
pub open spec fn escape_in(s: Seq<u8>) -> Option<(Seq<u8>, int)> {
    if s.len() == 0 {
        None
    } else if s[0] == QUOTE || s[0] == BACKSLASH || s[0] == 0x2f {
        Some((seq![s[0]], 1))
    } else if s[0] == 0x62 {
        Some((seq![0x08u8], 1))
    } else if s[0] == 0x66 {
        Some((seq![0x0cu8], 1))
    } else if s[0] == 0x6e {
        Some((seq![0x0au8], 1))
    } else if s[0] == 0x72 {
        Some((seq![0x0du8], 1))
    } else if s[0] == 0x74 {
        Some((seq![0x09u8], 1))
    } else if s[0] == 0x75 {
        match hex4_in(s.skip(1)) {
            None => None,
            Some(unit) => if 0xd800 <= unit < 0xdc00 {
                if s.len() >= 11 && s[5] == BACKSLASH && s[6] == 0x75 {
                    match hex4_in(s.skip(7)) {
                        Some(low) => if 0xdc00 <= low < 0xe000 {
                            Some(
                                (
                                    scalar_bytes(
                                        (0x10000 + (unit - 0xd800) * 0x400 + (low - 0xdc00)) as u32,
                                    ),
                                    11,
                                ),
                            )
                        } else {
                            None
                        },
                        None => None,
                    }
                } else {
                    None
                }
            } else if 0xdc00 <= unit < 0xe000 {
                None
            } else {
                Some((scalar_bytes(unit), 5))
            },
        }
    } else {
        None
    }
}

/// A value in front of what a reader yields.
pub open spec fn with_bytes(front: Seq<u8>, read: Option<(Seq<u8>, Seq<u8>)>) -> Option<
    (Seq<u8>, Seq<u8>),
> {
    match read {
        Some((more, rest)) => Some((front + more, rest)),
        None => None,
    }
}

/// The bytes of a JSON string, the opening quote already taken, up to the
/// closing quote, with every escape replaced by what it stands for.
pub open spec fn chars_in(s: Seq<u8>) -> Option<(Seq<u8>, Seq<u8>)>
    decreases s.len(),
{
    if s.len() == 0 {
        None
    } else if s[0] == QUOTE {
        Some((Seq::empty(), s.skip(1)))
    } else if s[0] == BACKSLASH {
        match escape_in(s.skip(1)) {
            Some((bytes, n)) => if 1 <= n && 1 + n <= s.len() {
                with_bytes(bytes, chars_in(s.skip(1 + n)))
            } else {
                None
            },
            None => None,
        }
    } else if s[0] < 0x20 {
        None
    } else {
        with_bytes(seq![s[0]], chars_in(s.skip(1)))
    }
}

/// The text of the JSON string at the start of the input.
pub open spec fn string_in(s: Seq<u8>) -> Option<(Seq<char>, Seq<u8>)> {
    if starts_with(s, QUOTE) {
        match chars_in(s.skip(1)) {
            Some((bytes, rest)) => if valid_utf8(bytes) {
                Some((decode_utf8(bytes), rest))
            } else {
                None
            },
            None => None,
        }
    } else {
        None
    }
}

/// Whether a byte is a decimal digit.
pub open spec fn is_digit(b: u8) -> bool {
    0x30 <= b <= 0x39
}

/// Whether the input has a decimal digit at `i`.
pub open spec fn digit_at(s: Seq<u8>, i: int) -> bool {
    0 <= i < s.len() && is_digit(s[i])
}

/// A number of `n` digits ends here, unless a fraction or an exponent
/// follows: then it is no whole number.
pub open spec fn whole_number(s: Seq<u8>, n: int, value: int) -> Option<(u8, Seq<u8>)> {
    if n < s.len() && (s[n] == 0x2e || s[n] == 0x65 || s[n] == 0x45) {
        None
    } else if value > 255 {
        None
    } else {
        Some((value as u8, s.skip(n)))
    }
}

/// The byte that the JSON number at the start of the input spells: one to
/// three digits, no zero in front of another digit, and 255 at most.
pub open spec fn byte_in(s: Seq<u8>) -> Option<(u8, Seq<u8>)> {
    if !digit_at(s, 0) {
        None
    } else if s[0] == DIGIT_ZERO {
        if digit_at(s, 1) {
            None
        } else {
            whole_number(s, 1, 0)
        }
    } else if !digit_at(s, 1) {
        whole_number(s, 1, s[0] - DIGIT_ZERO)
    } else if !digit_at(s, 2) {
        whole_number(s, 2, (s[0] - DIGIT_ZERO) * 10 + (s[1] - DIGIT_ZERO))
    } else if !digit_at(s, 3) {
        whole_number(
            s,
            3,
            (s[0] - DIGIT_ZERO) * 100 + (s[1] - DIGIT_ZERO) * 10 + (s[2] - DIGIT_ZERO),
        )
    } else {
        None
    }
}

/// A value in front of what a reader of lists yields.
pub open spec fn with_item<T>(front: T, read: Option<(Seq<T>, Seq<u8>)>) -> Option<
    (Seq<T>, Seq<u8>),
> {
    match read {
        Some((more, rest)) => Some((seq![front] + more, rest)),
        None => None,
    }
}

/// The elements of a JSON array, the opening bracket already taken and one
/// element at least to come, up to the closing bracket.
pub open spec fn items_in<T>(
    element: spec_fn(Seq<u8>) -> Option<(T, Seq<u8>)>,
    s: Seq<u8>,
) -> Option<(Seq<T>, Seq<u8>)>
    decreases s.len(),
{
    match element(s) {
        None => None,
        Some((item, after)) => {
            let then = skip_space(after);
            if starts_with(then, CLOSE_BRACKET) {
                Some((seq![item], then.skip(1)))
            } else if starts_with(then, COMMA) {
                let next = skip_space(then.skip(1));
                if next.len() < s.len() {
                    with_item(item, items_in(element, next))
                } else {
                    None
                }
            } else {
                None
            }
        },
    }
}

/// The elements of the JSON array at the start of the input.
pub open spec fn array_in<T>(
    element: spec_fn(Seq<u8>) -> Option<(T, Seq<u8>)>,
    s: Seq<u8>,
) -> Option<(Seq<T>, Seq<u8>)> {
    if starts_with(s, OPEN_BRACKET) {
        let inner = skip_space(s.skip(1));
        if starts_with(inner, CLOSE_BRACKET) {
            Some((Seq::empty(), inner.skip(1)))
        } else {
            items_in(element, inner)
        }
    } else {
        None
    }
}

/// The reader of one text.
pub open spec fn string_element() -> spec_fn(Seq<u8>) -> Option<(Seq<char>, Seq<u8>)> {
    |s: Seq<u8>| string_in(s)
}

/// The reader of one byte.
pub open spec fn byte_element() -> spec_fn(Seq<u8>) -> Option<(u8, Seq<u8>)> {
    |s: Seq<u8>| byte_in(s)
}

/// The reader of one list of texts.
pub open spec fn string_list_element() -> spec_fn(Seq<u8>) -> Option<(Seq<Seq<char>>, Seq<u8>)> {
    |s: Seq<u8>| string_list_in(s)
}

/// The reader of one list of texts that may be `null`.
pub open spec fn optional_string_list_element() -> spec_fn(Seq<u8>) -> Option<
    (Option<Seq<Seq<char>>>, Seq<u8>),
> {
    |s: Seq<u8>| optional_string_list_in(s)
}

/// The reader of one pair of texts.
pub open spec fn pair_element() -> spec_fn(Seq<u8>) -> Option<((Seq<char>, Seq<char>), Seq<u8>)> {
    |s: Seq<u8>| pair_in(s)
}

/// The first text of a JSON array of two elements at the start of the input,
/// and the start of the second element.
pub open spec fn first_of_two_in(s: Seq<u8>) -> Option<(Seq<char>, Seq<u8>)> {
    if starts_with(s, OPEN_BRACKET) {
        match string_in(skip_space(s.skip(1))) {
            None => None,
            Some((first, after)) => {
                let then = skip_space(after);
                if starts_with(then, COMMA) {
                    Some((first, skip_space(then.skip(1))))
                } else {
                    None
                }
            },
        }
    } else {
        None
    }
}

/// What follows the closing bracket at the start of the input, white space
/// aside.
pub open spec fn bracket_end_in(s: Seq<u8>) -> Option<Seq<u8>> {
    let end = skip_space(s);
    if starts_with(end, CLOSE_BRACKET) {
        Some(end.skip(1))
    } else {
        None
    }
}

/// The two values of a JSON array of two elements at the start of the input:
/// a text, and then what `second` reads.
pub open spec fn two_in<T>(
    second: spec_fn(Seq<u8>) -> Option<(T, Seq<u8>)>,
    s: Seq<u8>,
) -> Option<((Seq<char>, T), Seq<u8>)> {
    match first_of_two_in(s) {
        None => None,
        Some((first, start)) => match second(start) {
            None => None,
            Some((value, last)) => match bracket_end_in(last) {
                Some(rest) => Some(((first, value), rest)),
                None => None,
            },
        },
    }
}

/// The pair of texts at the start of the input.
pub open spec fn pair_in(s: Seq<u8>) -> Option<((Seq<char>, Seq<char>), Seq<u8>)> {
    two_in(string_element(), s)
}

/// The list of texts at the start of the input.
pub open spec fn string_list_in(s: Seq<u8>) -> Option<(Seq<Seq<char>>, Seq<u8>)> {
    array_in(string_element(), s)
}

/// The list of pairs of texts at the start of the input.
pub open spec fn pair_list_in(s: Seq<u8>) -> Option<(Seq<(Seq<char>, Seq<char>)>, Seq<u8>)> {
    array_in(pair_element(), s)
}

/// The list of bytes at the start of the input.
pub open spec fn byte_list_in(s: Seq<u8>) -> Option<(Seq<u8>, Seq<u8>)> {
    array_in(byte_element(), s)
}

/// The list of texts at the start of the input, or nothing where the input
/// starts with `null`.
pub open spec fn optional_string_list_in(s: Seq<u8>) -> Option<
    (Option<Seq<Seq<char>>>, Seq<u8>),
> {
    if s.len() >= 4 && s.take(4) == null_text() {
        Some((None, s.skip(4)))
    } else {
        match string_list_in(s) {
            Some((list, rest)) => Some((Some(list), rest)),
            None => None,
        }
    }
}

/// The key and the start of the value of the JSON object at the start of the
/// input, white space aside.
pub open spec fn tag_in(s: Seq<u8>) -> Option<(Seq<char>, Seq<u8>)> {
    let start = skip_space(s);
    if starts_with(start, OPEN_BRACE) {
        match string_in(skip_space(start.skip(1))) {
            None => None,
            Some((tag, after)) => {
                let then = skip_space(after);
                if starts_with(then, COLON) {
                    Some((tag, skip_space(then.skip(1))))
                } else {
                    None
                }
            },
        }
    } else {
        None
    }
}

/// Whether the input closes a JSON object and ends, white space aside.
pub open spec fn closes(s: Seq<u8>) -> bool {
    let end = skip_space(s);
    starts_with(end, CLOSE_BRACE) && skip_space(end.skip(1)).len() == 0
}

} // verus!
