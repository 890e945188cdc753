//! Reading a JSON array of strings back, as a specification, and the law
//! that reading undoes rendering.
//!
//! The reader takes an array of strings with any white space between its
//! parts. Inside a string it takes the short escapes of JSON and `\u` with
//! four hexadecimal digits for a code point of ASCII, and refuses a raw
//! control character.

use crate::output::{
    json_elements, json_escape, json_escape_byte, json_hex_digit, json_pretty, json_string,
    utf8_of_each,
};
use vstd::prelude::*;
use vstd::utf8::{decode_utf8, encode_utf8, encode_utf8_decode_utf8};

verus! {

/// The white space that may stand between the parts of a JSON text.
pub open spec fn json_is_space(byte: u8) -> bool {
    byte == 0x20 || byte == 0x0a || byte == 0x0d || byte == 0x09
}

/// `bytes` without the white space at its head.
pub open spec fn json_skip_space(bytes: Seq<u8>) -> Seq<u8>
    decreases bytes.len(),
{
    if bytes.len() > 0 && json_is_space(bytes[0]) {
        json_skip_space(bytes.skip(1))
    } else {
        bytes
    }
}

/// The value of a hexadecimal digit, in either case.
pub open spec fn json_hex_value(byte: u8) -> Option<int> {
    if 0x30 <= byte <= 0x39 {
        Some(byte - 0x30)
    } else if 0x61 <= byte <= 0x66 {
        Some(byte - 0x61 + 10)
    } else if 0x41 <= byte <= 0x46 {
        Some(byte - 0x41 + 10)
    } else {
        None
    }
}

/// The code point that four hexadecimal digits spell.
pub open spec fn json_read_hex4(bytes: Seq<u8>) -> Option<int> {
    if bytes.len() < 4 {
        None
    } else {
        match (
            json_hex_value(bytes[0]),
            json_hex_value(bytes[1]),
            json_hex_value(bytes[2]),
            json_hex_value(bytes[3]),
        ) {
            (Some(a), Some(b), Some(c), Some(d)) => Some(((a * 16 + b) * 16 + c) * 16 + d),
            _ => None,
        }
    }
}

/// One escape, read from behind its backslash: the byte it stands for, and
/// how many bytes it takes up.
pub open spec fn json_read_escape(bytes: Seq<u8>) -> Option<(u8, int)> {
    if bytes.len() == 0 {
        None
    } else if bytes[0] == 0x22 || bytes[0] == 0x5c || bytes[0] == 0x2f {
        Some((bytes[0], 1))
    } else if bytes[0] == 0x62 {
        Some((0x08u8, 1))
    } else if bytes[0] == 0x66 {
        Some((0x0cu8, 1))
    } else if bytes[0] == 0x6e {
        Some((0x0au8, 1))
    } else if bytes[0] == 0x72 {
        Some((0x0du8, 1))
    } else if bytes[0] == 0x74 {
        Some((0x09u8, 1))
    } else if bytes[0] == 0x75 {
        match json_read_hex4(bytes.skip(1)) {
            Some(code) => if code < 0x80 {
                Some((code as u8, 5))
            } else {
                None
            },
            None => None,
        }
    } else {
        None
    }
}

/// The rest of a string, read from behind its opening quote: the bytes it
/// stands for, and what follows its closing quote.
pub open spec fn json_read_string_rest(bytes: Seq<u8>) -> Option<(Seq<u8>, Seq<u8>)>
    decreases bytes.len(),
{
    if bytes.len() == 0 {
        None
    } else if bytes[0] == 0x22 {
        Some((Seq::empty(), bytes.skip(1)))
    } else if bytes[0] == 0x5c {
        match json_read_escape(bytes.skip(1)) {
            Some((byte, taken)) => if 1 <= taken && 1 + taken <= bytes.len() {
                match json_read_string_rest(bytes.skip(1 + taken)) {
                    Some((value, rest)) => Some((seq![byte] + value, rest)),
                    None => None,
                }
            } else {
                None
            },
            None => None,
        }
    } else if bytes[0] < 0x20 {
        None
    } else {
        match json_read_string_rest(bytes.skip(1)) {
            Some((value, rest)) => Some((seq![bytes[0]] + value, rest)),
            None => None,
        }
    }
}

/// One string, read from its opening quote.
pub open spec fn json_read_string(bytes: Seq<u8>) -> Option<(Seq<u8>, Seq<u8>)> {
    if bytes.len() > 0 && bytes[0] == 0x22 {
        json_read_string_rest(bytes.skip(1))
    } else {
        None
    }
}

/// The strings of an array, read from the first one to the closing bracket.
/// Nothing but white space may follow the bracket.
pub open spec fn json_read_elements(bytes: Seq<u8>) -> Option<Seq<Seq<u8>>>
    decreases bytes.len(),
{
    match json_read_string(bytes) {
        Some((value, rest)) => {
            let after = json_skip_space(rest);
            if after.len() == 0 || after.len() >= bytes.len() {
                None
            } else if after[0] == 0x2c {
                let next = json_skip_space(after.skip(1));
                if next.len() < bytes.len() {
                    match json_read_elements(next) {
                        Some(values) => Some(seq![value] + values),
                        None => None,
                    }
                } else {
                    None
                }
            } else if after[0] == 0x5d && json_skip_space(after.skip(1)).len() == 0 {
                Some(seq![value])
            } else {
                None
            }
        },
        None => None,
    }
}

/// The strings of a JSON text that is an array of strings, in order. `None`
/// for any other text.
pub open spec fn json_read(bytes: Seq<u8>) -> Option<Seq<Seq<u8>>> {
    if bytes.len() == 0 || bytes[0] != 0x5b {
        None
    } else {
        let inner = json_skip_space(bytes.skip(1));
        if inner.len() > 0 && inner[0] == 0x5d {
            if json_skip_space(inner.skip(1)).len() == 0 {
                Some(Seq::empty())
            } else {
                None
            }
        } else {
            json_read_elements(inner)
        }
    }
}

/// An escaped byte reads back as the byte.
proof fn lemma_read_escaped_byte(byte: u8, tail: Seq<u8>)
    ensures
        json_read_string_rest(json_escape_byte(byte) + tail) == match json_read_string_rest(
            tail,
        ) {
            Some((value, rest)) => Some((seq![byte] + value, rest)),
            None => None::<(Seq<u8>, Seq<u8>)>,
        },
{
    let escaped = json_escape_byte(byte);
    let whole = escaped + tail;
    if byte == 0x22 || byte == 0x5c || byte == 0x08 || byte == 0x09 || byte == 0x0a || byte == 0x0c
        || byte == 0x0d {
        assert(escaped.len() == 2);
        assert(whole[0] == 0x5c);
        assert(whole.skip(1)[0] == escaped[1]);
        assert(whole.skip(2) == tail);
    } else if byte < 0x20 {
        let high = byte as int / 16;
        let low = byte as int % 16;
        assert(escaped.len() == 6);
        assert(whole[0] == 0x5c);
        let behind = whole.skip(1);
        assert(behind[0] == 0x75);
        let digits = behind.skip(1);
        assert(digits[0] == 0x30 && digits[1] == 0x30);
        assert(digits[2] == json_hex_digit(high) && digits[3] == json_hex_digit(low));
        assert(json_hex_value(json_hex_digit(high)) == Some(high));
        assert(json_hex_value(json_hex_digit(low)) == Some(low));
        assert(json_read_hex4(digits) == Some(byte as int));
        assert(whole.skip(6) == tail);
    } else {
        assert(escaped.len() == 1);
        assert(whole[0] == byte);
        assert(whole.skip(1) == tail);
    }
}

/// An escaped string, then a closing quote, reads back as the string.
proof fn lemma_read_string_rest(value: Seq<u8>, tail: Seq<u8>)
    ensures
        json_read_string_rest(json_escape(value) + seq![0x22u8] + tail) == Some((value, tail)),
    decreases value.len(),
{
    let whole = json_escape(value) + seq![0x22u8] + tail;
    if value.len() == 0 {
        assert(whole == seq![0x22u8] + tail);
        assert(whole.skip(1) == tail);
    } else {
        let inner = json_escape(value.drop_first()) + seq![0x22u8] + tail;
        lemma_read_string_rest(value.drop_first(), tail);
        lemma_read_escaped_byte(value.first(), inner);
        assert(whole == json_escape_byte(value.first()) + inner);
        assert(seq![value.first()] + value.drop_first() == value);
    }
}

/// A JSON string, whatever follows it, reads back as the UTF-8 of its secret.
proof fn lemma_read_string(secret: Seq<char>, tail: Seq<u8>)
    ensures
        json_read_string(json_string(secret) + tail) == Some((encode_utf8(secret), tail)),
        json_string(secret).len() >= 2,
{
    let inner = json_escape(encode_utf8(secret)) + seq![0x22u8] + tail;
    let whole = json_string(secret) + tail;
    assert(whole == seq![0x22u8] + inner);
    assert(whole.skip(1) == inner);
    lemma_read_string_rest(encode_utf8(secret), tail);
}

/// What follows the opening bracket of a rendered array that is not empty,
/// once the white space at its head is skipped: the first string, then
/// either the end of the array or a comma and the other elements.
pub open spec fn json_after_first(batch: Seq<Seq<char>>) -> Seq<u8> {
    if batch.len() == 1 {
        seq![0x0au8, 0x5du8]
    } else {
        seq![0x2cu8] + json_elements(batch.drop_first()) + seq![0x0au8, 0x5du8]
    }
}

/// Skipping the line feed and the two spaces in front of the first element
/// leaves the first string and what comes after it.
proof fn lemma_skip_to_first(batch: Seq<Seq<char>>)
    requires
        batch.len() > 0,
    ensures
        json_skip_space(json_elements(batch) + seq![0x0au8, 0x5du8]) == json_string(batch.first())
            + json_after_first(batch),
{
    let end = seq![0x0au8, 0x5du8];
    let target = json_string(batch.first()) + json_after_first(batch);
    let whole = json_elements(batch) + end;
    assert(whole == seq![0x0au8, 0x20u8, 0x20u8] + target);
    assert(whole.skip(1) == seq![0x20u8, 0x20u8] + target);
    assert(whole.skip(1).skip(1) == seq![0x20u8] + target);
    assert(whole.skip(1).skip(1).skip(1) == target);
    assert(target[0] == 0x22);
    reveal_with_fuel(json_skip_space, 4);
}

/// The elements of a rendered array read back as the UTF-8 of the secrets.
proof fn lemma_read_elements(batch: Seq<Seq<char>>)
    requires
        batch.len() > 0,
    ensures
        json_read_elements(json_string(batch.first()) + json_after_first(batch)) == Some(
            utf8_of_each(batch),
        ),
    decreases batch.len(),
{
    let end = seq![0x0au8, 0x5du8];
    let first = json_string(batch.first());
    let tail = json_after_first(batch);
    let whole = first + tail;
    lemma_read_string(batch.first(), tail);
    if batch.len() == 1 {
        assert(tail.skip(1) == seq![0x5du8]);
        assert(json_skip_space(tail) == seq![0x5du8]) by {
            reveal_with_fuel(json_skip_space, 2);
        }
        assert(seq![0x5du8].skip(1).len() == 0);
        assert(utf8_of_each(batch) == seq![encode_utf8(batch.first())]);
    } else {
        let others = batch.drop_first();
        assert(json_skip_space(tail) == tail);
        assert(tail.skip(1) == json_elements(others) + end);
        lemma_skip_to_first(others);
        lemma_read_elements(others);
        let next = json_string(others.first()) + json_after_first(others);
        assert(next.len() <= tail.skip(1).len());
        assert(utf8_of_each(batch) == seq![encode_utf8(batch.first())] + utf8_of_each(others));
    }
}

/// Reading undoes rendering: the JSON file of any batch reads back as one
/// string per secret, in order, each the UTF-8 of its secret, byte for byte.
/// Decoded, each string is the secret itself.
pub proof fn lemma_json_round_trip(batch: Seq<Seq<char>>)
    ensures
        json_read(json_pretty(batch)) == Some(utf8_of_each(batch)),
        forall|i: int|
            0 <= i < batch.len() ==> decode_utf8(#[trigger] utf8_of_each(batch)[i]) == batch[i],
{
    assert forall|i: int| 0 <= i < batch.len() implies decode_utf8(
        #[trigger] utf8_of_each(batch)[i],
    ) == batch[i] by {
        encode_utf8_decode_utf8(batch[i]);
    }
    let text = json_pretty(batch);
    if batch.len() == 0 {
        assert(text.skip(1) == seq![0x5du8]);
        assert(seq![0x5du8].skip(1).len() == 0);
        assert(utf8_of_each(batch) == Seq::<Seq<u8>>::empty());
    } else {
        let inner = json_elements(batch) + seq![0x0au8, 0x5du8];
        assert(text == seq![0x5bu8] + inner);
        assert(text.skip(1) == inner);
        lemma_skip_to_first(batch);
        lemma_read_elements(batch);
        lemma_read_string(batch.first(), json_after_first(batch));
    }
}

} // verus!
