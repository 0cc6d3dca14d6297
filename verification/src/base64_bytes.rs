//! Bytes as base64 text, for payloads that travel as JSON.

use vstd::prelude::*;

verus! {

/// The character that stands for six bits.
pub open spec fn base64_char(bits: int) -> char {
    if bits < 26 {
        (65 + bits) as char
    } else if bits < 52 {
        (71 + bits) as char
    } else if bits < 62 {
        (bits - 4) as char
    } else if bits == 62 {
        '+'
    } else {
        '/'
    }
}

/// Three bytes as four characters.
pub open spec fn base64_group(a: int, b: int, c: int) -> Seq<char> {
    seq![
        base64_char(a / 4),
        base64_char(a % 4 * 16 + b / 16),
        base64_char(b % 16 * 4 + c / 64),
        base64_char(c % 64),
    ]
}

/// Bytes in standard base64 with padding.
pub open spec fn base64_form(data: Seq<u8>) -> Seq<char>
    decreases data.len(),
{
    if data.len() == 0 {
        Seq::empty()
    } else if data.len() == 1 {
        base64_group(data[0] as int, 0, 0).take(2) + seq!['=', '=']
    } else if data.len() == 2 {
        base64_group(data[0] as int, data[1] as int, 0).take(3) + seq!['=']
    } else {
        base64_group(data[0] as int, data[1] as int, data[2] as int) + base64_form(data.skip(3))
    }
}

/// Whether a text is standard base64 with padding.
pub open spec fn is_base64(text: Seq<char>) -> bool {
    exists|data: Seq<u8>| #[trigger] base64_form(data) == text
}

/// A text that is not standard base64 with padding.
#[derive(Clone, Copy, Debug, PartialEq, Eq, Structural)]
pub struct InvalidBase64;

/// Encodes: `base64::engine::general_purpose::STANDARD.encode`, which groups the
/// bytes by three and pads the last group.
#[verifier::external_body]
fn encode_standard(data: &[u8]) -> (text: String)
    ensures
        text@ == base64_form(data@),
{
    base64::Engine::encode(&base64::engine::general_purpose::STANDARD, data)
}

/// Decodes: `base64::engine::general_purpose::STANDARD.decode`, which takes the
/// canonical form alone: all the padding, and no bits left over.
#[verifier::external_body]
fn decode_standard(text: &str) -> (data: Option<Vec<u8>>)
    ensures
        match data {
            Some(bytes) => base64_form(bytes@) == text@,
            None => !is_base64(text@),
        },
{
    base64::Engine::decode(&base64::engine::general_purpose::STANDARD, text).ok()
}

/// The base64 text of some bytes.
pub fn serialize(data: &[u8]) -> (text: String)
    ensures
        text@ == base64_form(data@),
{
    encode_standard(data)
}

/// Whether a result is what a base64 text stands for.
pub open spec fn is_deserialized(text: Seq<char>, result: Result<Vec<u8>, InvalidBase64>) -> bool {
    match result {
        Ok(bytes) => base64_form(bytes@) == text,
        Err(_) => !is_base64(text),
    }
}

/// The bytes of a base64 text.
pub fn deserialize(text: &str) -> (result: Result<Vec<u8>, InvalidBase64>)
    ensures
        is_deserialized(text@, result),
{
    match decode_standard(text) {
        Some(bytes) => Ok(bytes),
        None => Err(InvalidBase64),
    }
}

proof fn lemma_char_tells_bits_apart(x: int, y: int)
    requires
        0 <= x < 64,
        0 <= y < 64,
        base64_char(x) == base64_char(y),
    ensures
        x == y,
        base64_char(x) != '=',
{
}

proof fn lemma_char_is_no_padding(bits: int)
    requires
        0 <= bits < 64,
    ensures
        base64_char(bits) != '=',
{
}

proof fn lemma_group_tells_bytes_apart(a: int, b: int, c: int, x: int, y: int, z: int)
    requires
        0 <= a < 256 && 0 <= b < 256 && 0 <= c < 256,
        0 <= x < 256 && 0 <= y < 256 && 0 <= z < 256,
    ensures
        base64_group(a, b, c).take(2) == base64_group(x, y, z).take(2) && b / 16 == y / 16 ==> a
            == x,
        base64_group(a, b, c).take(3) == base64_group(x, y, z).take(3) && c / 64 == z / 64 ==> a
            == x && b == y,
        base64_group(a, b, c) == base64_group(x, y, z) ==> a == x && b == y && c == z,
        base64_group(a, b, c)[2] != '=',
        base64_group(a, b, c)[3] != '=',
{
    let left = base64_group(a, b, c);
    let right = base64_group(x, y, z);
    lemma_char_is_no_padding(b % 16 * 4 + c / 64);
    lemma_char_is_no_padding(c % 64);
    if left[0] == right[0] {
        lemma_char_tells_bits_apart(a / 4, x / 4);
    }
    if left[1] == right[1] {
        lemma_char_tells_bits_apart(a % 4 * 16 + b / 16, x % 4 * 16 + y / 16);
    }
    if left[2] == right[2] {
        lemma_char_tells_bits_apart(b % 16 * 4 + c / 64, y % 16 * 4 + z / 64);
    }
    if left[3] == right[3] {
        lemma_char_tells_bits_apart(c % 64, z % 64);
    }
    assert(left.take(2)[0] == left[0] && left.take(2)[1] == left[1]);
    assert(right.take(2)[0] == right[0] && right.take(2)[1] == right[1]);
    assert(left.take(3)[0] == left[0] && left.take(3)[1] == left[1] && left.take(3)[2] == left[2]);
    assert(right.take(3)[0] == right[0] && right.take(3)[1] == right[1] && right.take(3)[2]
        == right[2]);
}

/// Two byte strings with the same base64 text are the same.
pub proof fn law_base64_tells_bytes_apart(a: Seq<u8>, b: Seq<u8>)
    requires
        base64_form(a) == base64_form(b),
    ensures
        a == b,
    decreases a.len(),
{
    let text = base64_form(a);
    let byte = |data: Seq<u8>, i: int|
        if i < data.len() {
            data[i] as int
        } else {
            0
        };
    lemma_group_tells_bytes_apart(
        byte(a, 0),
        byte(a, 1),
        byte(a, 2),
        byte(b, 0),
        byte(b, 1),
        byte(b, 2),
    );
    lemma_group_tells_bytes_apart(
        byte(b, 0),
        byte(b, 1),
        byte(b, 2),
        byte(a, 0),
        byte(a, 1),
        byte(a, 2),
    );
    let left = base64_group(byte(a, 0), byte(a, 1), byte(a, 2));
    let right = base64_group(byte(b, 0), byte(b, 1), byte(b, 2));
    if a.len() == 1 && b.len() == 1 {
        assert(left.take(2) =~= text.take(2));
        assert(right.take(2) =~= text.take(2));
        assert(a =~= b);
    } else if a.len() == 2 && b.len() == 2 {
        assert(left.take(3) =~= text.take(3));
        assert(right.take(3) =~= text.take(3));
        assert(a =~= b);
    } else if a.len() >= 3 && b.len() >= 3 {
        assert(left =~= text.take(4));
        assert(right =~= text.take(4));
        assert(base64_form(a.skip(3)) =~= text.skip(4));
        assert(base64_form(b.skip(3)) =~= text.skip(4));
        law_base64_tells_bytes_apart(a.skip(3), b.skip(3));
        assert forall|i: int| 0 <= i < a.len() implies a[i] == b[i] by {
            if i >= 3 {
                assert(a[i] == a.skip(3)[i - 3]);
                assert(b[i] == b.skip(3)[i - 3]);
            }
        }
        assert(a.len() == a.skip(3).len() + 3);
        assert(a =~= b);
    } else if a.len() == 0 || b.len() == 0 {
        assert(a =~= b);
    } else {
        let short = if a.len() < b.len() {
            a
        } else {
            b
        };
        if short.len() == 1 {
            assert(text[2] == '=');
        } else {
            assert(text[3] == '=');
        }
        if a.len() < b.len() {
            if b.len() == 2 {
                assert(text[2] == right[2]);
            } else {
                assert(text[2] == right[2] && text[3] == right[3]);
            }
        } else {
            if a.len() == 2 {
                assert(text[2] == left[2]);
            } else {
                assert(text[2] == left[2] && text[3] == left[3]);
            }
        }
        assert(false);
    }
}

/// Reading back what was written gives the bytes.
pub proof fn law_deserialize_undoes_serialize(data: Seq<u8>, result: Result<Vec<u8>, InvalidBase64>)
    requires
        is_deserialized(base64_form(data), result),
    ensures
        result is Ok,
        result->Ok_0@ == data,
{
    assert(is_base64(base64_form(data)));
    law_base64_tells_bytes_apart(result->Ok_0@, data);
}

} // verus!
