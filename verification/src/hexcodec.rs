//! Lowercase hexadecimal text, as produced and accepted by the `hex` crate.

use vstd::prelude::*;

verus! {

/// The lowercase hexadecimal digit for a value below sixteen.
pub open spec fn hex_digit(v: u8) -> char {
    if v == 0 { '0' } else if v == 1 { '1' } else if v == 2 { '2' } else if v == 3 { '3' }
    else if v == 4 { '4' } else if v == 5 { '5' } else if v == 6 { '6' } else if v == 7 { '7' }
    else if v == 8 { '8' } else if v == 9 { '9' } else if v == 10 { 'a' } else if v == 11 { 'b' }
    else if v == 12 { 'c' } else if v == 13 { 'd' } else if v == 14 { 'e' } else { 'f' }
}

/// Each byte becomes two lowercase digits, high nibble first.
pub open spec fn hex_encode_spec(data: Seq<u8>) -> Seq<char>
    decreases data.len(),
{
    if data.len() == 0 {
        Seq::empty()
    } else {
        seq![hex_digit(data[0] / 16), hex_digit(data[0] % 16)] + hex_encode_spec(data.skip(1))
    }
}

/// The value of one hexadecimal digit byte; both cases are accepted.
pub open spec fn hex_value(b: u8) -> Option<u8> {
    if 48 <= b <= 57 {
        Some((b - 48) as u8)
    } else if 97 <= b <= 102 {
        Some((b - 87) as u8)
    } else if 65 <= b <= 70 {
        Some((b - 55) as u8)
    } else {
        None
    }
}

/// Pairs of digits become bytes; an odd length or a non-digit byte is refused.
pub open spec fn hex_decode_spec(text: Seq<u8>) -> Option<Seq<u8>>
    decreases text.len(),
{
    if text.len() == 0 {
        Some(Seq::empty())
    } else if text.len() == 1 {
        None
    } else {
        match (hex_value(text[0]), hex_value(text[1]), hex_decode_spec(text.skip(2))) {
            (Some(hi), Some(lo), Some(rest)) => Some(seq![(hi * 16 + lo) as u8] + rest),
            _ => None,
        }
    }
}

/// The bytes of a text made only of ASCII characters.
pub open spec fn ascii_bytes(text: Seq<char>) -> Seq<u8> {
    Seq::new(text.len(), |i: int| text[i] as u8)
}

pub proof fn lemma_hex_encode_len(data: Seq<u8>)
    ensures
        hex_encode_spec(data).len() == 2 * data.len(),
        vstd::utf8::is_ascii_chars(hex_encode_spec(data)),
    decreases data.len(),
{
    if data.len() > 0 {
        lemma_hex_encode_len(data.skip(1));
        let head = seq![hex_digit(data[0] / 16), hex_digit(data[0] % 16)];
        let whole = hex_encode_spec(data);
        assert forall|i| 0 <= i < whole.len() implies '\0' <= #[trigger] whole[i] <= '\u{7f}' by {
            if i >= 2 {
                assert(whole[i] == hex_encode_spec(data.skip(1))[i - 2]);
            }
        }
    }
}

/// Every character is a lowercase hexadecimal digit.
pub open spec fn is_lower_hex(text: Seq<char>) -> bool {
    forall|i: int| 0 <= i < text.len() ==> ('0' <= #[trigger] text[i] <= '9' || 'a' <= text[i] <= 'f')
}

/// The encoding is made of lowercase hexadecimal digits only.
pub proof fn lemma_hex_encode_lower(data: Seq<u8>)
    ensures
        is_lower_hex(hex_encode_spec(data)),
    decreases data.len(),
{
    if data.len() > 0 {
        lemma_hex_encode_lower(data.skip(1));
        lemma_hex_encode_len(data.skip(1));
        let whole = hex_encode_spec(data);
        assert forall|i: int| 0 <= i < whole.len() implies ('0' <= #[trigger] whole[i] <= '9' || 'a'
            <= whole[i] <= 'f') by {
            if i >= 2 {
                assert(whole[i] == hex_encode_spec(data.skip(1))[i - 2]);
            }
        }
    }
}

/// Each byte's two digits stand at twice its position.
pub proof fn lemma_hex_encode_index(data: Seq<u8>, k: int)
    requires
        0 <= k < data.len(),
    ensures
        hex_encode_spec(data).len() == 2 * data.len(),
        hex_encode_spec(data)[2 * k] == hex_digit(data[k] / 16),
        hex_encode_spec(data)[2 * k + 1] == hex_digit(data[k] % 16),
    decreases k,
{
    lemma_hex_encode_len(data);
    lemma_hex_encode_len(data.skip(1));
    let whole = hex_encode_spec(data);
    let rest = hex_encode_spec(data.skip(1));
    assert(whole == seq![hex_digit(data[0] / 16), hex_digit(data[0] % 16)] + rest);
    if k > 0 {
        lemma_hex_encode_index(data.skip(1), k - 1);
        assert(data.skip(1)[k - 1] == data[k]);
        assert(whole[2 * k] == rest[2 * (k - 1)]);
        assert(whole[2 * k + 1] == rest[2 * (k - 1) + 1]);
    }
}

proof fn lemma_digit_value(v: u8)
    requires
        0 <= v < 16,
    ensures
        hex_value(hex_digit(v) as u8) == Some(v as u8),
{
}

/// Decoding the encoding of any bytes gives those bytes back.
pub proof fn lemma_hex_roundtrip(data: Seq<u8>)
    ensures
        hex_decode_spec(ascii_bytes(hex_encode_spec(data))) == Some(data),
        hex_decode_spec(vstd::utf8::encode_utf8(hex_encode_spec(data))) == Some(data),
    decreases data.len(),
{
    lemma_hex_encode_len(data);
    let text = hex_encode_spec(data);
    vstd::utf8::is_ascii_chars_encode_utf8(text);
    assert(vstd::utf8::encode_utf8(text) =~= ascii_bytes(text));
    if data.len() > 0 {
        lemma_hex_roundtrip(data.skip(1));
        lemma_hex_encode_len(data.skip(1));
        let rest = hex_encode_spec(data.skip(1));
        assert(ascii_bytes(text).skip(2) =~= ascii_bytes(rest)) by {
            assert forall|i| 0 <= i < rest.len() implies ascii_bytes(text).skip(2)[i] == ascii_bytes(rest)[i] by {
                assert(text[i + 2] == rest[i]);
            }
        }
        lemma_digit_value(data[0] / 16);
        lemma_digit_value(data[0] % 16);
        assert(ascii_bytes(text)[0] == hex_digit(data[0] / 16) as u8);
        assert(ascii_bytes(text)[1] == hex_digit(data[0] % 16) as u8);
        assert(seq![data[0]] + data.skip(1) =~= data);
    } else {
        assert(ascii_bytes(text) =~= Seq::<u8>::empty());
    }
}

/// `hex::encode`: the lowercase hexadecimal text of the bytes.
#[verifier::external_body]
pub(crate) fn hex_encode(data: &[u8]) -> (text: String)
    ensures
        text@ == hex_encode_spec(data@),
{
    hex::encode(data)
}

/// `hex::decode`: the bytes that the hexadecimal text stands for, or nothing
/// where its length is odd or a byte is not a hexadecimal digit.
#[verifier::external_body]
pub(crate) fn hex_decode(text: &[u8]) -> (bytes: Option<Vec<u8>>)
    ensures
        match bytes {
            Some(v) => hex_decode_spec(text@) == Some(v@),
            None => hex_decode_spec(text@) is None,
        },
{
    hex::decode(text).ok()
}

} // verus!
