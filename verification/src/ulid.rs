use vstd::prelude::*;
use vstd::string::StringExecFns;
use vstd::utf8::{
    encode_utf8, is_ascii_chars, is_ascii_chars_encode_utf8, encode_scalar, char_is_scalar,
    has_width_1_encoding, has_width_2_encoding, has_width_3_encoding, leading_byte_width_2,
    leading_byte_width_3, leading_byte_width_4,
};

verus! {

/// True of the bytes the suffix codec's base-32 alphabet accepts: the digits,
/// and the letters in either case except `I`, `L`, `O` and `U`.
pub open spec fn is_ulid_byte(b: u8) -> bool {
    ||| ('0' as u8 <= b && b <= '9' as u8)
    ||| ('A' as u8 <= b && b <= 'Z' as u8 && b != 'I' as u8 && b != 'L' as u8 && b != 'O' as u8
        && b != 'U' as u8)
    ||| ('a' as u8 <= b && b <= 'z' as u8 && b != 'i' as u8 && b != 'l' as u8 && b != 'o' as u8
        && b != 'u' as u8)
}

/// True of the characters of the suffix alphabet: the ASCII characters whose
/// byte is in the alphabet.
pub open spec fn is_ulid_char(c: char) -> bool {
    (c as u32) < 128 && is_ulid_byte(c as u8)
}

/// True of the byte sequences the suffix codec decodes: exactly 26 bytes,
/// each from the alphabet.
pub open spec fn valid_ulid_bytes(b: Seq<u8>) -> bool {
    b.len() == 26 && forall|i: int| 0 <= i < b.len() ==> is_ulid_byte(#[trigger] b[i])
}

/// True of the character sequences the suffix codec decodes: exactly 26
/// characters, each from the alphabet.
pub open spec fn valid_suffix_chars(t: Seq<char>) -> bool {
    t.len() == 26 && forall|i: int| 0 <= i < t.len() ==> is_ulid_char(#[trigger] t[i])
}

/// The canonical 26-character text of a 128-bit suffix value, as the suffix
/// codec renders it.
pub uninterp spec fn ulid_text_of(v: u128) -> Seq<char>;

/// The 128-bit value the suffix codec reads from a 26-byte text over its
/// alphabet.
pub uninterp spec fn ulid_value_of(b: Seq<u8>) -> u128;

/// The error a failed suffix decode reports.
#[derive(Debug, Clone, Copy, PartialEq, Eq, Structural)]
pub enum DecodeError {
    /// The text is not exactly 26 bytes long.
    InvalidLength,
    /// A byte of the text is outside the alphabet.
    InvalidChar,
}

/// An immutable 128-bit time-ordered unique value with a fixed 26-character
/// canonical text encoding.
#[derive(Debug, Clone, Copy, PartialEq, Eq, Hash, Structural)]
pub struct Ulid {
    value: u128,
}

impl View for Ulid {
    type V = u128;

    closed spec fn view(&self) -> u128 {
        self.value
    }
}

/// Relies on ulid::Ulid::generate: draws a fresh value from the clock and the
/// process's randomness; nothing is promised of the value itself.
#[verifier::external_body]
fn ulid_generate() -> u128 {
    ulid::Ulid::generate().0
}

/// Relies on ulid::Ulid::to_string (base-32 encode): the text is always
/// exactly 26 characters drawn from the codec's ASCII alphabet, it depends on
/// the value alone, and decoding it gives the value back.
#[verifier::external_body]
fn ulid_encode(v: u128) -> (r: String)
    ensures
        r@ == ulid_text_of(v),
        r@.len() == 26,
        valid_ulid_bytes(encode_utf8(r@)),
        ulid_value_of(encode_utf8(r@)) == v,
{
    ulid::Ulid(v).to_string()
}

/// Relies on ulid::Ulid::from_string (base-32 decode): it fails with
/// InvalidLength when the text is not exactly 26 bytes, with InvalidChar when
/// a byte of a 26-byte text is outside the alphabet, and otherwise returns
/// the decoded value, which depends on the text alone.
#[verifier::external_body]
fn ulid_decode(s: &str) -> (r: Result<u128, DecodeError>)
    ensures
        r is Ok <==> valid_ulid_bytes(encode_utf8(s@)),
        r matches Ok(v) ==> v == ulid_value_of(encode_utf8(s@)),
        r matches Err(e) ==> ((e is InvalidLength) <==> encode_utf8(s@).len() != 26),
{
    match ulid::Ulid::from_string(s) {
        Ok(u) => Ok(u.0),
        Err(ulid::DecodeError::InvalidLength) => Err(DecodeError::InvalidLength),
        Err(ulid::DecodeError::InvalidChar) => Err(DecodeError::InvalidChar),
    }
}

/// A character whose code point is below 128 lies in the ASCII range.
proof fn lemma_char_ascii(c: char)
    requires
        (c as u32) < 128,
    ensures
        '\u{0}' <= c && c <= '\u{7f}',
{
}

/// A character in the ASCII range has a code point below 128.
proof fn lemma_char_ascii_rev(c: char)
    requires
        '\u{0}' <= c && c <= '\u{7f}',
    ensures
        (c as u32) < 128,
{
}

/// The encoding of a sequence holding a character outside the ASCII range
/// contains a byte of 128 or more.
proof fn lemma_encode_utf8_high_byte(t: Seq<char>)
    requires
        !is_ascii_chars(t),
    ensures
        exists|i: int|
            0 <= i < encode_utf8(t).len() && #[trigger] encode_utf8(t)[i] >= 128,
    decreases t.len(),
{
    broadcast use char_is_scalar;

    assert(t.len() > 0);
    let c0 = t[0] as u32;
    if c0 >= 128 {
        let first = encode_scalar(c0);
        assert(!has_width_1_encoding(c0));
        if has_width_2_encoding(c0) {
            assert(leading_byte_width_2(c0) >= 128) by (bit_vector);
        } else if has_width_3_encoding(c0) {
            assert(leading_byte_width_3(c0) >= 128) by (bit_vector);
        } else {
            assert(leading_byte_width_4(c0) >= 128) by (bit_vector);
        }
        assert(first.len() >= 1 && first[0] >= 128);
        assert(encode_utf8(t)[0] == first[0]);
        assert(0 <= 0 < encode_utf8(t).len() && encode_utf8(t)[0] >= 128);
    } else {
        let rest = t.drop_first();
        assert(!is_ascii_chars(rest)) by {
            if is_ascii_chars(rest) {
                assert forall|i: int| 0 <= i < t.len() implies '\u{0}' <= #[trigger] t[i]
                    && t[i] <= '\u{7f}' by {
                    if i == 0 {
                        lemma_char_ascii(t[0]);
                    } else {
                        assert(rest[i - 1] == t[i]);
                    }
                }
            }
        }
        lemma_encode_utf8_high_byte(rest);
        let j = choose|j: int|
            0 <= j < encode_utf8(rest).len() && #[trigger] encode_utf8(rest)[j] >= 128;
        assert(encode_scalar(c0).len() == 1);
        assert(encode_utf8(t)[j + 1] == encode_utf8(rest)[j]);
    }
}

/// The suffix codec accepts the bytes of a text exactly when it accepts its
/// characters: its alphabet is ASCII, so a valid text is ASCII and its bytes
/// are its characters.
pub proof fn lemma_valid_ulid_bytes_iff_chars(t: Seq<char>)
    ensures
        valid_ulid_bytes(encode_utf8(t)) <==> valid_suffix_chars(t),
{
    if valid_suffix_chars(t) {
        assert(is_ascii_chars(t)) by {
            assert forall|i: int| 0 <= i < t.len() implies '\u{0}' <= #[trigger] t[i] && t[i]
                <= '\u{7f}' by {
                assert(is_ulid_char(t[i]));
                lemma_char_ascii(t[i]);
            }
        }
        is_ascii_chars_encode_utf8(t);
        assert forall|i: int| 0 <= i < encode_utf8(t).len() implies is_ulid_byte(
            #[trigger] encode_utf8(t)[i],
        ) by {
            assert(is_ulid_char(t[i]));
            assert(encode_utf8(t)[i] == t[i] as u8);
        }
    }
    if valid_ulid_bytes(encode_utf8(t)) {
        if !is_ascii_chars(t) {
            lemma_encode_utf8_high_byte(t);
            let i = choose|i: int|
                0 <= i < encode_utf8(t).len() && #[trigger] encode_utf8(t)[i] >= 128;
            assert(is_ulid_byte(encode_utf8(t)[i]));
            assert(false);
        }
        is_ascii_chars_encode_utf8(t);
        assert(t.len() == 26);
        assert forall|i: int| 0 <= i < t.len() implies is_ulid_char(#[trigger] t[i]) by {
            assert(encode_utf8(t)[i] == t[i] as u8);
            assert(is_ulid_byte(t[i] as u8));
            lemma_char_ascii_rev(t[i]);
        }
    }
}

/// Two suffix values with the same 128-bit value are the same value.
pub proof fn lemma_ulid_eq(a: Ulid, b: Ulid)
    requires
        a@ == b@,
    ensures
        a == b,
{
}

impl Ulid {
    /// Draws a fresh suffix value, capturing the current time and fresh
    /// randomness.
    pub fn new() -> Ulid {
        Ulid { value: ulid_generate() }
    }

    /// Decodes the 26-character canonical text form of a suffix value. The
    /// decode fails exactly on texts that are not 26 characters of the
    /// codec's alphabet.
    pub fn from_str(s: &str) -> (r: Result<Ulid, DecodeError>)
        ensures
            r is Ok <==> valid_suffix_chars(s@),
            r matches Ok(u) ==> u@ == ulid_value_of(encode_utf8(s@)),
            r matches Err(e) ==> ((e is InvalidLength) <==> encode_utf8(s@).len() != 26),
    {
        proof {
            lemma_valid_ulid_bytes_iff_chars(s@);
        }
        match ulid_decode(s) {
            Ok(v) => Ok(Ulid { value: v }),
            Err(e) => Err(e),
        }
    }

    /// The name the schema description advertises for this type.
    pub fn schema_name() -> (r: String)
        ensures
            r@ == "Ulid"@,
    {
        String::from_str("Ulid")
    }

    /// Renders the canonical 26-character text form, deterministically from
    /// the value; decoding it gives the value back.
    pub fn render(&self) -> (r: String)
        ensures
            r@ == ulid_text_of(self@),
            valid_suffix_chars(r@),
            ulid_value_of(encode_utf8(r@)) == self@,
    {
        let r = ulid_encode(self.value);
        proof {
            lemma_valid_ulid_bytes_iff_chars(r@);
        }
        r
    }
}

} // verus!
