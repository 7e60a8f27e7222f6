//! Hexadecimal, by the hex crate.

use vstd::prelude::*;
use vstd::string::*;

use crate::text::{push_decimal, quote_char};

verus! {

/// Why a text is not hexadecimal.
#[derive(Debug, Clone, Copy, PartialEq, Eq, Structural)]
pub enum HexError {
    /// A byte of the text is no hexadecimal digit; `c` is the character with
    /// that byte's number.
    InvalidCharacter { c: char, index: usize },
    /// Two digits make a byte.
    OddLength,
    /// The text does not fill the space that it was to fill.
    InvalidLength,
}

/// The value of a hexadecimal digit.
pub open spec fn digit(b: u8) -> Option<nat> {
    if 0x30 <= b <= 0x39 {
        Some((b - 0x30) as nat)
    } else if 0x41 <= b <= 0x46 {
        Some((b - 0x41 + 10) as nat)
    } else if 0x61 <= b <= 0x66 {
        Some((b - 0x61 + 10) as nat)
    } else {
        None
    }
}

/// The first byte that is no hexadecimal digit, or the length of the text.
pub open spec fn first_bad(s: Seq<u8>) -> int
    decreases s.len(),
{
    if s.len() == 0 || digit(s[0]) is None {
        0
    } else {
        1 + first_bad(s.drop_first())
    }
}

/// The bytes that hexadecimal digits spell, two digits each.
pub open spec fn spelt(s: Seq<u8>) -> Seq<u8> {
    Seq::new(s.len() / 2, |i: int| (digit(s[2 * i])->0 * 16 + digit(s[2 * i + 1])->0) as u8)
}

/// What decoding gives.
pub open spec fn hex_decoded(s: Seq<u8>) -> Result<Seq<u8>, HexError> {
    if s.len() % 2 != 0 {
        Err(HexError::OddLength)
    } else if first_bad(s) < s.len() {
        Err(
            HexError::InvalidCharacter {
                c: s[first_bad(s)] as char,
                index: first_bad(s) as usize,
            },
        )
    } else {
        Ok(spelt(s))
    }
}

/// What decoding a text gives.
pub open spec fn unhexed(text: Seq<char>) -> Result<Seq<u8>, HexError> {
    hex_decoded(vstd::utf8::encode_utf8(text))
}

/// The lower-case hexadecimal digit for a number below sixteen.
pub open spec fn hex_digit(n: nat) -> char {
    if n < 10 {
        (0x30 + n) as char
    } else {
        (0x61 + n - 10) as char
    }
}

/// Bytes in lower-case hexadecimal.
pub open spec fn hexed(bytes: Seq<u8>) -> Seq<char> {
    Seq::new(
        2 * bytes.len(),
        |i: int|
            if i % 2 == 0 {
                hex_digit((bytes[i / 2] / 16) as nat)
            } else {
                hex_digit((bytes[i / 2] % 16) as nat)
            },
    )
}

/// `hex::decode`: two digits of either case make a byte; an odd number of bytes
/// is refused, and so is the first byte that is no digit.
#[verifier::external_body]
pub(crate) fn decode(text: &str) -> (r: Result<Vec<u8>, HexError>)
    ensures
        match r {
            Ok(bytes) => unhexed(text@) == Ok::<Seq<u8>, HexError>(bytes@),
            Err(e) => unhexed(text@) == Err::<Seq<u8>, HexError>(e),
        },
{
    match hex::decode(text) {
        Ok(bytes) => Ok(bytes),
        Err(hex::FromHexError::InvalidHexCharacter { c, index }) => Err(
            HexError::InvalidCharacter { c, index },
        ),
        Err(hex::FromHexError::OddLength) => Err(HexError::OddLength),
        Err(hex::FromHexError::InvalidStringLength) => Err(HexError::InvalidLength),
    }
}

/// `hex::encode`: each byte as two lower-case digits.
#[verifier::external_body]
pub(crate) fn encode(bytes: &[u8]) -> (r: String)
    ensures
        r@ == hexed(bytes@),
{
    hex::encode(bytes)
}

impl HexError {
    /// The error in words.
    pub open spec fn words(self) -> Seq<char> {
        match self {
            HexError::InvalidCharacter { c, index } => "Invalid character "@
                + crate::text::quoted_char(c) + " at position "@ + crate::text::decimal(
                index as nat,
            ),
            HexError::OddLength => "Odd number of digits"@,
            HexError::InvalidLength => "Invalid string length"@,
        }
    }

    pub fn message(&self) -> (r: String)
        ensures
            r@ == self.words(),
    {
        match self {
            HexError::InvalidCharacter { c, index } => {
                let mut out = String::from_str("Invalid character ");
                out.append(quote_char(*c).as_str());
                out.append(" at position ");
                push_decimal(&mut out, *index as u64);
                out
            },
            HexError::OddLength => String::from_str("Odd number of digits"),
            HexError::InvalidLength => String::from_str("Invalid string length"),
        }
    }
}

pub proof fn lemma_first_bad(s: Seq<u8>)
    ensures
        0 <= first_bad(s) <= s.len(),
        first_bad(s) < s.len() ==> digit(s[first_bad(s)]) is None,
        forall|i: int| 0 <= i < first_bad(s) ==> digit(#[trigger] s[i]) is Some,
    decreases s.len(),
{
    if s.len() > 0 && digit(s[0]) is Some {
        lemma_first_bad(s.drop_first());
        assert forall|i: int| 0 <= i < first_bad(s) implies digit(#[trigger] s[i]) is Some by {
            if i > 0 {
                assert(s.drop_first()[i - 1] == s[i]);
            }
        }
    }
}

/// Every character of hexadecimal text is a lower-case digit.
pub proof fn lemma_hexed_chars(bytes: Seq<u8>)
    ensures
        forall|i: int|
            0 <= i < hexed(bytes).len() ==> ('0' <= #[trigger] hexed(bytes)[i] <= '9' || 'a'
                <= hexed(bytes)[i] <= 'f'),
{
    assert forall|i: int| 0 <= i < hexed(bytes).len() implies ('0' <= #[trigger] hexed(bytes)[i]
        <= '9' || 'a' <= hexed(bytes)[i] <= 'f') by {
        let b = bytes[i / 2];
        assert((b / 16) < 16 && (b % 16) < 16);
    }
}

/// Decoding what was encoded gives the bytes back.
pub proof fn law_decode_inverts_encode(bytes: Seq<u8>)
    ensures
        unhexed(hexed(bytes)) == Ok::<Seq<u8>, HexError>(bytes),
{
    let text = hexed(bytes);
    let s = vstd::utf8::encode_utf8(text);
    lemma_hexed_chars(bytes);
    assert(vstd::utf8::is_ascii_chars(text));
    vstd::utf8::is_ascii_chars_encode_utf8(text);
    assert(s =~= Seq::new(text.len(), |i: int| text[i] as u8));
    assert forall|i: int| 0 <= i < s.len() implies digit(#[trigger] s[i]) is Some by {
        assert(s[i] == text[i] as u8);
        let c = text[i];
        assert('0' <= c <= '9' || 'a' <= c <= 'f');
    }
    lemma_first_bad(s);
    assert forall|i: int| 0 <= i < bytes.len() implies #[trigger] spelt(s)[i] == bytes[i] by {
        let b = bytes[i];
        assert(text[2 * i] == hex_digit((b / 16) as nat));
        assert(text[2 * i + 1] == hex_digit((b % 16) as nat));
        assert(s[2 * i] == text[2 * i] as u8);
        assert(s[2 * i + 1] == text[2 * i + 1] as u8);
    }
    assert(spelt(s) =~= bytes);
}

} // verus!
