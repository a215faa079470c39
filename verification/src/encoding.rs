//! Byte-level encodings: lower-case hexadecimal text and little-endian
//! 64-bit integers.

use vstd::prelude::*;
use vstd::string::StringExecFns;
use vstd::bytes::{
    lemma_auto_spec_u64_to_from_le_bytes, spec_u64_from_le_bytes, spec_u64_to_le_bytes,
    u64_from_le_bytes, u64_to_le_bytes,
};

verus! {

/// Why a text is not a hexadecimal encoding of bytes.
#[derive(Debug, Clone, Copy, PartialEq, Eq)]
pub enum HexError {
    /// The byte `c` at position `index` is not a hexadecimal digit.
    InvalidHexCharacter { c: char, index: usize },
    /// The text has an odd number of bytes.
    OddLength,
    /// The text does not fit a container of fixed size.
    InvalidStringLength,
}

/// The lower-case hexadecimal digit for a value below 16.
pub open spec fn hex_digit(n: int) -> char {
    seq!['0', '1', '2', '3', '4', '5', '6', '7', '8', '9', 'a', 'b', 'c', 'd', 'e', 'f'][n]
}

/// The lower-case hexadecimal text of `data`: two digits per byte, the high
/// half first.
pub open spec fn hex_string(data: Seq<u8>) -> Seq<char> {
    Seq::new(
        2 * data.len(),
        |i: int|
            if i % 2 == 0 {
                hex_digit(data[i / 2] as int / 16)
            } else {
                hex_digit(data[i / 2] as int % 16)
            },
    )
}

/// The value of the ASCII hexadecimal digit `c`, in either case.
pub open spec fn hex_value(c: u8) -> Option<int> {
    if 0x30 <= c <= 0x39 {
        Some(c - 0x30)
    } else if 0x61 <= c <= 0x66 {
        Some(c - 0x61 + 10)
    } else if 0x41 <= c <= 0x46 {
        Some(c - 0x41 + 10)
    } else {
        None
    }
}

/// `text` is an even number of hexadecimal digits.
pub open spec fn is_hex(text: Seq<u8>) -> bool {
    &&& text.len() % 2 == 0
    &&& forall|i: int| 0 <= i < text.len() ==> (#[trigger] hex_value(text[i])) is Some
}

/// The bytes that the hexadecimal `text` stands for.
pub open spec fn hex_bytes(text: Seq<u8>) -> Seq<u8> {
    Seq::new(
        text.len() / 2,
        |i: int| (hex_value(text[2 * i])->0 * 16 + hex_value(text[2 * i + 1])->0) as u8,
    )
}

/// Position of the first byte of `text` that is no hexadecimal digit.
pub open spec fn first_bad_digit(text: Seq<u8>, index: int) -> bool {
    &&& 0 <= index < text.len()
    &&& hex_value(text[index]) is None
    &&& forall|j: int| 0 <= j < index ==> (#[trigger] hex_value(text[j])) is Some
}

/// Encodes bytes as lower-case hexadecimal text with `hex::encode`.
///
/// Trusted: `hex::encode` writes each byte as two digits taken from
/// `0123456789abcdef`, the high four bits first.
#[verifier::external_body]
pub(crate) fn hex_encode(data: &[u8]) -> (text: String)
    ensures
        text@ == hex_string(data@),
{
    ::hex::encode(data)
}

/// Decodes hexadecimal text with `hex::decode`.
///
/// Trusted: `hex::decode` fails with `OddLength` on an odd number of bytes,
/// else with `InvalidHexCharacter` at the first byte that is no digit (pairs
/// are read in order, the high digit first), else returns one byte per pair.
/// It never returns `InvalidStringLength`.
#[verifier::external_body]
pub(crate) fn hex_decode(text: &[u8]) -> (decoded: Result<Vec<u8>, HexError>)
    ensures
        match decoded {
            Ok(bytes) => is_hex(text@) && bytes@ == hex_bytes(text@),
            Err(HexError::OddLength) => text@.len() % 2 == 1,
            Err(HexError::InvalidHexCharacter { c, index }) => {
                &&& text@.len() % 2 == 0
                &&& first_bad_digit(text@, index as int)
                &&& c == text@[index as int] as char
            },
            Err(HexError::InvalidStringLength) => false,
        },
{
    match ::hex::decode(text) {
        Ok(bytes) => Ok(bytes),
        Err(::hex::FromHexError::InvalidHexCharacter { c, index }) => Err(
            HexError::InvalidHexCharacter { c, index },
        ),
        Err(::hex::FromHexError::OddLength) => Err(HexError::OddLength),
        Err(::hex::FromHexError::InvalidStringLength) => Err(HexError::InvalidStringLength),
    }
}

/// The decimal digit for a value below 10.
pub open spec fn decimal_digit(n: int) -> char {
    seq!['0', '1', '2', '3', '4', '5', '6', '7', '8', '9'][n]
}

/// The decimal digits of a natural number, without leading zeros.
pub open spec fn decimal_digits(n: nat) -> Seq<char>
    decreases n,
{
    if n < 10 {
        seq![decimal_digit(n as int)]
    } else {
        decimal_digits(n / 10).push(decimal_digit((n % 10) as int))
    }
}

/// The decimal text of an integer, with a minus sign where it is negative.
pub open spec fn decimal_string(n: int) -> Seq<char> {
    if n < 0 {
        seq!['-'] + decimal_digits((-n) as nat)
    } else {
        decimal_digits(n as nat)
    }
}

/// The text of one decimal digit.
fn digit_text(digit: u8) -> (text: &'static str)
    requires
        digit < 10,
    ensures
        text@ == seq![decimal_digit(digit as int)],
{
    proof {
        reveal_strlit("0");
        reveal_strlit("1");
        reveal_strlit("2");
        reveal_strlit("3");
        reveal_strlit("4");
        reveal_strlit("5");
        reveal_strlit("6");
        reveal_strlit("7");
        reveal_strlit("8");
        reveal_strlit("9");
    }
    let text = if digit == 0 {
        "0"
    } else if digit == 1 {
        "1"
    } else if digit == 2 {
        "2"
    } else if digit == 3 {
        "3"
    } else if digit == 4 {
        "4"
    } else if digit == 5 {
        "5"
    } else if digit == 6 {
        "6"
    } else if digit == 7 {
        "7"
    } else if digit == 8 {
        "8"
    } else {
        "9"
    };
    assert(text@ =~= seq![decimal_digit(digit as int)]);
    text
}

/// The characters of digit values that were collected from the least
/// significant on, in the order in which they are written.
pub open spec fn written(digits: Seq<u8>) -> Seq<char> {
    Seq::new(digits.len(), |i: int| decimal_digit(digits[digits.len() - 1 - i] as int))
}

/// Prints a natural number in decimal.
pub fn u64_to_string(n: u64) -> (text: String)
    ensures
        text@ == decimal_digits(n as nat),
{
    let mut digits: Vec<u8> = Vec::new();
    let mut rest: u64 = n;
    assert(written(digits@) =~= Seq::<char>::empty());
    while rest >= 10
        invariant
            decimal_digits(n as nat) == decimal_digits(rest as nat) + written(digits@),
            forall|i: int| 0 <= i < digits@.len() ==> #[trigger] digits@[i] < 10,
        decreases rest,
    {
        let ghost before = digits@;
        digits.push((rest % 10) as u8);
        proof {
            assert(written(digits@) =~= seq![decimal_digit((rest % 10) as int)] + written(
                before,
            ));
            assert(decimal_digits(rest as nat) == decimal_digits((rest / 10) as nat).push(
                decimal_digit((rest % 10) as int),
            ));
            assert(decimal_digits(rest as nat) + written(before) =~= decimal_digits(
                (rest / 10) as nat,
            ) + written(digits@));
        }
        rest = rest / 10;
    }
    let ghost before = digits@;
    digits.push(rest as u8);
    proof {
        assert(written(digits@) =~= seq![decimal_digit(rest as int)] + written(before));
        assert(decimal_digits(rest as nat) =~= seq![decimal_digit(rest as int)]);
    }
    let mut text = String::new();
    let mut left: usize = digits.len();
    assert(written(digits@).take(0) =~= Seq::<char>::empty());
    while left > 0
        invariant
            left <= digits@.len(),
            forall|i: int| 0 <= i < digits@.len() ==> #[trigger] digits@[i] < 10,
            text@ == written(digits@).take(digits@.len() - left),
        decreases left,
    {
        left -= 1;
        text.append(digit_text(digits[left]));
        proof {
            let done = digits@.len() - left;
            assert(written(digits@).take(done) =~= written(digits@).take(done - 1).push(
                decimal_digit(digits@[left as int] as int),
            ));
        }
    }
    proof {
        assert(written(digits@).take(digits@.len() as int) =~= written(digits@));
    }
    text
}

/// Prints an integer in decimal, with a minus sign where it is negative.
pub fn i64_to_string(n: i64) -> (text: String)
    ensures
        text@ == decimal_string(n as int),
{
    if n < 0 {
        let magnitude: u64 = (-(n as i128)) as u64;
        let mut text = String::from_str("-");
        proof {
            reveal_strlit("-");
            assert("-"@ =~= seq!['-']);
        }
        text.append(u64_to_string(magnitude).as_str());
        text
    } else {
        u64_to_string(n as u64)
    }
}

/// The 64-bit pattern of `n` in two's complement.
pub open spec fn i64_bits(n: i64) -> u64 {
    if n >= 0 {
        n as u64
    } else {
        (n + 0x1_0000_0000_0000_0000) as u64
    }
}

/// The signed integer whose two's complement pattern is `bits`.
pub open spec fn i64_of_bits(bits: u64) -> i64 {
    if bits < 0x8000_0000_0000_0000 {
        bits as i64
    } else {
        (bits - 0x1_0000_0000_0000_0000) as i64
    }
}

/// The eight bytes of `n`, least significant first.
pub open spec fn i64_le_bytes(n: i64) -> Seq<u8> {
    spec_u64_to_le_bytes(i64_bits(n))
}

/// The signed integer that eight little-endian bytes stand for.
pub open spec fn i64_of_le_bytes(bytes: Seq<u8>) -> i64 {
    i64_of_bits(spec_u64_from_le_bytes(bytes))
}

/// Decoding the little-endian bytes of an integer gives the integer back.
pub proof fn lemma_i64_le_round_trip(n: i64)
    ensures
        i64_le_bytes(n).len() == 8,
        i64_of_le_bytes(i64_le_bytes(n)) == n,
{
    lemma_auto_spec_u64_to_from_le_bytes();
}

/// Writes `n` as eight little-endian bytes.
pub fn i64_to_le_bytes(n: i64) -> (bytes: Vec<u8>)
    ensures
        bytes@ == i64_le_bytes(n),
        bytes@.len() == 8,
{
    let bits: u64 = if n >= 0 {
        n as u64
    } else {
        ((n + i64::MAX) + 1) as u64 + 0x8000_0000_0000_0000u64
    };
    u64_to_le_bytes(bits)
}

/// Reads a signed integer from eight little-endian bytes.
pub fn i64_from_le_bytes(bytes: &[u8]) -> (n: i64)
    requires
        bytes@.len() == 8,
    ensures
        n == i64_of_le_bytes(bytes@),
{
    let bits: u64 = u64_from_le_bytes(bytes);
    if bits < 0x8000_0000_0000_0000u64 {
        bits as i64
    } else {
        (bits - 0x8000_0000_0000_0000u64) as i64 + i64::MIN
    }
}

} // verus!
