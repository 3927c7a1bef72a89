//! The specification of the wire format, and the two outside codecs the
//! decoder leans on: a hexadecimal string codec and the SHA-256 digest.
//!
//! The spec functions here say, byte for byte, what each wire construct
//! means: the little-endian integers come from `vstd::bytes`, the
//! variable-length "compact size" integers and the length-prefixed scripts
//! are defined below. The executable decoders in the rest of the crate are
//! proved against these definitions.

use vstd::prelude::*;

verus! {

use vstd::bytes::{spec_u16_from_le_bytes, spec_u32_from_le_bytes, spec_u64_from_le_bytes};

// ---------------------------------------------------------------------------
// Compact size integers
// ---------------------------------------------------------------------------

/// Total width in bytes of a compact size encoding whose discriminator
/// byte is `d`: one byte for `d <= 252`, else three, five or nine.
pub open spec fn compact_size_width(d: u8) -> nat {
    if d <= 252 {
        1
    } else if d == 253 {
        3
    } else if d == 254 {
        5
    } else {
        9
    }
}

/// Whether a compact size integer can be read from the front of `s`.
pub open spec fn compact_size_decodes(s: Seq<u8>) -> bool {
    s.len() >= 1 && s.len() >= compact_size_width(s[0])
}

/// How many bytes the compact size at the front of `s` occupies.
pub open spec fn compact_size_consumed(s: Seq<u8>) -> nat {
    compact_size_width(s[0])
}

/// The value of the compact size integer at the front of `s`: the
/// discriminator itself for `d <= 252`, else the following two, four or
/// eight bytes as a little-endian unsigned integer.
pub open spec fn compact_size_value(s: Seq<u8>) -> nat {
    if s[0] <= 252 {
        s[0] as nat
    } else if s[0] == 253 {
        spec_u16_from_le_bytes(s.subrange(1, 3)) as nat
    } else if s[0] == 254 {
        spec_u32_from_le_bytes(s.subrange(1, 5)) as nat
    } else {
        spec_u64_from_le_bytes(s.subrange(1, 9)) as nat
    }
}

// ---------------------------------------------------------------------------
// Length-prefixed scripts
// ---------------------------------------------------------------------------

/// Whether a script — a compact size length `L` followed by `L` opaque
/// bytes — can be read from the front of `s`.
pub open spec fn script_decodes(s: Seq<u8>) -> bool {
    compact_size_decodes(s) && s.len() >= compact_size_consumed(s) + compact_size_value(s)
}

/// How many bytes the script at the front of `s` occupies.
pub open spec fn script_consumed(s: Seq<u8>) -> nat {
    compact_size_consumed(s) + compact_size_value(s)
}

/// The raw bytes of the script at the front of `s`, without the length
/// prefix.
pub open spec fn script_bytes(s: Seq<u8>) -> Seq<u8> {
    s.subrange(compact_size_consumed(s) as int, script_consumed(s) as int)
}

// ---------------------------------------------------------------------------
// Hexadecimal strings
// ---------------------------------------------------------------------------

/// The lowercase hexadecimal digit for a value below sixteen.
pub open spec fn hex_digit(n: u8) -> char {
    seq!['0', '1', '2', '3', '4', '5', '6', '7', '8', '9', 'a', 'b', 'c', 'd', 'e', 'f'][n as int]
}

/// The lowercase hexadecimal rendering of a byte sequence: two digits per
/// byte, high nibble first.
pub open spec fn hex_of(s: Seq<u8>) -> Seq<char>
    decreases s.len(),
{
    if s.len() == 0 {
        Seq::empty()
    } else {
        seq![hex_digit(s[0] / 16), hex_digit(s[0] % 16)] + hex_of(s.skip(1))
    }
}

/// Whether `c` is a hexadecimal digit, either case.
pub open spec fn is_hex_digit(c: char) -> bool {
    ('0' as u32 <= c as u32 && c as u32 <= '9' as u32)
        || ('a' as u32 <= c as u32 && c as u32 <= 'f' as u32)
        || ('A' as u32 <= c as u32 && c as u32 <= 'F' as u32)
}

/// The value of a hexadecimal digit, either case.
pub open spec fn hex_digit_value(c: char) -> u8 {
    if '0' as u32 <= c as u32 && c as u32 <= '9' as u32 {
        (c as u32 - '0' as u32) as u8
    } else if 'a' as u32 <= c as u32 && c as u32 <= 'f' as u32 {
        (c as u32 - 'a' as u32 + 10) as u8
    } else {
        (c as u32 - 'A' as u32 + 10) as u8
    }
}

/// Whether a string is valid hexadecimal: even length, every character a
/// hex digit of either case.
pub open spec fn valid_hex_string(s: Seq<char>) -> bool {
    s.len() % 2 == 0 && (forall|i: int| 0 <= i < s.len() ==> is_hex_digit(#[trigger] s[i]))
}

/// The bytes a valid hexadecimal string denotes: each pair of digits one
/// byte, high nibble first.
pub open spec fn hex_bytes(s: Seq<char>) -> Seq<u8>
    decreases s.len(),
{
    if s.len() < 2 {
        Seq::empty()
    } else {
        seq![(16 * hex_digit_value(s[0]) + hex_digit_value(s[1])) as u8] + hex_bytes(s.skip(2))
    }
}

/// Relies on `hex::encode`: it renders each input byte as exactly two
/// lowercase hexadecimal digits, high nibble first, in input order.
#[verifier::external_body]
pub(crate) fn hex_encode(bytes: &[u8]) -> (r: String)
    ensures
        r@ == hex_of(bytes@),
{
    hex::encode(bytes)
}

/// The error type of `hex::decode`, opaque to this crate.
#[verifier::external_type_specification]
#[verifier::external_body]
pub struct ExFromHexError(hex::FromHexError);

/// Relies on `hex::decode`: it succeeds exactly on even-length strings of
/// hexadecimal digits (either case) and then returns one byte per digit
/// pair, high nibble first. `hex::decode` works on the string's bytes; a
/// string of ASCII hex digits has identical bytes and characters, and any
/// other string fails byte-wise exactly when it fails character-wise.
#[verifier::external_body]
pub(crate) fn hex_decode(s: &str) -> (r: Result<Vec<u8>, hex::FromHexError>)
    ensures
        match r {
            Ok(v) => valid_hex_string(s@) && v@ == hex_bytes(s@),
            Err(_) => !valid_hex_string(s@),
        },
{
    hex::decode(s)
}

// ---------------------------------------------------------------------------
// SHA-256
// ---------------------------------------------------------------------------

/// The SHA-256 digest of a byte sequence. The algorithm itself is supplied
/// by an outside crate; this name stands for its result, a function of the
/// input bytes alone.
pub uninterp spec fn sha256_of(data: Seq<u8>) -> Seq<u8>;

/// Relies on `sha2::Sha256` through `Digest::digest`: a 256-bit (32-byte)
/// digest determined by the input bytes alone.
#[verifier::external_body]
pub(crate) fn sha256(data: &[u8]) -> (r: Vec<u8>)
    ensures
        r@ == sha256_of(data@),
        r@.len() == 32,
{
    <sha2::Sha256 as sha2::Digest>::digest(data).to_vec()
}

} // verus!
