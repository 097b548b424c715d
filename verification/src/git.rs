//! Git commit hashes: parsing from hex text and rendering back to hex.

use vstd::prelude::*;
use crate::errors::HexDecodeError;
use crate::errors::SystemError;

verus! {

/// Whether `c` is an ASCII hex digit (either case).
pub open spec fn is_hex_digit(c: u8) -> bool {
    (48 <= c <= 57) || (65 <= c <= 70) || (97 <= c <= 102)
}

/// The numeric value of a hex digit.
pub open spec fn hex_val(c: u8) -> u8 {
    if c <= 57 {
        (c - 48) as u8
    } else if c <= 70 {
        (c - 65 + 10) as u8
    } else {
        (c - 97 + 10) as u8
    }
}

/// The lowercase hex digit character for `n` (valid for `n < 16`).
pub open spec fn hex_char(n: u8) -> char {
    if n == 0 {
        '0'
    } else if n == 1 {
        '1'
    } else if n == 2 {
        '2'
    } else if n == 3 {
        '3'
    } else if n == 4 {
        '4'
    } else if n == 5 {
        '5'
    } else if n == 6 {
        '6'
    } else if n == 7 {
        '7'
    } else if n == 8 {
        '8'
    } else if n == 9 {
        '9'
    } else if n == 10 {
        'a'
    } else if n == 11 {
        'b'
    } else if n == 12 {
        'c'
    } else if n == 13 {
        'd'
    } else if n == 14 {
        'e'
    } else {
        'f'
    }
}

/// Relies on hex::FromHex for [u8; 20]: decodes exactly forty hex digits,
/// upper or lower case, two digits per byte.
#[verifier::external_body]
fn decode_hash_bytes(h: &[u8]) -> (r: Result<[u8; 20], HexDecodeError>)
    ensures
        match r {
            Ok(a) => {
                &&& h@.len() == 40
                &&& forall|i: int| 0 <= i < 40 ==> is_hex_digit(#[trigger] h@[i])
                &&& forall|i: int|
                    0 <= i < 20 ==> #[trigger] a@[i] == hex_val(h@[2 * i]) * 16 + hex_val(
                        h@[2 * i + 1],
                    )
            },
            Err(HexDecodeError::OddLength) => h@.len() % 2 == 1,
            Err(HexDecodeError::InvalidStringLength) => h@.len() % 2 == 0 && h@.len() != 40,
            Err(HexDecodeError::InvalidHexCharacter { .. }) => h@.len() == 40 && exists|i: int|
                0 <= i < 40 && !is_hex_digit(#[trigger] h@[i]),
        },
{
    match <[u8; 20] as hex::FromHex>::from_hex(h) {
        Ok(a) => Ok(a),
        Err(hex::FromHexError::OddLength) => Err(HexDecodeError::OddLength),
        Err(hex::FromHexError::InvalidStringLength) => Err(HexDecodeError::InvalidStringLength),
        Err(hex::FromHexError::InvalidHexCharacter { c, index }) => Err(
            HexDecodeError::InvalidHexCharacter { c, index },
        ),
    }
}

/// Relies on hex::encode: renders each byte as two lowercase hex digits.
#[verifier::external_body]
fn encode_hash_bytes(b: &[u8; 20]) -> (r: String)
    ensures
        r@.len() == 40,
        forall|i: int|
            0 <= i < 20 ==> #[trigger] r@[2 * i] == hex_char((b@[i] / 16) as u8) && r@[2 * i + 1]
                == hex_char((b@[i] % 16) as u8),
{
    hex::encode(b)
}

/// A Git commit hash.
#[derive(Clone, Copy, Debug, PartialEq, Eq)]
pub struct GitHash(pub [u8; 20]);

impl GitHash {
    /// Parses a hash from its forty-digit hex encoding.
    pub fn from_hex(hex: &[u8]) -> (r: Result<GitHash, SystemError>)
        ensures
            match r {
                Ok(gh) => {
                    &&& hex@.len() == 40
                    &&& forall|i: int| 0 <= i < 40 ==> is_hex_digit(#[trigger] hex@[i])
                    &&& forall|i: int|
                        0 <= i < 20 ==> #[trigger] gh.0@[i] == hex_val(hex@[2 * i]) * 16 + hex_val(
                            hex@[2 * i + 1],
                        )
                },
                Err(SystemError::FromHex(_)) => !(hex@.len() == 40 && forall|i: int|
                    0 <= i < 40 ==> is_hex_digit(#[trigger] hex@[i])),
                Err(_) => false,
            },
    {
        match decode_hash_bytes(hex) {
            Ok(a) => Ok(GitHash(a)),
            Err(e) => {
                proof {
                    if hex@.len() == 40 {
                        assert(hex@.len() % 2 == 0);
                    }
                }
                Err(SystemError::FromHex(e))
            },
        }
    }

    /// Renders the hash as forty lowercase hex digits.
    pub fn to_hex_string(&self) -> (r: String)
        ensures
            r@.len() == 40,
            forall|i: int|
                0 <= i < 20 ==> #[trigger] r@[2 * i] == hex_char((self.0@[i] / 16) as u8)
                    && r@[2 * i + 1] == hex_char((self.0@[i] % 16) as u8),
    {
        encode_hash_bytes(&self.0)
    }
}

} // verus!
