//! The application-level OOB confirmation code.
//!
//! After LE Secure Connections completes, the desktop and the phone each
//! derive an independent confirmation number from the fresh bond key:
//!
//! ```text
//! HKDF-SHA256(bond, "syauth-oob-v1")[0..4] -> an 8-digit decimal code
//! ```
//!
//! The operator compares that number on the two screens. It never crosses
//! the wire; rotating it means bumping the HKDF info string.
use vstd::prelude::*;
use hkdf::Hkdf;
use sha2::Sha256;
use crate::be_bytes::from_be32;
use crate::text::{decimal, zero_pad, is_ascii_digit, format_zero_padded, lemma_decimal_digits, lemma_decimal_len};

verus! {

/// HKDF info string of the v1 OOB derivation.
pub const HKDF_INFO_OOB_V1: [u8; 13] = [
    0x73, 0x79, 0x61, 0x75, 0x74, 0x68, 0x2d, 0x6f, 0x6f, 0x62, 0x2d, 0x76, 0x31,
];

/// Digits in the displayed OOB code.
pub const OOB_CODE_DIGITS: usize = 8;

/// Size of the displayed code space, `10^OOB_CODE_DIGITS`.
pub const OOB_CODE_SPACE: u32 = 100_000_000;

/// Bytes of HKDF output the code consumes.
pub const OOB_HKDF_BYTES: usize = 4;

/// Width of the bond key the derivation is keyed on.
pub const OOB_BOND_KEY_BYTES: usize = 32;

/// The first four bytes of HKDF-SHA256 output keyed on `ikm` with no salt,
/// for the info string `info` (RFC 5869 extract-then-expand).
pub uninterp spec fn hkdf_sha256_okm4(ikm: Seq<u8>, info: Seq<u8>) -> Seq<u8>;

/// `Hkdf::<Sha256>::new(None, ikm).expand(info, &mut [0u8; 4])`. The crate's
/// expand fails only when more than 255 hash blocks are asked for, so four
/// bytes always come back; they are named, not stated.
#[verifier::external_body]
fn hkdf_sha256_expand4(ikm: &[u8; OOB_BOND_KEY_BYTES], info: &[u8]) -> (r: Option<[u8; OOB_HKDF_BYTES]>)
    ensures
        r is Some,
        r.unwrap()@ == hkdf_sha256_okm4(ikm@, info@),
{
    let mut okm = [0u8; OOB_HKDF_BYTES];
    match Hkdf::<Sha256>::new(None, ikm).expand(info, &mut okm) {
        Ok(()) => Some(okm),
        Err(_) => None,
    }
}

/// The code a 4-byte HKDF output shows: its big-endian value modulo `10^8`,
/// as eight zero-padded decimal digits.
pub open spec fn oob_code_text(okm: Seq<u8>) -> Seq<char> {
    zero_pad(
        decimal((from_be32(okm[0], okm[1], okm[2], okm[3]) % (OOB_CODE_SPACE as u32)) as nat),
        OOB_CODE_DIGITS as nat,
    )
}

/// The code for a 4-byte HKDF output.
pub fn oob_code_from_okm(okm: [u8; OOB_HKDF_BYTES]) -> (r: String)
    ensures
        r@ == oob_code_text(okm@),
        r@.len() == OOB_CODE_DIGITS,
        forall|i: int| 0 <= i < r@.len() ==> is_ascii_digit(#[trigger] r@[i]),
{
    let v = crate::be_bytes::u32_from_be(okm[0], okm[1], okm[2], okm[3]) % OOB_CODE_SPACE;
    let r = format_zero_padded(v as u64, OOB_CODE_DIGITS);
    proof {
        lemma_decimal_digits(v as nat);
        assert(crate::text::pow10(8) == 100_000_000) by {
            reveal_with_fuel(crate::text::pow10, 9);
        }
        lemma_decimal_len(v as nat, 8);
        let d = decimal(v as nat);
        if d.len() < 8 {
            assert forall|i: int| 0 <= i < r@.len() implies is_ascii_digit(#[trigger] r@[i]) by {
                if i >= 8 - d.len() {
                    assert(r@[i] == d[i - (8 - d.len())]);
                }
            }
        }
    }
    r
}

/// Derive the OOB confirmation code for `bond_key`: always exactly eight
/// ASCII digits, zero-padded, so both screens render identical text.
pub fn oob_code_for_bond(bond_key: &[u8; OOB_BOND_KEY_BYTES]) -> (r: String)
    ensures
        r@ == oob_code_text(hkdf_sha256_okm4(bond_key@, HKDF_INFO_OOB_V1@)),
        r@.len() == OOB_CODE_DIGITS,
        forall|i: int| 0 <= i < r@.len() ==> is_ascii_digit(#[trigger] r@[i]),
{
    let info = HKDF_INFO_OOB_V1;
    let okm = match hkdf_sha256_expand4(bond_key, &info) {
        Some(okm) => okm,
        None => [0u8; OOB_HKDF_BYTES],
    };
    oob_code_from_okm(okm)
}

} // verus!
