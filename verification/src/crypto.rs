//! The cryptographic primitives the node relies on, behind trusted
//! declarations: keccak-256 and SHA-256 digests, secp256k1 signature
//! verification, hexadecimal decoding, and the wall clock.
//!
//! Each digest is named by an uninterpreted function of the input alone:
//! nothing more is assumed of it than its length, so every contract built on
//! these names holds for whatever the primitives compute.

use vstd::prelude::*;

use crate::encoding::{hex_decode_spec, hex_ok};

verus! {

/// The keccak-256 digest of the UTF-8 bytes of a character sequence.
pub uninterp spec fn keccak256_of(s: Seq<char>) -> Seq<u8>;

/// Relies on `alloy_primitives::keccak256`: a 32-byte digest that depends on
/// the UTF-8 bytes of the input characters alone.
#[verifier::external_body]
pub fn keccak256_chars(v: &Vec<char>) -> (h: Vec<u8>)
    ensures
        h@ == keccak256_of(v@),
        h@.len() == 32,
{
    let s: String = v.iter().collect();
    alloy_primitives::keccak256(s.as_bytes()).to_vec()
}

/// The SHA-256 digest of the UTF-8 bytes of a character sequence.
pub uninterp spec fn sha256_of(s: Seq<char>) -> Seq<u8>;

/// Relies on `sha2::Sha256::digest`: a 32-byte digest that depends on the
/// UTF-8 bytes of the input characters alone.
#[verifier::external_body]
pub fn sha256_chars(v: &Vec<char>) -> (h: Vec<u8>)
    ensures
        h@ == sha256_of(v@),
        h@.len() == 32,
{
    let s: String = v.iter().collect();
    <sha2::Sha256 as sha2::Digest>::digest(s.as_bytes()).to_vec()
}

/// The verdict of secp256k1 verification for a digest, a 64-byte `(r, s)`
/// signature and an encoded public key.
pub uninterp spec fn secp256k1_verdict(digest: Seq<u8>, sig: Seq<u8>, key: Seq<u8>) -> bool;

/// Relies on `libsecp256k1::verify`, with `Message::parse_slice`,
/// `Signature::parse_standard_slice` and `PublicKey::parse_slice` converting
/// the arguments. All four are deterministic, so the verdict depends on the
/// three byte strings alone; bytes that do not parse verify as nothing.
#[verifier::external_body]
pub fn secp256k1_check(digest: &Vec<u8>, sig: &Vec<u8>, key: &Vec<u8>) -> (r: bool)
    ensures
        r == secp256k1_verdict(digest@, sig@, key@),
{
    let m = match libsecp256k1::Message::parse_slice(digest) {
        Ok(m) => m,
        Err(_) => return false,
    };
    let s = match libsecp256k1::Signature::parse_standard_slice(sig) {
        Ok(s) => s,
        Err(_) => return false,
    };
    let k = match libsecp256k1::PublicKey::parse_slice(key, None) {
        Ok(k) => k,
        Err(_) => return false,
    };
    libsecp256k1::verify(&m, &s, &k)
}

/// Relies on `hex::decode`: it succeeds exactly on even-length strings of
/// hexadecimal digits, either case, and yields one byte per digit pair.
#[verifier::external_body]
pub fn hex_decode(s: &str) -> (r: Option<Vec<u8>>)
    ensures
        match r {
            Some(v) => hex_ok(s@) && v@ == hex_decode_spec(s@),
            None => !hex_ok(s@),
        },
{
    match hex::decode(s) {
        Ok(v) => Some(v),
        Err(_) => None,
    }
}

/// Relies on `chrono::Utc::now`: the wall clock in unix seconds; nothing is
/// promised of its value.
#[verifier::external_body]
pub fn now_unix_seconds() -> (t: i64) {
    chrono::Utc::now().timestamp()
}

/// Relies on `String::from_iter`: collects the characters into a string.
#[verifier::external_body]
pub fn chars_to_string(v: &Vec<char>) -> (s: String)
    ensures
        s@ == v@,
{
    v.iter().collect()
}

} // verus!
