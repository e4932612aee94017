//! Digest verification: SHA-1 of a byte buffer, lowercase hex, compared
//! exactly against a manifest-declared value.

use vstd::prelude::*;

verus! {

/// The lowercase hex SHA-1 digest of a byte sequence. The algorithm is the
/// outside crate's business; the contracts here only need that the digest is
/// a function of the hashed bytes alone.
pub uninterp spec fn sha1_hex_of(bytes: Seq<u8>) -> Seq<char>;

/// Relies on `sha1_smol::Sha1` (`update`, then `digest`) and on `Digest`'s
/// hex rendering: the digest depends on the hashed bytes alone, and
/// `to_string` renders it as lowercase hex.
#[verifier::external_body]
fn sha1_hex(bytes: &[u8]) -> (hex: String)
    ensures
        hex@ == sha1_hex_of(bytes@),
{
    let mut hasher = sha1_smol::Sha1::new();
    hasher.update(bytes);
    hasher.digest().to_string()
}

/// Computes the digest of `bytes` and compares it, case-sensitively and
/// exactly, against `expected`.
pub fn digest_matches(bytes: &[u8], expected: &String) -> (ok: bool)
    ensures
        ok == (sha1_hex_of(bytes@) == expected@),
{
    let computed = sha1_hex(bytes);
    computed == *expected
}

} // verus!
