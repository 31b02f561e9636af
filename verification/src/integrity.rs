//! Integrity verifier: each chunk travels with the digest its sender
//! declared, and is stored only if the digest of the received bytes
//! matches it.

use vstd::prelude::*;

verus! {

/// The lowercase hexadecimal MD5 digest of a byte sequence, as the
/// thirty-two characters a caller declares for a chunk.  The digest is
/// a function of the bytes alone; no shorter statement of its value is
/// available, so it stays uninterpreted and every contract goes through
/// this name.
pub uninterp spec fn md5_hex_of(bytes: Seq<u8>) -> Seq<char>;

/// Relies on md5::compute and the Debug form of md5::Digest: the digest
/// depends on the bytes alone, and prints as exactly thirty-two
/// lowercase hexadecimal characters (two per digest byte).
#[verifier::external_body]
pub fn md5_hex(bytes: &[u8]) -> (r: String)
    ensures
        r@ == md5_hex_of(bytes@),
        r@.len() == 32,
{
    format!("{:?}", md5::compute(bytes))
}

/// True exactly when `declared` is the digest of `bytes`.  Malformed
/// declarations (wrong length, stray characters) simply compare unequal;
/// nothing here panics or errs.
pub fn verify_digest(bytes: &[u8], declared: &str) -> (r: bool)
    ensures
        r == (declared@ == md5_hex_of(bytes@)),
{
    let computed = md5_hex(bytes);
    let declared_owned = String::from_str(declared);
    declared_owned == computed
}

} // verus!
