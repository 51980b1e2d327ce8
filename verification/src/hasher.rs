use vstd::prelude::*;
use sha2::{Digest, Sha256};

verus! {

/// The hexadecimal SHA-256 digest of a sequence of characters.
///
/// The digest is left abstract: the chain's contracts only rely on it being
/// a pure function of its input, which is what makes mining and verification
/// agree with each other.
pub uninterp spec fn sha256_hex_of(s: Seq<char>) -> Seq<char>;

/// Relies on `sha2::Sha256` (`update`, `finalize`) and on generic-array's
/// `LowerHex` formatting: the digest of the input bytes, printed as 64
/// lowercase hexadecimal characters, a pure function of the input alone.
#[verifier::external_body]
pub fn generate_hash(value: &str) -> (r: String)
    ensures
        r@ == sha256_hex_of(value@),
        r@.len() == 64,
{
    let mut hasher = Sha256::new();
    hasher.update(value.as_bytes());
    let result = hasher.finalize();
    let hash_value = format!("{:x}", result);
    hash_value
}

/// Hashing is deterministic: the same input always yields the same digest,
/// so a digest recorded once can be checked again later.
pub proof fn lemma_hash_deterministic(a: Seq<char>, b: Seq<char>)
    requires
        a == b,
    ensures
        sha256_hex_of(a) == sha256_hex_of(b),
{
}

} // verus!
