//! The one place where the library calls a cryptographic hash: SHA-256 over
//! the canonical serialization, rendered as lowercase hex.
use vstd::prelude::*;

use crate::strutil::is_lower_hex_char;
use sha2::Digest;

verus! {

/// What SHA-256 returns for a given text, as lowercase hex. The digest is a
/// pure function of the input alone, so it can be named but not stated.
pub uninterp spec fn sha256_hex(s: Seq<char>) -> Seq<char>;

/// Relies on sha2::Sha256 and the hex formatting of its digest: the digest of
/// the UTF-8 bytes of `s` depends on `s` alone, and its hex rendering has two
/// characters per digest byte, 64 in all, each a lowercase hex digit.
#[verifier::external_body]
pub(crate) fn sha256_hex_of(s: &str) -> (r: String)
    ensures
        r@ == sha256_hex(s@),
        r@.len() == 64,
        forall|i: int| 0 <= i < r@.len() ==> is_lower_hex_char(#[trigger] r@[i]),
{
    let mut hasher = sha2::Sha256::new();
    hasher.update(s.as_bytes());
    format!("{:x}", hasher.finalize())
}

} // verus!
