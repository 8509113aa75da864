//! SHA-256 digests rendered as lowercase hex, as used for migration checksums
//! and for the tenant hashes inside cache keys.

use vstd::prelude::*;
use sha2::{Digest, Sha256};
use crate::ids::hex_digit;

verus! {

/// The SHA-256 digest of `data`.
pub uninterp spec fn sha256(data: Seq<u8>) -> Seq<u8>;

/// `sha2::Sha256::digest`: the contract names the 32-byte result `sha256`
/// of the input bytes; nothing more is claimed of it.
#[verifier::external_body]
fn sha256_digest(data: &[u8]) -> (r: Vec<u8>)
    ensures
        r@ == sha256(data@),
        r@.len() == 32,
{
    Sha256::digest(data).to_vec()
}

/// Two lowercase hex digits per byte, high nibble first.
pub open spec fn hex_lower(data: Seq<u8>) -> Seq<char>
    decreases data.len(),
{
    if data.len() == 0 {
        Seq::empty()
    } else {
        hex_lower(data.drop_last()) + seq![
            hex_digit((data.last() / 16) as nat),
            hex_digit((data.last() % 16) as nat),
        ]
    }
}

/// `hex::encode`: lowercase hex text of the bytes, two digits per byte, high
/// nibble first (the crate's `HEX_CHARS_LOWER` table).
#[verifier::external_body]
fn hex_encode(data: &[u8]) -> (s: String)
    ensures
        s@ == hex_lower(data@),
{
    hex::encode(data)
}

/// Lowercase hex of the SHA-256 digest of the UTF-8 bytes of `text`.
pub open spec fn sha256_hex_text(text: Seq<char>) -> Seq<char> {
    hex_lower(sha256(vstd::utf8::encode_utf8(text)))
}

/// Lowercase hex of the SHA-256 digest of the UTF-8 bytes of `text`.
pub fn sha256_hex(text: &str) -> (s: String)
    ensures
        s@ == sha256_hex_text(text@),
        s@.len() == 64,
{
    let digest = sha256_digest(text.as_bytes());
    let s = hex_encode(digest.as_slice());
    proof {
        lemma_hex_lower_len(digest@);
    }
    s
}

/// Lowercase hex of the SHA-256 digest of `data`, as backup checksums are
/// reported.
pub fn bytes_sha256_hex(data: &[u8]) -> (s: String)
    ensures
        s@ == hex_lower(sha256(data@)),
        s@.len() == 64,
{
    let digest = sha256_digest(data);
    let s = hex_encode(digest.as_slice());
    proof {
        lemma_hex_lower_len(digest@);
    }
    s
}

pub proof fn lemma_hex_lower_len(data: Seq<u8>)
    ensures
        hex_lower(data).len() == 2 * data.len(),
    decreases data.len(),
{
    if data.len() > 0 {
        lemma_hex_lower_len(data.drop_last());
    }
}

} // verus!
