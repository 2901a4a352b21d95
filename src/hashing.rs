//! Content digests.
use crate::models::FileEntry;
use vstd::prelude::*;

verus! {

/// The lowercase hexadecimal SHA-256 digest of a byte sequence.
pub uninterp spec fn sha256_hex_of(data: Seq<u8>) -> Seq<char>;

/// Relies on sha2's `Sha256::digest`, printed through `LowerHex`: the result
/// depends on the bytes alone.
#[verifier::external_body]
fn sha256_hex(data: &[u8]) -> (r: String)
    ensures
        r@ == sha256_hex_of(data@),
{
    format!("{:x}", <sha2::Sha256 as sha2::Digest>::digest(data))
}

/// The digest of `data`.
pub fn content_digest(data: &[u8]) -> (r: String)
    ensures
        r@ == sha256_hex_of(data@),
{
    sha256_hex(data)
}

/// Gives `entry` the digest of its content, or none where the content could
/// not be read (`content` is `None`). The other fields are kept.
pub fn attach_digest(entry: FileEntry, content: Option<&[u8]>) -> (r: FileEntry)
    ensures
        r.path == entry.path,
        r.size == entry.size,
        r.source == entry.source,
        match content {
            Some(c) => r.hash is Some && r.hash->0@ == sha256_hex_of(c@),
            None => r.hash is None,
        },
{
    let hash = match content {
        Some(c) => Some(sha256_hex(c)),
        None => None,
    };
    FileEntry { hash, ..entry }
}

} // verus!
