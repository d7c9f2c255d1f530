//! Content hashing of raw capture buffers, used by callers to skip
//! re-encoding a capture whose bytes have not changed.

use vstd::prelude::*;

verus! {

/// The 64-bit hash of a byte sequence as `DefaultHasher` computes it: a
/// function of the bytes alone.
pub uninterp spec fn content_hash(data: Seq<u8>) -> u64;

/// Relies on `std::collections::hash_map::DefaultHasher`: hashers made by
/// `DefaultHasher::new` are documented to hash identically, so feeding
/// the same bytes always finishes with the same value.
#[verifier::external_body]
fn default_hash_bytes(data: &[u8]) -> (r: u64)
    ensures
        r == content_hash(data@),
{
    let mut hasher = std::collections::hash_map::DefaultHasher::new();
    std::hash::Hash::hash(data, &mut hasher);
    std::hash::Hasher::finish(&hasher)
}

/// Hashes a raw capture buffer for change detection: equal buffers hash
/// equally, so a capture whose hash matches the previous one needs no new
/// encode.
pub fn calculate_image_hash(data: &[u8]) -> (r: u64)
    ensures
        r == content_hash(data@),
{
    default_hash_bytes(data)
}

} // verus!
