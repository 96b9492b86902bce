//! Digests of what is built, and its compression.
use vstd::prelude::*;

verus! {

/// The BLAKE3 digest of bytes.
pub uninterp spec fn blake3_digest(bytes: Seq<u8>) -> Seq<u8>;

/// Calls `blake3::hash`. A digest has thirty-two bytes.
#[verifier::external_body]
pub(crate) fn blake3_hash(bytes: &[u8]) -> (digest: Vec<u8>)
    ensures
        digest@ == blake3_digest(bytes@),
        digest@.len() == 32,
{
    blake3::hash(bytes).as_bytes().to_vec()
}

/// The XXH3 digest of bytes.
pub uninterp spec fn xxh3_digest(bytes: Seq<u8>) -> u64;

/// Calls `xxhash_rust::xxh3::xxh3_64`.
#[verifier::external_body]
pub(crate) fn xxh3_hash(bytes: &[u8]) -> (digest: u64)
    ensures
        digest == xxh3_digest(bytes@),
{
    xxhash_rust::xxh3::xxh3_64(bytes)
}

/// The digest of bytes by which a build recognizes them.
pub fn digest(bytes: &[u8]) -> (digest: Vec<u8>)
    ensures
        digest@ == blake3_digest(bytes@),
        digest@.len() == 32,
{
    blake3_hash(bytes)
}

/// What a compressed frame holds: the bytes that `zstd::decode_all` reads back from it.
pub uninterp spec fn zstd_content(frame: Seq<u8>) -> Seq<u8>;

/// The frame that `zstd::encode_all` makes of bytes at a level; nothing where it fails.
pub uninterp spec fn zstd_frame(bytes: Seq<u8>, level: int) -> Option<Seq<u8>>;

/// Calls `zstd::encode_all`; nothing where that fails.
///
/// The frame is a function of the bytes and the level, and holds the bytes that were compressed. That
/// there is memory enough to compress is taken for granted.
#[verifier::external_body]
pub(crate) fn zstd_encode(bytes: &[u8], level: i32) -> (compressed: Option<Vec<u8>>)
    ensures
        compressed.deep_view() == zstd_frame(bytes@, level as int),
        compressed matches Some(frame) ==> zstd_content(frame@) == bytes@,
{
    zstd::encode_all(bytes, level).ok()
}

/// Whether two byte strings are the same.
pub fn is_same(left: &[u8], right: &[u8]) -> (same: bool)
    ensures
        same == (left@ == right@),
{
    if left.len() != right.len() {
        return false;
    }
    let mut i: usize = 0;
    while i < left.len()
        invariant
            i <= left@.len(),
            left@.len() == right@.len(),
            forall|j: int| 0 <= j < i ==> left@[j] == right@[j],
        decreases left@.len() - i,
    {
        if left[i] != right[i] {
            return false;
        }
        i += 1;
    }
    assert(left@ =~= right@);
    true
}

/// Bytes are the same where they are as many and none differs; the digests of the same bytes are the same.
pub proof fn law_same_bytes_have_the_same_digest(
    left: &[u8],
    right: &[u8],
    same: bool,
    left_digest: Vec<u8>,
    right_digest: Vec<u8>,
)
    requires
        call_ensures(is_same, (left, right), same),
        call_ensures(digest, (left,), left_digest),
        call_ensures(digest, (right,), right_digest),
    ensures
        same <==> left@.len() == right@.len() && forall|i: int|
            0 <= i < left@.len() ==> left@[i] == right@[i],
        same ==> left_digest@ == right_digest@,
        left_digest@.len() == 32,
{
    if left@.len() == right@.len() && (forall|i: int|
        0 <= i < left@.len() ==> left@[i] == right@[i]) {
        assert(left@ =~= right@);
    }
}

} // verus!
