use vstd::prelude::*;

verus! {

/// The BLAKE3 digest of `data` (`blake3::hash`).
pub uninterp spec fn blake3_digest(data: Seq<u8>) -> Seq<u8>;

/// BLAKE3 digest of `data` with `blake3::hash`. Claimed: the 32 bytes
/// named `blake3_digest(data)`.
#[verifier::external_body]
pub(crate) fn blake3_hash(data: &[u8]) -> (r: [u8; 32])
    ensures
        r@ == blake3_digest(data@),
        r@.len() == 32,
{
    *blake3::hash(data).as_bytes()
}

/// The input fed to a BLAKE3 hasher so far.
pub uninterp spec fn blake3_hasher_input(h: blake3::Hasher) -> Seq<u8>;

/// An incremental BLAKE3 hasher.
#[verifier::external_type_specification]
#[verifier::external_body]
pub struct ExBlake3Hasher(blake3::Hasher);

/// A new BLAKE3 hasher (`blake3::Hasher::new`), fed nothing yet.
#[verifier::external_body]
pub(crate) fn blake3_hasher_new() -> (h: blake3::Hasher)
    ensures
        blake3_hasher_input(h) == Seq::<u8>::empty(),
{
    blake3::Hasher::new()
}

/// Feed `data` to a BLAKE3 hasher (`blake3::Hasher::update`).
#[verifier::external_body]
pub(crate) fn blake3_hasher_update(h: &mut blake3::Hasher, data: &[u8])
    ensures
        blake3_hasher_input(*final(h)) == blake3_hasher_input(*old(h)) + data@,
{
    h.update(data);
}

/// Digest of everything fed to a BLAKE3 hasher
/// (`blake3::Hasher::finalize`). Claimed: the same digest as `blake3::hash`
/// of all the input at once, as the crate documents.
#[verifier::external_body]
pub(crate) fn blake3_hasher_finalize(h: &blake3::Hasher) -> (r: [u8; 32])
    ensures
        r@ == blake3_digest(blake3_hasher_input(*h)),
        r@.len() == 32,
{
    *h.finalize().as_bytes()
}

} // verus!
