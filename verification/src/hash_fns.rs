use vstd::prelude::*;

verus! {

/// Named result: Seahash 64-bit hash of `data` (`seahash::hash`).
pub uninterp spec fn seahash_value(data: Seq<u8>) -> u64;

/// Seahash 64-bit hash of `data` (`seahash::hash`). Claimed: the value named
/// `seahash_value(data)`, which depends on the bytes of `data` alone.
#[verifier::external_body]
pub(crate) fn seahash_hash(data: &[u8]) -> (res: u64)
    ensures
        res == seahash_value(data@),
{
    seahash::hash(data)
}

/// Named result: CRC-32 (IEEE) checksum of `data` (`crc32fast::hash`).
pub uninterp spec fn crc32_value(data: Seq<u8>) -> u32;

/// CRC-32 (IEEE) checksum of `data` (`crc32fast::hash`). Claimed: the value named
/// `crc32_value(data)`, which depends on the bytes of `data` alone.
#[verifier::external_body]
pub(crate) fn crc32_hash(data: &[u8]) -> (res: u32)
    ensures
        res == crc32_value(data@),
{
    crc32fast::hash(data)
}

/// Named result: CRC-32C (Castagnoli) checksum of `data` (`crc32c::crc32c`).
pub uninterp spec fn crc32c_value(data: Seq<u8>) -> u32;

/// CRC-32C (Castagnoli) checksum of `data` (`crc32c::crc32c`). Claimed: the value named
/// `crc32c_value(data)`, which depends on the bytes of `data` alone.
#[verifier::external_body]
pub(crate) fn crc32c_hash(data: &[u8]) -> (res: u32)
    ensures
        res == crc32c_value(data@),
{
    crc32c::crc32c(data)
}

/// Named result: 64-bit SipHash-1-3 of `data` under the all-zero key (`siphasher::sip::SipHasher13::new().hash`).
pub uninterp spec fn siphash13_value(data: Seq<u8>) -> u64;

/// 64-bit SipHash-1-3 of `data` under the all-zero key (`siphasher::sip::SipHasher13::new().hash`). Claimed: the value named
/// `siphash13_value(data)`, which depends on the bytes of `data` alone.
#[verifier::external_body]
pub(crate) fn siphash13_hash(data: &[u8]) -> (res: u64)
    ensures
        res == siphash13_value(data@),
{
    siphasher::sip::SipHasher13::new().hash(data)
}

/// Named result: 64-bit SipHash-2-4 of `data` under the all-zero key (`siphasher::sip::SipHasher24::new().hash`).
pub uninterp spec fn siphash24_value(data: Seq<u8>) -> u64;

/// 64-bit SipHash-2-4 of `data` under the all-zero key (`siphasher::sip::SipHasher24::new().hash`). Claimed: the value named
/// `siphash24_value(data)`, which depends on the bytes of `data` alone.
#[verifier::external_body]
pub(crate) fn siphash24_hash(data: &[u8]) -> (res: u64)
    ensures
        res == siphash24_value(data@),
{
    siphasher::sip::SipHasher24::new().hash(data)
}

/// Named result: XXH32 of `data` with seed 0 (`xxhash_rust::xxh32::xxh32`).
pub uninterp spec fn xxh32_value(data: Seq<u8>) -> u32;

/// XXH32 of `data` with seed 0 (`xxhash_rust::xxh32::xxh32`). Claimed: the value named
/// `xxh32_value(data)`, which depends on the bytes of `data` alone.
#[verifier::external_body]
pub(crate) fn xxh32_hash(data: &[u8]) -> (res: u32)
    ensures
        res == xxh32_value(data@),
{
    xxhash_rust::xxh32::xxh32(data, 0)
}

/// Named result: XXH64 of `data` with seed 0 (`xxhash_rust::xxh64::xxh64`).
pub uninterp spec fn xxh64_value(data: Seq<u8>) -> u64;

/// XXH64 of `data` with seed 0 (`xxhash_rust::xxh64::xxh64`). Claimed: the value named
/// `xxh64_value(data)`, which depends on the bytes of `data` alone.
#[verifier::external_body]
pub(crate) fn xxh64_hash(data: &[u8]) -> (res: u64)
    ensures
        res == xxh64_value(data@),
{
    xxhash_rust::xxh64::xxh64(data, 0)
}

/// Named result: 64-bit XXH3 of `data` (`xxhash_rust::xxh3::xxh3_64`).
pub uninterp spec fn xxh3_64_value(data: Seq<u8>) -> u64;

/// 64-bit XXH3 of `data` (`xxhash_rust::xxh3::xxh3_64`). Claimed: the value named
/// `xxh3_64_value(data)`, which depends on the bytes of `data` alone.
#[verifier::external_body]
pub(crate) fn xxh3_64_hash(data: &[u8]) -> (res: u64)
    ensures
        res == xxh3_64_value(data@),
{
    xxhash_rust::xxh3::xxh3_64(data)
}

/// Named result: 128-bit XXH3 of `data` (`xxhash_rust::xxh3::xxh3_128`).
pub uninterp spec fn xxh3_128_value(data: Seq<u8>) -> u128;

/// 128-bit XXH3 of `data` (`xxhash_rust::xxh3::xxh3_128`). Claimed: the value named
/// `xxh3_128_value(data)`, which depends on the bytes of `data` alone.
#[verifier::external_body]
pub(crate) fn xxh3_128_hash(data: &[u8]) -> (res: u128)
    ensures
        res == xxh3_128_value(data@),
{
    xxhash_rust::xxh3::xxh3_128(data)
}

/// Named result: 128-bit SipHash-1-3 of `data` under the all-zero key, as the 16 bytes of `siphasher::sip128::Hash128::as_bytes` (`siphasher::sip128::SipHasher13::new().hash`).
pub uninterp spec fn siphash13_128_digest(data: Seq<u8>) -> Seq<u8>;

/// 128-bit SipHash-1-3 of `data` under the all-zero key, as the 16 bytes of `siphasher::sip128::Hash128::as_bytes` (`siphasher::sip128::SipHasher13::new().hash`). Claimed: the bytes named
/// `siphash13_128_digest(data)`, 16 of them, as the output size in the crate's type fixes.
#[verifier::external_body]
pub(crate) fn siphash13_128_hash(data: &[u8]) -> (res: Vec<u8>)
    ensures
        res@ == siphash13_128_digest(data@),
        res@.len() == 16,
{
    siphasher::sip128::SipHasher13::new().hash(data).as_bytes().to_vec()
}

/// Named result: 128-bit SipHash-2-4 of `data` under the all-zero key, as the 16 bytes of `siphasher::sip128::Hash128::as_bytes` (`siphasher::sip128::SipHasher24::new().hash`).
pub uninterp spec fn siphash24_128_digest(data: Seq<u8>) -> Seq<u8>;

/// 128-bit SipHash-2-4 of `data` under the all-zero key, as the 16 bytes of `siphasher::sip128::Hash128::as_bytes` (`siphasher::sip128::SipHasher24::new().hash`). Claimed: the bytes named
/// `siphash24_128_digest(data)`, 16 of them, as the output size in the crate's type fixes.
#[verifier::external_body]
pub(crate) fn siphash24_128_hash(data: &[u8]) -> (res: Vec<u8>)
    ensures
        res@ == siphash24_128_digest(data@),
        res@.len() == 16,
{
    siphasher::sip128::SipHasher24::new().hash(data).as_bytes().to_vec()
}

/// Named result: MD5 digest of `data` (`md5::compute`).
pub uninterp spec fn md5_digest(data: Seq<u8>) -> Seq<u8>;

/// MD5 digest of `data` (`md5::compute`). Claimed: the bytes named
/// `md5_digest(data)`, 16 of them, as the output size in the crate's type fixes.
#[verifier::external_body]
pub(crate) fn md5_hash(data: &[u8]) -> (res: Vec<u8>)
    ensures
        res@ == md5_digest(data@),
        res@.len() == 16,
{
    md5::compute(data).0.to_vec()
}

/// Named result: SHA-1 digest of `data` (`sha1::Sha1` through `Digest::digest`).
pub uninterp spec fn sha1_digest(data: Seq<u8>) -> Seq<u8>;

/// SHA-1 digest of `data` (`sha1::Sha1` through `Digest::digest`). Claimed: the bytes named
/// `sha1_digest(data)`, 20 of them, as the output size in the crate's type fixes.
#[verifier::external_body]
pub(crate) fn sha1_hash(data: &[u8]) -> (res: Vec<u8>)
    ensures
        res@ == sha1_digest(data@),
        res@.len() == 20,
{
    <sha1::Sha1 as sha1::Digest>::digest(data).to_vec()
}

/// Named result: SHA-224 digest of `data` (`sha2::Sha224`).
pub uninterp spec fn sha224_digest(data: Seq<u8>) -> Seq<u8>;

/// SHA-224 digest of `data` (`sha2::Sha224`). Claimed: the bytes named
/// `sha224_digest(data)`, 28 of them, as the output size in the crate's type fixes.
#[verifier::external_body]
pub(crate) fn sha224_hash(data: &[u8]) -> (res: Vec<u8>)
    ensures
        res@ == sha224_digest(data@),
        res@.len() == 28,
{
    <sha2::Sha224 as sha2::Digest>::digest(data).to_vec()
}

/// Named result: SHA-256 digest of `data` (`sha2::Sha256`).
pub uninterp spec fn sha256_digest(data: Seq<u8>) -> Seq<u8>;

/// SHA-256 digest of `data` (`sha2::Sha256`). Claimed: the bytes named
/// `sha256_digest(data)`, 32 of them, as the output size in the crate's type fixes.
#[verifier::external_body]
pub(crate) fn sha256_hash(data: &[u8]) -> (res: Vec<u8>)
    ensures
        res@ == sha256_digest(data@),
        res@.len() == 32,
{
    <sha2::Sha256 as sha2::Digest>::digest(data).to_vec()
}

/// Named result: SHA-384 digest of `data` (`sha2::Sha384`).
pub uninterp spec fn sha384_digest(data: Seq<u8>) -> Seq<u8>;

/// SHA-384 digest of `data` (`sha2::Sha384`). Claimed: the bytes named
/// `sha384_digest(data)`, 48 of them, as the output size in the crate's type fixes.
#[verifier::external_body]
pub(crate) fn sha384_hash(data: &[u8]) -> (res: Vec<u8>)
    ensures
        res@ == sha384_digest(data@),
        res@.len() == 48,
{
    <sha2::Sha384 as sha2::Digest>::digest(data).to_vec()
}

/// Named result: SHA-512 digest of `data` (`sha2::Sha512`).
pub uninterp spec fn sha512_digest(data: Seq<u8>) -> Seq<u8>;

/// SHA-512 digest of `data` (`sha2::Sha512`). Claimed: the bytes named
/// `sha512_digest(data)`, 64 of them, as the output size in the crate's type fixes.
#[verifier::external_body]
pub(crate) fn sha512_hash(data: &[u8]) -> (res: Vec<u8>)
    ensures
        res@ == sha512_digest(data@),
        res@.len() == 64,
{
    <sha2::Sha512 as sha2::Digest>::digest(data).to_vec()
}

/// Named result: SHA-512/224 digest of `data` (`sha2::Sha512_224`).
pub uninterp spec fn sha512_224_digest(data: Seq<u8>) -> Seq<u8>;

/// SHA-512/224 digest of `data` (`sha2::Sha512_224`). Claimed: the bytes named
/// `sha512_224_digest(data)`, 28 of them, as the output size in the crate's type fixes.
#[verifier::external_body]
pub(crate) fn sha512_224_hash(data: &[u8]) -> (res: Vec<u8>)
    ensures
        res@ == sha512_224_digest(data@),
        res@.len() == 28,
{
    <sha2::Sha512_224 as sha2::Digest>::digest(data).to_vec()
}

/// Named result: SHA-512/256 digest of `data` (`sha2::Sha512_256`).
pub uninterp spec fn sha512_256_digest(data: Seq<u8>) -> Seq<u8>;

/// SHA-512/256 digest of `data` (`sha2::Sha512_256`). Claimed: the bytes named
/// `sha512_256_digest(data)`, 32 of them, as the output size in the crate's type fixes.
#[verifier::external_body]
pub(crate) fn sha512_256_hash(data: &[u8]) -> (res: Vec<u8>)
    ensures
        res@ == sha512_256_digest(data@),
        res@.len() == 32,
{
    <sha2::Sha512_256 as sha2::Digest>::digest(data).to_vec()
}

/// Named result: Keccak-224 digest of `data` (`sha3::Keccak224`).
pub uninterp spec fn keccak224_digest(data: Seq<u8>) -> Seq<u8>;

/// Keccak-224 digest of `data` (`sha3::Keccak224`). Claimed: the bytes named
/// `keccak224_digest(data)`, 28 of them, as the output size in the crate's type fixes.
#[verifier::external_body]
pub(crate) fn keccak224_hash(data: &[u8]) -> (res: Vec<u8>)
    ensures
        res@ == keccak224_digest(data@),
        res@.len() == 28,
{
    <sha3::Keccak224 as sha3::Digest>::digest(data).to_vec()
}

/// Named result: Keccak-256 digest of `data` (`sha3::Keccak256`).
pub uninterp spec fn keccak256_digest(data: Seq<u8>) -> Seq<u8>;

/// Keccak-256 digest of `data` (`sha3::Keccak256`). Claimed: the bytes named
/// `keccak256_digest(data)`, 32 of them, as the output size in the crate's type fixes.
#[verifier::external_body]
pub(crate) fn keccak256_hash(data: &[u8]) -> (res: Vec<u8>)
    ensures
        res@ == keccak256_digest(data@),
        res@.len() == 32,
{
    <sha3::Keccak256 as sha3::Digest>::digest(data).to_vec()
}

/// Named result: Full 200-byte Keccak-256 state digest of `data` (`sha3::Keccak256Full`).
pub uninterp spec fn keccak256_full_digest(data: Seq<u8>) -> Seq<u8>;

/// Full 200-byte Keccak-256 state digest of `data` (`sha3::Keccak256Full`). Claimed: the bytes named
/// `keccak256_full_digest(data)`, 200 of them, as the output size in the crate's type fixes.
#[verifier::external_body]
pub(crate) fn keccak256_full_hash(data: &[u8]) -> (res: Vec<u8>)
    ensures
        res@ == keccak256_full_digest(data@),
        res@.len() == 200,
{
    <sha3::Keccak256Full as sha3::Digest>::digest(data).to_vec()
}

/// Named result: Keccak-384 digest of `data` (`sha3::Keccak384`).
pub uninterp spec fn keccak384_digest(data: Seq<u8>) -> Seq<u8>;

/// Keccak-384 digest of `data` (`sha3::Keccak384`). Claimed: the bytes named
/// `keccak384_digest(data)`, 48 of them, as the output size in the crate's type fixes.
#[verifier::external_body]
pub(crate) fn keccak384_hash(data: &[u8]) -> (res: Vec<u8>)
    ensures
        res@ == keccak384_digest(data@),
        res@.len() == 48,
{
    <sha3::Keccak384 as sha3::Digest>::digest(data).to_vec()
}

/// Named result: Keccak-512 digest of `data` (`sha3::Keccak512`).
pub uninterp spec fn keccak512_digest(data: Seq<u8>) -> Seq<u8>;

/// Keccak-512 digest of `data` (`sha3::Keccak512`). Claimed: the bytes named
/// `keccak512_digest(data)`, 64 of them, as the output size in the crate's type fixes.
#[verifier::external_body]
pub(crate) fn keccak512_hash(data: &[u8]) -> (res: Vec<u8>)
    ensures
        res@ == keccak512_digest(data@),
        res@.len() == 64,
{
    <sha3::Keccak512 as sha3::Digest>::digest(data).to_vec()
}

/// Named result: SHA3-224 digest of `data` (`sha3::Sha3_224`).
pub uninterp spec fn sha3_224_digest(data: Seq<u8>) -> Seq<u8>;

/// SHA3-224 digest of `data` (`sha3::Sha3_224`). Claimed: the bytes named
/// `sha3_224_digest(data)`, 28 of them, as the output size in the crate's type fixes.
#[verifier::external_body]
pub(crate) fn sha3_224_hash(data: &[u8]) -> (res: Vec<u8>)
    ensures
        res@ == sha3_224_digest(data@),
        res@.len() == 28,
{
    <sha3::Sha3_224 as sha3::Digest>::digest(data).to_vec()
}

/// Named result: SHA3-256 digest of `data` (`sha3::Sha3_256`).
pub uninterp spec fn sha3_256_digest(data: Seq<u8>) -> Seq<u8>;

/// SHA3-256 digest of `data` (`sha3::Sha3_256`). Claimed: the bytes named
/// `sha3_256_digest(data)`, 32 of them, as the output size in the crate's type fixes.
#[verifier::external_body]
pub(crate) fn sha3_256_hash(data: &[u8]) -> (res: Vec<u8>)
    ensures
        res@ == sha3_256_digest(data@),
        res@.len() == 32,
{
    <sha3::Sha3_256 as sha3::Digest>::digest(data).to_vec()
}

/// Named result: SHA3-384 digest of `data` (`sha3::Sha3_384`).
pub uninterp spec fn sha3_384_digest(data: Seq<u8>) -> Seq<u8>;

/// SHA3-384 digest of `data` (`sha3::Sha3_384`). Claimed: the bytes named
/// `sha3_384_digest(data)`, 48 of them, as the output size in the crate's type fixes.
#[verifier::external_body]
pub(crate) fn sha3_384_hash(data: &[u8]) -> (res: Vec<u8>)
    ensures
        res@ == sha3_384_digest(data@),
        res@.len() == 48,
{
    <sha3::Sha3_384 as sha3::Digest>::digest(data).to_vec()
}

/// Named result: SHA3-512 digest of `data` (`sha3::Sha3_512`).
pub uninterp spec fn sha3_512_digest(data: Seq<u8>) -> Seq<u8>;

/// SHA3-512 digest of `data` (`sha3::Sha3_512`). Claimed: the bytes named
/// `sha3_512_digest(data)`, 64 of them, as the output size in the crate's type fixes.
#[verifier::external_body]
pub(crate) fn sha3_512_hash(data: &[u8]) -> (res: Vec<u8>)
    ensures
        res@ == sha3_512_digest(data@),
        res@.len() == 64,
{
    <sha3::Sha3_512 as sha3::Digest>::digest(data).to_vec()
}

/// Named result: BLAKE2s-256 digest of `data` (`blake2::Blake2s256`).
pub uninterp spec fn blake2s_digest(data: Seq<u8>) -> Seq<u8>;

/// BLAKE2s-256 digest of `data` (`blake2::Blake2s256`). Claimed: the bytes named
/// `blake2s_digest(data)`, 32 of them, as the output size in the crate's type fixes.
#[verifier::external_body]
pub(crate) fn blake2s_hash(data: &[u8]) -> (res: Vec<u8>)
    ensures
        res@ == blake2s_digest(data@),
        res@.len() == 32,
{
    <blake2::Blake2s256 as blake2::Digest>::digest(data).to_vec()
}

/// Named result: BLAKE2b-512 digest of `data` (`blake2::Blake2b512`).
pub uninterp spec fn blake2b_digest(data: Seq<u8>) -> Seq<u8>;

/// BLAKE2b-512 digest of `data` (`blake2::Blake2b512`). Claimed: the bytes named
/// `blake2b_digest(data)`, 64 of them, as the output size in the crate's type fixes.
#[verifier::external_body]
pub(crate) fn blake2b_hash(data: &[u8]) -> (res: Vec<u8>)
    ensures
        res@ == blake2b_digest(data@),
        res@.len() == 64,
{
    <blake2::Blake2b512 as blake2::Digest>::digest(data).to_vec()
}

} // verus!
