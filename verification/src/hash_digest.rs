use vstd::prelude::*;

use crate::digest::{blake3_digest, blake3_hash};
use crate::hash_algorithm::HashAlgorithm;
use crate::hash_fns::{
    blake2b_digest, blake2b_hash, blake2s_digest, blake2s_hash, crc32_hash, crc32_value,
    crc32c_hash, crc32c_value, keccak224_digest, keccak224_hash, keccak256_digest, keccak256_full_digest,
    keccak256_full_hash, keccak256_hash, keccak384_digest, keccak384_hash, keccak512_digest,
    keccak512_hash, md5_digest, md5_hash, seahash_hash, seahash_value, sha1_digest, sha1_hash,
    sha224_digest, sha224_hash, sha256_digest, sha256_hash, sha384_digest, sha384_hash,
    sha3_224_digest, sha3_224_hash, sha3_256_digest, sha3_256_hash, sha3_384_digest,
    sha3_384_hash, sha3_512_digest, sha3_512_hash, sha512_224_digest, sha512_224_hash,
    sha512_256_digest, sha512_256_hash, sha512_digest, sha512_hash, siphash13_128_digest,
    siphash13_128_hash, siphash13_hash, siphash13_value, siphash24_128_digest, siphash24_128_hash,
    siphash24_hash, siphash24_value, xxh32_hash, xxh32_value, xxh3_128_hash, xxh3_128_value,
    xxh3_64_hash, xxh3_64_value, xxh64_hash, xxh64_value,
};

verus! {

/// The last `n` bytes of `v` in base 256, most significant first
/// (`v` is taken modulo `256^n`).
pub open spec fn be_bytes(v: nat, n: nat) -> Seq<u8>
    decreases n,
{
    if n == 0 {
        Seq::empty()
    } else {
        be_bytes(v / 256, (n - 1) as nat).push((v % 256) as u8)
    }
}

/// `be_bytes(v, n)` has `n` bytes.
pub proof fn lemma_be_bytes_len(v: nat, n: nat)
    ensures
        be_bytes(v, n).len() == n,
    decreases n,
{
    if n > 0 {
        lemma_be_bytes_len(v / 256, (n - 1) as nat);
    }
}

/// The big-endian bytes of the last `n` bytes of `v`.
pub fn to_be_bytes(v: u128, n: usize) -> (res: Vec<u8>)
    ensures
        res@ == be_bytes(v as nat, n as nat),
    decreases n,
{
    if n == 0 {
        Vec::new()
    } else {
        let mut r = to_be_bytes(v / 256, n - 1);
        r.push((v % 256) as u8);
        r
    }
}

/// Whether a digest is computed for `a`: for every algorithm but the
/// extendable-output ones (SHAKE, TurboSHAKE, cSHAKE).
pub open spec fn has_digest(a: HashAlgorithm) -> bool {
    match a {
        HashAlgorithm::Shake_128 | HashAlgorithm::Shake_256 | HashAlgorithm::TurboShake_128
        | HashAlgorithm::TurboShake_256 | HashAlgorithm::CShake_128
        | HashAlgorithm::CShake_256 => false,
        _ => true,
    }
}

/// Whether a digest is computed for `algorithm`.
pub fn computes_digest(algorithm: HashAlgorithm) -> (res: bool)
    ensures
        res == has_digest(algorithm),
{
    match algorithm {
        HashAlgorithm::Shake_128 | HashAlgorithm::Shake_256 | HashAlgorithm::TurboShake_128
        | HashAlgorithm::TurboShake_256 | HashAlgorithm::CShake_128
        | HashAlgorithm::CShake_256 => false,
        _ => true,
    }
}

/// The digest of `data` under `a`. Integer-valued hashes are written out
/// big-endian; SipHash-128 takes the bytes of its two halves as the
/// `siphasher` crate writes them.
pub open spec fn algorithm_digest(a: HashAlgorithm, data: Seq<u8>) -> Seq<u8> {
    match a {
        HashAlgorithm::Seahash => be_bytes(seahash_value(data) as nat, 8),
        HashAlgorithm::Crc32 => be_bytes(crc32_value(data) as nat, 4),
        HashAlgorithm::Crc32c => be_bytes(crc32c_value(data) as nat, 4),
        HashAlgorithm::Siphash_1_3_64 => be_bytes(siphash13_value(data) as nat, 8),
        HashAlgorithm::Siphash_1_3_128 => siphash13_128_digest(data),
        HashAlgorithm::Siphash_2_4_64 => be_bytes(siphash24_value(data) as nat, 8),
        HashAlgorithm::Siphash_2_4_128 => siphash24_128_digest(data),
        HashAlgorithm::Xxh_32 => be_bytes(xxh32_value(data) as nat, 4),
        HashAlgorithm::Xxh_64 => be_bytes(xxh64_value(data) as nat, 8),
        HashAlgorithm::Xxh3_64 => be_bytes(xxh3_64_value(data) as nat, 8),
        HashAlgorithm::Xxh3_128 => be_bytes(xxh3_128_value(data) as nat, 16),
        HashAlgorithm::Md5 => md5_digest(data),
        HashAlgorithm::Sha1 => sha1_digest(data),
        HashAlgorithm::Sha2_224 => sha224_digest(data),
        HashAlgorithm::Sha2_256 => sha256_digest(data),
        HashAlgorithm::Sha2_384 => sha384_digest(data),
        HashAlgorithm::Sha2_512 => sha512_digest(data),
        HashAlgorithm::Sha2_512_224 => sha512_224_digest(data),
        HashAlgorithm::Sha2_512_256 => sha512_256_digest(data),
        HashAlgorithm::Keccak_224 => keccak224_digest(data),
        HashAlgorithm::Keccak_256 => keccak256_digest(data),
        HashAlgorithm::Keccak_256_Full => keccak256_full_digest(data),
        HashAlgorithm::Keccak_384 => keccak384_digest(data),
        HashAlgorithm::Keccak_512 => keccak512_digest(data),
        HashAlgorithm::Sha3_224 => sha3_224_digest(data),
        HashAlgorithm::Sha3_256 => sha3_256_digest(data),
        HashAlgorithm::Sha3_384 => sha3_384_digest(data),
        HashAlgorithm::Sha3_512 => sha3_512_digest(data),
        HashAlgorithm::Blake2s => blake2s_digest(data),
        HashAlgorithm::Blake2b => blake2b_digest(data),
        HashAlgorithm::Blake3 => blake3_digest(data),
        _ => Seq::empty(),
    }
}

/// The number of bytes in a digest under `a` (0 where none is computed).
pub open spec fn digest_len(a: HashAlgorithm) -> nat {
    match a {
        HashAlgorithm::Crc32 | HashAlgorithm::Crc32c | HashAlgorithm::Xxh_32 => 4,
        HashAlgorithm::Seahash | HashAlgorithm::Siphash_1_3_64 | HashAlgorithm::Siphash_2_4_64
        | HashAlgorithm::Xxh_64 | HashAlgorithm::Xxh3_64 => 8,
        HashAlgorithm::Siphash_1_3_128 | HashAlgorithm::Siphash_2_4_128 | HashAlgorithm::Xxh3_128
        | HashAlgorithm::Md5 => 16,
        HashAlgorithm::Sha1 => 20,
        HashAlgorithm::Sha2_224 | HashAlgorithm::Sha2_512_224 | HashAlgorithm::Keccak_224
        | HashAlgorithm::Sha3_224 => 28,
        HashAlgorithm::Sha2_256 | HashAlgorithm::Sha2_512_256 | HashAlgorithm::Keccak_256
        | HashAlgorithm::Sha3_256 | HashAlgorithm::Blake2s | HashAlgorithm::Blake3 => 32,
        HashAlgorithm::Sha2_384 | HashAlgorithm::Keccak_384 | HashAlgorithm::Sha3_384 => 48,
        HashAlgorithm::Sha2_512 | HashAlgorithm::Keccak_512 | HashAlgorithm::Sha3_512
        | HashAlgorithm::Blake2b => 64,
        HashAlgorithm::Keccak_256_Full => 200,
        _ => 0,
    }
}

/// Digest of `data` under `algorithm`, where one is computed.
fn digest_bytes(algorithm: HashAlgorithm, data: &[u8]) -> (res: Vec<u8>)
    requires
        has_digest(algorithm),
    ensures
        res@ == algorithm_digest(algorithm, data@),
        res@.len() == digest_len(algorithm),
{
    proof {
        lemma_be_bytes_len(seahash_value(data@) as nat, 8);
        lemma_be_bytes_len(crc32_value(data@) as nat, 4);
        lemma_be_bytes_len(crc32c_value(data@) as nat, 4);
        lemma_be_bytes_len(siphash13_value(data@) as nat, 8);
        lemma_be_bytes_len(siphash24_value(data@) as nat, 8);
        lemma_be_bytes_len(xxh32_value(data@) as nat, 4);
        lemma_be_bytes_len(xxh64_value(data@) as nat, 8);
        lemma_be_bytes_len(xxh3_64_value(data@) as nat, 8);
        lemma_be_bytes_len(xxh3_128_value(data@) as nat, 16);
    }
    match algorithm {
        HashAlgorithm::Seahash => to_be_bytes(seahash_hash(data) as u128, 8),
        HashAlgorithm::Crc32 => to_be_bytes(crc32_hash(data) as u128, 4),
        HashAlgorithm::Crc32c => to_be_bytes(crc32c_hash(data) as u128, 4),
        HashAlgorithm::Siphash_1_3_64 => to_be_bytes(siphash13_hash(data) as u128, 8),
        HashAlgorithm::Siphash_1_3_128 => siphash13_128_hash(data),
        HashAlgorithm::Siphash_2_4_64 => to_be_bytes(siphash24_hash(data) as u128, 8),
        HashAlgorithm::Siphash_2_4_128 => siphash24_128_hash(data),
        HashAlgorithm::Xxh_32 => to_be_bytes(xxh32_hash(data) as u128, 4),
        HashAlgorithm::Xxh_64 => to_be_bytes(xxh64_hash(data) as u128, 8),
        HashAlgorithm::Xxh3_64 => to_be_bytes(xxh3_64_hash(data) as u128, 8),
        HashAlgorithm::Xxh3_128 => to_be_bytes(xxh3_128_hash(data), 16),
        HashAlgorithm::Md5 => md5_hash(data),
        HashAlgorithm::Sha1 => sha1_hash(data),
        HashAlgorithm::Sha2_224 => sha224_hash(data),
        HashAlgorithm::Sha2_256 => sha256_hash(data),
        HashAlgorithm::Sha2_384 => sha384_hash(data),
        HashAlgorithm::Sha2_512 => sha512_hash(data),
        HashAlgorithm::Sha2_512_224 => sha512_224_hash(data),
        HashAlgorithm::Sha2_512_256 => sha512_256_hash(data),
        HashAlgorithm::Keccak_224 => keccak224_hash(data),
        HashAlgorithm::Keccak_256 => keccak256_hash(data),
        HashAlgorithm::Keccak_256_Full => keccak256_full_hash(data),
        HashAlgorithm::Keccak_384 => keccak384_hash(data),
        HashAlgorithm::Keccak_512 => keccak512_hash(data),
        HashAlgorithm::Sha3_224 => sha3_224_hash(data),
        HashAlgorithm::Sha3_256 => sha3_256_hash(data),
        HashAlgorithm::Sha3_384 => sha3_384_hash(data),
        HashAlgorithm::Sha3_512 => sha3_512_hash(data),
        HashAlgorithm::Blake2s => blake2s_hash(data),
        HashAlgorithm::Blake2b => blake2b_hash(data),
        HashAlgorithm::Blake3 => {
            let d = blake3_hash(data);
            let mut v: Vec<u8> = Vec::new();
            let mut i: usize = 0;
            while i < 32
                invariant
                    i <= 32,
                    d@.len() == 32,
                    v@ == d@.subrange(0, i as int),
                decreases 32 - i,
            {
                v.push(d[i]);
                i = i + 1;
            }
            v
        },
        _ => Vec::new(),
    }
}

/// Digest of `data` under `algorithm`: `None` for the extendable-output
/// algorithms, for which no digest is computed.
pub fn digest(algorithm: HashAlgorithm, data: &[u8]) -> (res: Option<Vec<u8>>)
    ensures
        res is Some <==> has_digest(algorithm),
        res matches Some(d) ==> d@ == algorithm_digest(algorithm, data@)
            && d@.len() == digest_len(algorithm),
{
    if computes_digest(algorithm) {
        Some(digest_bytes(algorithm, data))
    } else {
        None
    }
}

/// An incremental hasher for one algorithm: what is written to it is
/// digested as one input when it is finalized.
pub struct AlgorithmHasher {
    algorithm: HashAlgorithm,
    written: Vec<u8>,
}

impl AlgorithmHasher {
    #[verifier::type_invariant]
    spec fn digestible(self) -> bool {
        has_digest(self.algorithm)
    }

    /// The algorithm of the hasher.
    pub closed spec fn algorithm_spec(self) -> HashAlgorithm {
        self.algorithm
    }

    /// Everything written to the hasher so far.
    pub closed spec fn written_spec(self) -> Seq<u8> {
        self.written@
    }

    /// A hasher for `algorithm` with nothing written; `None` where no digest
    /// is computed for `algorithm`.
    pub fn new(algorithm: HashAlgorithm) -> (res: Option<Self>)
        ensures
            res is Some <==> has_digest(algorithm),
            res matches Some(h) ==> h.algorithm_spec() == algorithm
                && h.written_spec() == Seq::<u8>::empty(),
    {
        if computes_digest(algorithm) {
            Some(AlgorithmHasher { algorithm, written: Vec::new() })
        } else {
            None
        }
    }

    /// The algorithm of the hasher.
    pub fn algorithm(&self) -> (res: HashAlgorithm)
        ensures
            res == self.algorithm_spec(),
    {
        self.algorithm
    }

    /// Feed `data` to the hasher.
    pub fn write(&mut self, data: &[u8])
        ensures
            final(self).algorithm_spec() == old(self).algorithm_spec(),
            final(self).written_spec() == old(self).written_spec() + data@,
    {
        proof {
            use_type_invariant(&*self);
        }
        let mut written: Vec<u8> = Vec::new();
        std::mem::swap(&mut written, &mut self.written);
        let ghost before = written@;
        let mut i: usize = 0;
        while i < data.len()
            invariant
                i <= data.len(),
                written@ == before + data@.subrange(0, i as int),
            decreases data.len() - i,
        {
            written.push(data[i]);
            i = i + 1;
        }
        assert(data@.subrange(0, data@.len() as int) == data@);
        self.written = written;
    }

    /// The digest of everything written, under the hasher's algorithm.
    pub fn finalize(self) -> (res: Vec<u8>)
        ensures
            has_digest(self.algorithm_spec()),
            res@ == algorithm_digest(self.algorithm_spec(), self.written_spec()),
            res@.len() == digest_len(self.algorithm_spec()),
    {
        proof {
            use_type_invariant(&self);
        }
        digest_bytes(self.algorithm, self.written.as_slice())
    }
}

} // verus!
