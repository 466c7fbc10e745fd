use vstd::prelude::*;

use crate::text::{ascii_lower_seq, chars_eq, chars_of, string_from_chars, to_ascii_lowercase};

verus! {

/// Hash algorithms.
#[allow(non_camel_case_types)]
#[derive(Debug, Clone, Copy, PartialEq, Eq, Hash, Structural)]
pub enum HashAlgorithm {
    Seahash,
    Crc32,
    Crc32c,
    Siphash_1_3_64,
    Siphash_1_3_128,
    Siphash_2_4_64,
    Siphash_2_4_128,
    Xxh_32,
    Xxh_64,
    Xxh3_64,
    Xxh3_128,
    Md5,
    Sha1,
    Sha2_224,
    Sha2_256,
    Sha2_384,
    Sha2_512,
    Sha2_512_224,
    Sha2_512_256,
    Shake_128,
    Shake_256,
    TurboShake_128,
    TurboShake_256,
    CShake_128,
    CShake_256,
    Keccak_224,
    Keccak_256,
    Keccak_256_Full,
    Keccak_384,
    Keccak_512,
    Sha3_224,
    Sha3_256,
    Sha3_384,
    Sha3_512,
    Blake2s,
    Blake2b,
    Blake3,
}

/// Name of a hash algorithm.
pub open spec fn hash_algorithm_name(a: HashAlgorithm) -> Seq<char> {
    match a {
        HashAlgorithm::Seahash => "seahash"@,
        HashAlgorithm::Crc32 => "crc32"@,
        HashAlgorithm::Crc32c => "crc32c"@,
        HashAlgorithm::Siphash_1_3_64 => "siphash-1-3-64"@,
        HashAlgorithm::Siphash_1_3_128 => "siphash-1-3-128"@,
        HashAlgorithm::Siphash_2_4_64 => "siphash-2-4-64"@,
        HashAlgorithm::Siphash_2_4_128 => "siphash-2-4-128"@,
        HashAlgorithm::Xxh_32 => "xxh-32"@,
        HashAlgorithm::Xxh_64 => "xxh-64"@,
        HashAlgorithm::Xxh3_64 => "xxh3-64"@,
        HashAlgorithm::Xxh3_128 => "xxh3-128"@,
        HashAlgorithm::Md5 => "md5"@,
        HashAlgorithm::Sha1 => "sha1"@,
        HashAlgorithm::Sha2_224 => "sha2-224"@,
        HashAlgorithm::Sha2_256 => "sha2-256"@,
        HashAlgorithm::Sha2_384 => "sha2-384"@,
        HashAlgorithm::Sha2_512 => "sha2-512"@,
        HashAlgorithm::Sha2_512_224 => "sha2-512/224"@,
        HashAlgorithm::Sha2_512_256 => "sha2-512/256"@,
        HashAlgorithm::Shake_128 => "shake-128"@,
        HashAlgorithm::Shake_256 => "shake-256"@,
        HashAlgorithm::TurboShake_128 => "turboshake-128"@,
        HashAlgorithm::TurboShake_256 => "turboshake-256"@,
        HashAlgorithm::CShake_128 => "cshake-128"@,
        HashAlgorithm::CShake_256 => "cshake-256"@,
        HashAlgorithm::Keccak_224 => "keccak-224"@,
        HashAlgorithm::Keccak_256 => "keccak-256"@,
        HashAlgorithm::Keccak_256_Full => "keccak-256-full"@,
        HashAlgorithm::Keccak_384 => "keccak-384"@,
        HashAlgorithm::Keccak_512 => "keccak-512"@,
        HashAlgorithm::Sha3_224 => "sha3-224"@,
        HashAlgorithm::Sha3_256 => "sha3-256"@,
        HashAlgorithm::Sha3_384 => "sha3-384"@,
        HashAlgorithm::Sha3_512 => "sha3-512"@,
        HashAlgorithm::Blake2s => "blake2s"@,
        HashAlgorithm::Blake2b => "blake2b"@,
        HashAlgorithm::Blake3 => "blake3"@,
    }
}

/// Hash algorithm of a lower-case name; most algorithms have a few
/// spellings.
pub open spec fn hash_algorithm_of_name(s: Seq<char>) -> Option<HashAlgorithm> {
    if s == "seahash"@ {
        Some(HashAlgorithm::Seahash)
    } else if s == "crc32"@ {
        Some(HashAlgorithm::Crc32)
    } else if s == "crc32c"@ {
        Some(HashAlgorithm::Crc32c)
    } else if s == "siphash-1-3-64"@ || s == "siphash-1-3"@ {
        Some(HashAlgorithm::Siphash_1_3_64)
    } else if s == "siphash-1-3-128"@ {
        Some(HashAlgorithm::Siphash_1_3_128)
    } else if s == "siphash-2-4-64"@ || s == "siphash-2-4"@ || s == "siphash"@ {
        Some(HashAlgorithm::Siphash_2_4_64)
    } else if s == "siphash-2-4-128"@ {
        Some(HashAlgorithm::Siphash_2_4_128)
    } else if s == "xxh-32"@ || s == "xxh32"@ {
        Some(HashAlgorithm::Xxh_32)
    } else if s == "xxh-64"@ || s == "xxh64"@ {
        Some(HashAlgorithm::Xxh_64)
    } else if s == "xxh3-64"@ || s == "xxh3"@ {
        Some(HashAlgorithm::Xxh3_64)
    } else if s == "xxh3-128"@ {
        Some(HashAlgorithm::Xxh3_128)
    } else if s == "md5"@ {
        Some(HashAlgorithm::Md5)
    } else if s == "sha1"@ {
        Some(HashAlgorithm::Sha1)
    } else if s == "sha2-224"@ {
        Some(HashAlgorithm::Sha2_224)
    } else if s == "sha2-256"@ || s == "sha2"@ {
        Some(HashAlgorithm::Sha2_256)
    } else if s == "sha2-384"@ {
        Some(HashAlgorithm::Sha2_384)
    } else if s == "sha2-512"@ {
        Some(HashAlgorithm::Sha2_512)
    } else if s == "sha2-512/224"@ || s == "sha2-512-224"@ {
        Some(HashAlgorithm::Sha2_512_224)
    } else if s == "sha2-512/256"@ || s == "sha2-512-256"@ {
        Some(HashAlgorithm::Sha2_512_256)
    } else if s == "shake-128"@ || s == "shake128"@ {
        Some(HashAlgorithm::Shake_128)
    } else if s == "shake-256"@ || s == "shake256"@ {
        Some(HashAlgorithm::Shake_256)
    } else if s == "turboshake-128"@ || s == "turboshake128"@ {
        Some(HashAlgorithm::TurboShake_128)
    } else if s == "turboshake-256"@ || s == "turboshake256"@ {
        Some(HashAlgorithm::TurboShake_256)
    } else if s == "cshake-128"@ || s == "cshake128"@ {
        Some(HashAlgorithm::CShake_128)
    } else if s == "cshake-256"@ || s == "cshake256"@ {
        Some(HashAlgorithm::CShake_256)
    } else if s == "keccak-224"@ || s == "keccak224"@ {
        Some(HashAlgorithm::Keccak_224)
    } else if s == "keccak-256"@ || s == "keccak256"@ {
        Some(HashAlgorithm::Keccak_256)
    } else if s == "keccak-256-full"@ || s == "keccak256-full"@ || s == "keccak256full"@ {
        Some(HashAlgorithm::Keccak_256_Full)
    } else if s == "keccak-384"@ || s == "keccak384"@ {
        Some(HashAlgorithm::Keccak_384)
    } else if s == "keccak-512"@ || s == "keccak512"@ {
        Some(HashAlgorithm::Keccak_512)
    } else if s == "sha3-224"@ {
        Some(HashAlgorithm::Sha3_224)
    } else if s == "sha3-256"@ {
        Some(HashAlgorithm::Sha3_256)
    } else if s == "sha3-384"@ {
        Some(HashAlgorithm::Sha3_384)
    } else if s == "sha3-512"@ {
        Some(HashAlgorithm::Sha3_512)
    } else if s == "blake2s"@ {
        Some(HashAlgorithm::Blake2s)
    } else if s == "blake2b"@ {
        Some(HashAlgorithm::Blake2b)
    } else if s == "blake3"@ {
        Some(HashAlgorithm::Blake3)
    } else {
        None
    }
}

/// Whether the characters of `a` spell the string `b`.
fn chars_spell(a: &[char], b: &str) -> (r: bool)
    ensures
        r == (a@ == b@),
{
    let bs = chars_of(b);
    chars_eq(a, bs.as_slice())
}

impl HashAlgorithm {
    /// Name of the algorithm.
    pub fn name(&self) -> (r: &'static str)
        ensures
            r@ == hash_algorithm_name(*self),
    {
        match self {
            HashAlgorithm::Seahash => "seahash",
            HashAlgorithm::Crc32 => "crc32",
            HashAlgorithm::Crc32c => "crc32c",
            HashAlgorithm::Siphash_1_3_64 => "siphash-1-3-64",
            HashAlgorithm::Siphash_1_3_128 => "siphash-1-3-128",
            HashAlgorithm::Siphash_2_4_64 => "siphash-2-4-64",
            HashAlgorithm::Siphash_2_4_128 => "siphash-2-4-128",
            HashAlgorithm::Xxh_32 => "xxh-32",
            HashAlgorithm::Xxh_64 => "xxh-64",
            HashAlgorithm::Xxh3_64 => "xxh3-64",
            HashAlgorithm::Xxh3_128 => "xxh3-128",
            HashAlgorithm::Md5 => "md5",
            HashAlgorithm::Sha1 => "sha1",
            HashAlgorithm::Sha2_224 => "sha2-224",
            HashAlgorithm::Sha2_256 => "sha2-256",
            HashAlgorithm::Sha2_384 => "sha2-384",
            HashAlgorithm::Sha2_512 => "sha2-512",
            HashAlgorithm::Sha2_512_224 => "sha2-512/224",
            HashAlgorithm::Sha2_512_256 => "sha2-512/256",
            HashAlgorithm::Shake_128 => "shake-128",
            HashAlgorithm::Shake_256 => "shake-256",
            HashAlgorithm::TurboShake_128 => "turboshake-128",
            HashAlgorithm::TurboShake_256 => "turboshake-256",
            HashAlgorithm::CShake_128 => "cshake-128",
            HashAlgorithm::CShake_256 => "cshake-256",
            HashAlgorithm::Keccak_224 => "keccak-224",
            HashAlgorithm::Keccak_256 => "keccak-256",
            HashAlgorithm::Keccak_256_Full => "keccak-256-full",
            HashAlgorithm::Keccak_384 => "keccak-384",
            HashAlgorithm::Keccak_512 => "keccak-512",
            HashAlgorithm::Sha3_224 => "sha3-224",
            HashAlgorithm::Sha3_256 => "sha3-256",
            HashAlgorithm::Sha3_384 => "sha3-384",
            HashAlgorithm::Sha3_512 => "sha3-512",
            HashAlgorithm::Blake2s => "blake2s",
            HashAlgorithm::Blake2b => "blake2b",
            HashAlgorithm::Blake3 => "blake3",
        }
    }

    /// Algorithm of the given name, in any letter case; the error names the
    /// text given.
    pub fn from_str(s: &str) -> (r: Result<HashAlgorithm, String>)
        ensures
            hash_algorithm_of_name(ascii_lower_seq(s@)) matches Some(a) ==> r == Ok::<
                HashAlgorithm,
                String,
            >(a),
            hash_algorithm_of_name(ascii_lower_seq(s@)) is None ==> (r matches Err(e) && e@
                == "unsupported hash algorithm: "@ + s@),
    {
        let low = to_ascii_lowercase(s);
        let l = low.as_slice();
        if chars_spell(l, "seahash") {
            Ok(HashAlgorithm::Seahash)
        } else if chars_spell(l, "crc32") {
            Ok(HashAlgorithm::Crc32)
        } else if chars_spell(l, "crc32c") {
            Ok(HashAlgorithm::Crc32c)
        } else if chars_spell(l, "siphash-1-3-64") || chars_spell(l, "siphash-1-3") {
            Ok(HashAlgorithm::Siphash_1_3_64)
        } else if chars_spell(l, "siphash-1-3-128") {
            Ok(HashAlgorithm::Siphash_1_3_128)
        } else if chars_spell(l, "siphash-2-4-64") || chars_spell(l, "siphash-2-4") || chars_spell(l, "siphash") {
            Ok(HashAlgorithm::Siphash_2_4_64)
        } else if chars_spell(l, "siphash-2-4-128") {
            Ok(HashAlgorithm::Siphash_2_4_128)
        } else if chars_spell(l, "xxh-32") || chars_spell(l, "xxh32") {
            Ok(HashAlgorithm::Xxh_32)
        } else if chars_spell(l, "xxh-64") || chars_spell(l, "xxh64") {
            Ok(HashAlgorithm::Xxh_64)
        } else if chars_spell(l, "xxh3-64") || chars_spell(l, "xxh3") {
            Ok(HashAlgorithm::Xxh3_64)
        } else if chars_spell(l, "xxh3-128") {
            Ok(HashAlgorithm::Xxh3_128)
        } else if chars_spell(l, "md5") {
            Ok(HashAlgorithm::Md5)
        } else if chars_spell(l, "sha1") {
            Ok(HashAlgorithm::Sha1)
        } else if chars_spell(l, "sha2-224") {
            Ok(HashAlgorithm::Sha2_224)
        } else if chars_spell(l, "sha2-256") || chars_spell(l, "sha2") {
            Ok(HashAlgorithm::Sha2_256)
        } else if chars_spell(l, "sha2-384") {
            Ok(HashAlgorithm::Sha2_384)
        } else if chars_spell(l, "sha2-512") {
            Ok(HashAlgorithm::Sha2_512)
        } else if chars_spell(l, "sha2-512/224") || chars_spell(l, "sha2-512-224") {
            Ok(HashAlgorithm::Sha2_512_224)
        } else if chars_spell(l, "sha2-512/256") || chars_spell(l, "sha2-512-256") {
            Ok(HashAlgorithm::Sha2_512_256)
        } else if chars_spell(l, "shake-128") || chars_spell(l, "shake128") {
            Ok(HashAlgorithm::Shake_128)
        } else if chars_spell(l, "shake-256") || chars_spell(l, "shake256") {
            Ok(HashAlgorithm::Shake_256)
        } else if chars_spell(l, "turboshake-128") || chars_spell(l, "turboshake128") {
            Ok(HashAlgorithm::TurboShake_128)
        } else if chars_spell(l, "turboshake-256") || chars_spell(l, "turboshake256") {
            Ok(HashAlgorithm::TurboShake_256)
        } else if chars_spell(l, "cshake-128") || chars_spell(l, "cshake128") {
            Ok(HashAlgorithm::CShake_128)
        } else if chars_spell(l, "cshake-256") || chars_spell(l, "cshake256") {
            Ok(HashAlgorithm::CShake_256)
        } else if chars_spell(l, "keccak-224") || chars_spell(l, "keccak224") {
            Ok(HashAlgorithm::Keccak_224)
        } else if chars_spell(l, "keccak-256") || chars_spell(l, "keccak256") {
            Ok(HashAlgorithm::Keccak_256)
        } else if chars_spell(l, "keccak-256-full") || chars_spell(l, "keccak256-full") || chars_spell(l, "keccak256full") {
            Ok(HashAlgorithm::Keccak_256_Full)
        } else if chars_spell(l, "keccak-384") || chars_spell(l, "keccak384") {
            Ok(HashAlgorithm::Keccak_384)
        } else if chars_spell(l, "keccak-512") || chars_spell(l, "keccak512") {
            Ok(HashAlgorithm::Keccak_512)
        } else if chars_spell(l, "sha3-224") {
            Ok(HashAlgorithm::Sha3_224)
        } else if chars_spell(l, "sha3-256") {
            Ok(HashAlgorithm::Sha3_256)
        } else if chars_spell(l, "sha3-384") {
            Ok(HashAlgorithm::Sha3_384)
        } else if chars_spell(l, "sha3-512") {
            Ok(HashAlgorithm::Sha3_512)
        } else if chars_spell(l, "blake2s") {
            Ok(HashAlgorithm::Blake2s)
        } else if chars_spell(l, "blake2b") {
            Ok(HashAlgorithm::Blake2b)
        } else if chars_spell(l, "blake3") {
            Ok(HashAlgorithm::Blake3)
        } else {
            let mut msg = chars_of("unsupported hash algorithm: ");
            let given = chars_of(s);
            crate::text::append_chars(&mut msg, given.as_slice());
            Err(string_from_chars(msg))
        }
    }
}

/// Parsing the name of an algorithm, in any letter case, gives the
/// algorithm back.
pub proof fn lemma_hash_algorithm_name_roundtrip(a: HashAlgorithm)
    ensures
        ascii_lower_seq(hash_algorithm_name(a)) == hash_algorithm_name(a),
        hash_algorithm_of_name(hash_algorithm_name(a)) == Some(a),
{
    reveal_strlit("seahash");
    reveal_strlit("crc32");
    reveal_strlit("crc32c");
    reveal_strlit("siphash-1-3-64");
    reveal_strlit("siphash-1-3");
    reveal_strlit("siphash-1-3-128");
    reveal_strlit("siphash-2-4-64");
    reveal_strlit("siphash-2-4");
    reveal_strlit("siphash");
    reveal_strlit("siphash-2-4-128");
    reveal_strlit("xxh-32");
    reveal_strlit("xxh32");
    reveal_strlit("xxh-64");
    reveal_strlit("xxh64");
    reveal_strlit("xxh3-64");
    reveal_strlit("xxh3");
    reveal_strlit("xxh3-128");
    reveal_strlit("md5");
    reveal_strlit("sha1");
    reveal_strlit("sha2-224");
    reveal_strlit("sha2-256");
    reveal_strlit("sha2");
    reveal_strlit("sha2-384");
    reveal_strlit("sha2-512");
    reveal_strlit("sha2-512/224");
    reveal_strlit("sha2-512-224");
    reveal_strlit("sha2-512/256");
    reveal_strlit("sha2-512-256");
    reveal_strlit("shake-128");
    reveal_strlit("shake128");
    reveal_strlit("shake-256");
    reveal_strlit("shake256");
    reveal_strlit("turboshake-128");
    reveal_strlit("turboshake128");
    reveal_strlit("turboshake-256");
    reveal_strlit("turboshake256");
    reveal_strlit("cshake-128");
    reveal_strlit("cshake128");
    reveal_strlit("cshake-256");
    reveal_strlit("cshake256");
    reveal_strlit("keccak-224");
    reveal_strlit("keccak224");
    reveal_strlit("keccak-256");
    reveal_strlit("keccak256");
    reveal_strlit("keccak-256-full");
    reveal_strlit("keccak256-full");
    reveal_strlit("keccak256full");
    reveal_strlit("keccak-384");
    reveal_strlit("keccak384");
    reveal_strlit("keccak-512");
    reveal_strlit("keccak512");
    reveal_strlit("sha3-224");
    reveal_strlit("sha3-256");
    reveal_strlit("sha3-384");
    reveal_strlit("sha3-512");
    reveal_strlit("blake2s");
    reveal_strlit("blake2b");
    reveal_strlit("blake3");
    lemma_names_lowercase(a);
    match a {
        HashAlgorithm::Seahash => {
        },
        HashAlgorithm::Crc32 => {
        },
        HashAlgorithm::Crc32c => {
        },
        HashAlgorithm::Siphash_1_3_64 => {
        },
        HashAlgorithm::Siphash_1_3_128 => {
        },
        HashAlgorithm::Siphash_2_4_64 => {
            assert("siphash-2-4-64"@[8] != "siphash-1-3-64"@[8]);
        },
        HashAlgorithm::Siphash_2_4_128 => {
            assert("siphash-2-4-128"@[8] != "siphash-1-3-128"@[8]);
        },
        HashAlgorithm::Xxh_32 => {
            assert("xxh-32"@[0] != "crc32c"@[0]);
        },
        HashAlgorithm::Xxh_64 => {
            assert("xxh-64"@[0] != "crc32c"@[0]);
            assert("xxh-64"@[4] != "xxh-32"@[4]);
        },
        HashAlgorithm::Xxh3_64 => {
            assert("xxh3-64"@[0] != "seahash"@[0]);
            assert("xxh3-64"@[0] != "siphash"@[0]);
        },
        HashAlgorithm::Xxh3_128 => {
        },
        HashAlgorithm::Md5 => {
        },
        HashAlgorithm::Sha1 => {
            assert("sha1"@[0] != "xxh3"@[0]);
        },
        HashAlgorithm::Sha2_224 => {
            assert("sha2-224"@[0] != "xxh3-128"@[0]);
        },
        HashAlgorithm::Sha2_256 => {
            assert("sha2-256"@[0] != "xxh3-128"@[0]);
            assert("sha2-256"@[6] != "sha2-224"@[6]);
        },
        HashAlgorithm::Sha2_384 => {
            assert("sha2-384"@[0] != "xxh3-128"@[0]);
            assert("sha2-384"@[5] != "sha2-224"@[5]);
            assert("sha2-384"@[5] != "sha2-256"@[5]);
        },
        HashAlgorithm::Sha2_512 => {
            assert("sha2-512"@[0] != "xxh3-128"@[0]);
            assert("sha2-512"@[5] != "sha2-224"@[5]);
            assert("sha2-512"@[5] != "sha2-256"@[5]);
            assert("sha2-512"@[5] != "sha2-384"@[5]);
        },
        HashAlgorithm::Sha2_512_224 => {
        },
        HashAlgorithm::Sha2_512_256 => {
            assert("sha2-512/256"@[10] != "sha2-512/224"@[10]);
            assert("sha2-512/256"@[8] != "sha2-512-224"@[8]);
        },
        HashAlgorithm::Shake_128 => {
        },
        HashAlgorithm::Shake_256 => {
            assert("shake-256"@[6] != "shake-128"@[6]);
        },
        HashAlgorithm::TurboShake_128 => {
            assert("turboshake-128"@[0] != "siphash-1-3-64"@[0]);
            assert("turboshake-128"@[0] != "siphash-2-4-64"@[0]);
        },
        HashAlgorithm::TurboShake_256 => {
            assert("turboshake-256"@[0] != "siphash-1-3-64"@[0]);
            assert("turboshake-256"@[0] != "siphash-2-4-64"@[0]);
            assert("turboshake-256"@[11] != "turboshake-128"@[11]);
        },
        HashAlgorithm::CShake_128 => {
        },
        HashAlgorithm::CShake_256 => {
            assert("cshake-256"@[7] != "cshake-128"@[7]);
        },
        HashAlgorithm::Keccak_224 => {
            assert("keccak-224"@[0] != "cshake-128"@[0]);
            assert("keccak-224"@[0] != "cshake-256"@[0]);
        },
        HashAlgorithm::Keccak_256 => {
            assert("keccak-256"@[0] != "cshake-128"@[0]);
            assert("keccak-256"@[0] != "cshake-256"@[0]);
            assert("keccak-256"@[8] != "keccak-224"@[8]);
        },
        HashAlgorithm::Keccak_256_Full => {
            assert("keccak-256-full"@[0] != "siphash-1-3-128"@[0]);
            assert("keccak-256-full"@[0] != "siphash-2-4-128"@[0]);
        },
        HashAlgorithm::Keccak_384 => {
            assert("keccak-384"@[0] != "cshake-128"@[0]);
            assert("keccak-384"@[0] != "cshake-256"@[0]);
            assert("keccak-384"@[7] != "keccak-224"@[7]);
            assert("keccak-384"@[7] != "keccak-256"@[7]);
        },
        HashAlgorithm::Keccak_512 => {
            assert("keccak-512"@[0] != "cshake-128"@[0]);
            assert("keccak-512"@[0] != "cshake-256"@[0]);
            assert("keccak-512"@[7] != "keccak-224"@[7]);
            assert("keccak-512"@[7] != "keccak-256"@[7]);
            assert("keccak-512"@[7] != "keccak-384"@[7]);
        },
        HashAlgorithm::Sha3_224 => {
            assert("sha3-224"@[0] != "xxh3-128"@[0]);
            assert("sha3-224"@[3] != "sha2-224"@[3]);
            assert("sha3-224"@[3] != "sha2-256"@[3]);
            assert("sha3-224"@[3] != "sha2-384"@[3]);
            assert("sha3-224"@[3] != "sha2-512"@[3]);
            assert("sha3-224"@[3] != "shake128"@[3]);
            assert("sha3-224"@[3] != "shake256"@[3]);
        },
        HashAlgorithm::Sha3_256 => {
            assert("sha3-256"@[0] != "xxh3-128"@[0]);
            assert("sha3-256"@[3] != "sha2-224"@[3]);
            assert("sha3-256"@[3] != "sha2-256"@[3]);
            assert("sha3-256"@[3] != "sha2-384"@[3]);
            assert("sha3-256"@[3] != "sha2-512"@[3]);
            assert("sha3-256"@[3] != "shake128"@[3]);
            assert("sha3-256"@[3] != "shake256"@[3]);
            assert("sha3-256"@[6] != "sha3-224"@[6]);
        },
        HashAlgorithm::Sha3_384 => {
            assert("sha3-384"@[0] != "xxh3-128"@[0]);
            assert("sha3-384"@[3] != "sha2-224"@[3]);
            assert("sha3-384"@[3] != "sha2-256"@[3]);
            assert("sha3-384"@[3] != "sha2-384"@[3]);
            assert("sha3-384"@[3] != "sha2-512"@[3]);
            assert("sha3-384"@[3] != "shake128"@[3]);
            assert("sha3-384"@[3] != "shake256"@[3]);
            assert("sha3-384"@[5] != "sha3-224"@[5]);
            assert("sha3-384"@[5] != "sha3-256"@[5]);
        },
        HashAlgorithm::Sha3_512 => {
            assert("sha3-512"@[0] != "xxh3-128"@[0]);
            assert("sha3-512"@[3] != "sha2-224"@[3]);
            assert("sha3-512"@[3] != "sha2-256"@[3]);
            assert("sha3-512"@[3] != "sha2-384"@[3]);
            assert("sha3-512"@[3] != "sha2-512"@[3]);
            assert("sha3-512"@[3] != "shake128"@[3]);
            assert("sha3-512"@[3] != "shake256"@[3]);
            assert("sha3-512"@[5] != "sha3-224"@[5]);
            assert("sha3-512"@[5] != "sha3-256"@[5]);
            assert("sha3-512"@[5] != "sha3-384"@[5]);
        },
        HashAlgorithm::Blake2s => {
            assert("blake2s"@[0] != "seahash"@[0]);
            assert("blake2s"@[0] != "siphash"@[0]);
            assert("blake2s"@[0] != "xxh3-64"@[0]);
        },
        HashAlgorithm::Blake2b => {
            assert("blake2b"@[0] != "seahash"@[0]);
            assert("blake2b"@[0] != "siphash"@[0]);
            assert("blake2b"@[0] != "xxh3-64"@[0]);
            assert("blake2b"@[6] != "blake2s"@[6]);
        },
        HashAlgorithm::Blake3 => {
            assert("blake3"@[0] != "crc32c"@[0]);
            assert("blake3"@[0] != "xxh-32"@[0]);
            assert("blake3"@[0] != "xxh-64"@[0]);
        },
    }
}

/// The names of the algorithms hold no upper-case letters.
proof fn lemma_names_lowercase(a: HashAlgorithm)
    ensures
        ascii_lower_seq(hash_algorithm_name(a)) == hash_algorithm_name(a),
{
    reveal_strlit("seahash");
    reveal_strlit("crc32");
    reveal_strlit("crc32c");
    reveal_strlit("siphash-1-3-64");
    reveal_strlit("siphash-1-3");
    reveal_strlit("siphash-1-3-128");
    reveal_strlit("siphash-2-4-64");
    reveal_strlit("siphash-2-4");
    reveal_strlit("siphash");
    reveal_strlit("siphash-2-4-128");
    reveal_strlit("xxh-32");
    reveal_strlit("xxh32");
    reveal_strlit("xxh-64");
    reveal_strlit("xxh64");
    reveal_strlit("xxh3-64");
    reveal_strlit("xxh3");
    reveal_strlit("xxh3-128");
    reveal_strlit("md5");
    reveal_strlit("sha1");
    reveal_strlit("sha2-224");
    reveal_strlit("sha2-256");
    reveal_strlit("sha2");
    reveal_strlit("sha2-384");
    reveal_strlit("sha2-512");
    reveal_strlit("sha2-512/224");
    reveal_strlit("sha2-512-224");
    reveal_strlit("sha2-512/256");
    reveal_strlit("sha2-512-256");
    reveal_strlit("shake-128");
    reveal_strlit("shake128");
    reveal_strlit("shake-256");
    reveal_strlit("shake256");
    reveal_strlit("turboshake-128");
    reveal_strlit("turboshake128");
    reveal_strlit("turboshake-256");
    reveal_strlit("turboshake256");
    reveal_strlit("cshake-128");
    reveal_strlit("cshake128");
    reveal_strlit("cshake-256");
    reveal_strlit("cshake256");
    reveal_strlit("keccak-224");
    reveal_strlit("keccak224");
    reveal_strlit("keccak-256");
    reveal_strlit("keccak256");
    reveal_strlit("keccak-256-full");
    reveal_strlit("keccak256-full");
    reveal_strlit("keccak256full");
    reveal_strlit("keccak-384");
    reveal_strlit("keccak384");
    reveal_strlit("keccak-512");
    reveal_strlit("keccak512");
    reveal_strlit("sha3-224");
    reveal_strlit("sha3-256");
    reveal_strlit("sha3-384");
    reveal_strlit("sha3-512");
    reveal_strlit("blake2s");
    reveal_strlit("blake2b");
    reveal_strlit("blake3");
    assert(ascii_lower_seq(hash_algorithm_name(a)) =~= hash_algorithm_name(a));
}

} // verus!
