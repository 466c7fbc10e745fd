use agl::hash::PackageHasher;
use agl::hash_algorithm::HashAlgorithm;
use agl::hash_digest::{digest, AlgorithmHasher};


#[test]
fn digitize_takes_the_blake3_prefix() {
    // BLAKE3 of "Hello, World!" starts with 28 8a 86 a7 9f 20 a3 d6.
    let hash = agl::hash::Hash::digitize(b"Hello, World!");

    assert_eq!(hash.bytes(), [0x28, 0x8a, 0x86, 0xa7, 0x9f, 0x20, 0xa3, 0xd6]);
    assert_eq!(hash.to_base32(), "dd8r0kykqd2i8");
    assert_eq!(hash.to_base32().len(), 13);

    assert_eq!(agl::hash::Hash::from_base32(&hash.to_base32()), Some(hash));
}

#[test]
fn hasher_matches_digitize() {
    let mut hasher = PackageHasher::new();
    hasher.update(b"Hello, ");
    hasher.update(b"World!");
    assert_eq!(hasher.finish(), agl::hash::Hash::digitize(b"Hello, World!"));
    assert_eq!(PackageHasher::default().finish(), agl::hash::Hash::digitize(b""));
}

#[test]
fn xor_is_an_involution() {
    let a = agl::hash::Hash::digitize(b"a");
    let b = agl::hash::Hash::digitize(b"b");
    assert_eq!(a.bitxor(b).bitxor(b), a);
    assert_eq!(a.bitxor(b), b.bitxor(a));
    assert_eq!(a.bitxor(a), agl::hash::Hash::zero());
    assert_eq!(a.bitxor(agl::hash::Hash::zero()), a);
    let mut c = a;
    c.bitxor_assign(b);
    assert_eq!(c, a.bitxor(b));
    assert_eq!(agl::hash::Hash::zero().bytes(), [0u8; 8]);
}

#[test]
fn from_base32_pads_and_cuts() {
    // Short texts are zero-padded to the hash size.
    let h = agl::hash::Hash::from_base32("c5h0").unwrap();
    assert_eq!(h.bytes().len(), 8);
    assert!(agl::hash::Hash::from_base32("!!!!").is_none());
    let same = agl::hash::Hash::from_array([1, 2, 3, 4, 5, 6, 7, 8]);
    assert_eq!(agl::hash::Hash::from_base32(&same.to_base32()), Some(same));
    assert!(same.same(&agl::hash::Hash::from_array([1, 2, 3, 4, 5, 6, 7, 8])));
    assert!(!same.same(&agl::hash::Hash::zero()));
}

#[test]
fn hash_algorithm_names() {
    let all = [
        HashAlgorithm::Seahash,
        HashAlgorithm::Crc32,
        HashAlgorithm::Siphash_1_3_128,
        HashAlgorithm::Xxh3_64,
        HashAlgorithm::Sha2_512_224,
        HashAlgorithm::Keccak_256_Full,
        HashAlgorithm::Blake3,
    ];
    for a in all {
        assert_eq!(HashAlgorithm::from_str(a.name()).unwrap(), a);
    }
    assert_eq!(HashAlgorithm::Sha2_512_256.name(), "sha2-512/256");
    assert_eq!(HashAlgorithm::from_str("SHA2").unwrap(), HashAlgorithm::Sha2_256);
    assert_eq!(HashAlgorithm::from_str("siphash").unwrap(), HashAlgorithm::Siphash_2_4_64);
    assert_eq!(HashAlgorithm::from_str("Keccak256Full").unwrap(), HashAlgorithm::Keccak_256_Full);
    assert_eq!(HashAlgorithm::from_str("whirlpool").unwrap_err(), "unsupported hash algorithm: whirlpool");
}

fn get_values() -> [(&'static str, Vec<u8>); 24] {
    [
        ("seahash",         vec![46, 194, 87, 41, 102, 208, 6, 253]),
        ("crc32",           vec![236, 74, 195, 208]),
        ("crc32c",          vec![77, 85, 16, 104]),
        ("siphash-1-3-64",  vec![41, 114, 161, 128, 56, 201, 39, 147]),
        ("siphash-1-3-128", vec![191, 107, 239, 175, 162, 213, 193, 236, 169, 129, 231, 119, 6, 126, 238, 15]),
        ("siphash-2-4-64",  vec![38, 73, 109, 52, 239, 10, 39, 31]),
        ("siphash-2-4-128", vec![50, 170, 110, 242, 8, 65, 163, 227, 18, 89, 105, 46, 109, 105, 177, 5]),
        ("xxh32",           vec![64, 7, 222, 80]),
        ("xxh64",           vec![196, 154, 172, 248, 8, 15, 228, 127]),
        ("xxh3-64",         vec![96, 65, 93, 95, 97, 102, 2, 170]),
        ("xxh3-128",        vec![83, 29, 242, 132, 68, 71, 221, 80, 119, 219, 3, 132, 44, 215, 83, 149]),
        ("md5",             vec![101, 168, 226, 125, 136, 121, 40, 56, 49, 182, 100, 189, 139, 127, 10, 212]),
        ("sha1",            vec![10, 10, 159, 42, 103, 114, 148, 37, 87, 171, 83, 85, 215, 106, 244, 66, 248, 246, 94, 1]),
        ("sha2-224",        vec![114, 162, 61, 250, 65, 27, 166, 253, 224, 29, 191, 171, 243, 176, 10, 112, 156, 147, 235, 242, 115, 220, 41, 226, 216, 178, 97, 255]),
        ("sha2-256",        vec![223, 253, 96, 33, 187, 43, 213, 176, 175, 103, 98, 144, 128, 158, 195, 165, 49, 145, 221, 129, 199, 247, 10, 75, 40, 104, 138, 54, 33, 130, 152, 111]),
        ("sha2-384",        vec![84, 133, 204, 155, 51, 101, 180, 48, 93, 251, 78, 131, 55, 224, 165, 152, 165, 116, 248, 36, 43, 241, 114, 137, 224, 221, 108, 32, 163, 205, 68, 160, 137, 222, 22, 171, 74, 179, 8, 246, 62, 68, 177, 23, 14, 181, 245, 21]),
        ("sha2-512",        vec![55, 77, 121, 74, 149, 205, 207, 216, 179, 89, 147, 24, 95, 239, 155, 163, 104, 241, 96, 216, 218, 244, 50, 208, 139, 169, 241, 237, 30, 90, 190, 108, 198, 146, 145, 224, 250, 47, 224, 0, 106, 82, 87, 14, 241, 140, 25, 222, 244, 230, 23, 195, 60, 229, 46, 240, 166, 229, 251, 227, 24, 203, 3, 135]),
        ("blake2s",         vec![236, 157, 185, 4, 214, 54, 239, 97, 241, 66, 27, 43, 164, 113, 18, 164, 250, 107, 137, 100, 253, 74, 10, 81, 72, 52, 69, 92, 33, 223, 120, 18]),
        ("blake2b",         vec![125, 253, 184, 136, 175, 113, 234, 224, 230, 166, 183, 81, 232, 227, 65, 61, 118, 126, 244, 250, 82, 167, 153, 61, 170, 158, 240, 151, 247, 170, 61, 148, 145, 153, 193, 19, 202, 163, 124, 148, 248, 12, 243, 178, 47, 125, 157, 110, 79, 93, 239, 79, 249, 39, 131, 12, 255, 228, 133, 124, 52, 190, 61, 137]),
        ("blake3",          vec![40, 138, 134, 167, 159, 32, 163, 214, 220, 205, 202, 119, 19, 190, 174, 209, 120, 121, 130, 150, 189, 250, 121, 19, 250, 42, 98, 217, 114, 123, 248, 248]),
        ("sha3-224",        vec![133, 48, 72, 251, 139, 17, 70, 43, 97, 0, 56, 86, 51, 192, 204, 141, 205, 198, 226, 184, 227, 118, 194, 129, 2, 188, 132, 242]),
        ("sha3-256",        vec![26, 241, 122, 102, 78, 63, 168, 228, 25, 184, 186, 5, 194, 161, 115, 22, 157, 247, 97, 98, 165, 162, 134, 224, 196, 5, 180, 96, 212, 120, 247, 239]),
        ("sha3-384",        vec![170, 154, 216, 164, 159, 49, 210, 221, 202, 187, 183, 1, 10, 21, 102, 65, 124, 255, 128, 63, 239, 80, 235, 162, 57, 85, 136, 38, 248, 114, 228, 104, 197, 116, 62, 127, 2, 107, 10, 142, 91, 45, 122, 28, 196, 101, 205, 190]),
        ("sha3-512",        vec![56, 224, 92, 51, 215, 176, 103, 18, 127, 33, 125, 140, 133, 110, 85, 79, 207, 240, 156, 147, 32, 184, 165, 151, 156, 226, 255, 93, 149, 221, 39, 186, 53, 209, 251, 165, 12, 86, 45, 253, 29, 108, 196, 139, 201, 197, 186, 164, 57, 8, 148, 65, 140, 201, 66, 217, 104, 249, 123, 203, 101, 148, 25, 237])
    ]
    }

#[test]
fn hash() {
    for (algorithm, value) in get_values() {
        let algorithm = HashAlgorithm::from_str(algorithm).unwrap();

        assert_eq!(digest(algorithm, b"Hello, World!"), Some(value));
    }
}

#[test]
fn hasher() {
    for (name, hash) in get_values() {
        let mut hasher = AlgorithmHasher::new(HashAlgorithm::from_str(name).unwrap()).unwrap();

        hasher.write(b"Hello");
        hasher.write(b", ");
        hasher.write(b"World");
        hasher.write(b"!");

        assert_eq!(hasher.finalize(), hash);
    }
}

#[test]
fn extendable_output_algorithms_have_no_digest() {
    for name in ["shake-128", "shake256", "turboshake-128", "cshake-256"] {
        let algorithm = HashAlgorithm::from_str(name).unwrap();

        assert_eq!(digest(algorithm, b"Hello, World!"), None);
        assert!(AlgorithmHasher::new(algorithm).is_none());
    }
}

#[test]
fn integer_hashes_are_big_endian() {
    assert_eq!(agl::hash_digest::to_be_bytes(0x0102_0304, 4), vec![1, 2, 3, 4]);
    assert_eq!(agl::hash_digest::to_be_bytes(0x0102_0304, 2), vec![3, 4]);
    assert_eq!(agl::hash_digest::to_be_bytes(0xff, 0), Vec::<u8>::new());
}

#[test]
fn digest_of_empty_input() {
    // CRC-32 of nothing is 0; SHA-256 of nothing starts with e3 b0 c4 42.
    assert_eq!(digest(HashAlgorithm::Crc32, b""), Some(vec![0, 0, 0, 0]));
    assert_eq!(digest(HashAlgorithm::Sha2_256, b"").unwrap()[..4], [0xe3, 0xb0, 0xc4, 0x42]);
}

#[test]
fn nix_base32_overrun_texts() {
    use_overrun_checks();
}

fn use_overrun_checks() {
    assert!(agl::hash::nix_base32_decode_would_panic("000"));
    assert!(agl::hash::nix_base32_decode_would_panic("0"));
    assert!(agl::hash::nix_base32_decode_would_panic("000000"));
    // A second character worth 8 or more stops the decoder before the overrun.
    assert!(!agl::hash::nix_base32_decode_would_panic("0z0"));
    assert!(!agl::hash::nix_base32_decode_would_panic("0z0000"));
    assert!(!agl::hash::nix_base32_decode_would_panic("0000000000000"));
    let _ = agl::hash::Hash::from_base32("0z0");
    let _ = agl::hash::Hash::from_base32("0z0000");
}
