use agl::compression::{decode, encode, CompressionAlgorithm, CompressionError, CompressionLevel};
use agl::compressor::Compressor;
use agl::decompressor::Decompressor;

const LEVELS: &[CompressionLevel] = &[
    CompressionLevel::Quick,
    CompressionLevel::Fast,
    CompressionLevel::Balanced,
    CompressionLevel::Good,
    CompressionLevel::Best,
    CompressionLevel::Default,
];

fn test(algorithm: CompressionAlgorithm) -> Result<(), CompressionError> {
    for level in LEVELS {
        let mut compressor = Compressor::new(algorithm, *level)?;
        let mut decompressor = Decompressor::new(algorithm)?;

        compressor.write_all(b"AAAAAAAAAAAAAAAAAAAA")?;
        compressor.write_all(b"AAAAAAAAAAAAAAAAAAAA")?;
        compressor.write_all(b"AAAAAAAAAAAAAAAAAAAA")?;
        compressor.write_all(b"AAAAAAAAAAAAAAAAAAAA")?;
        compressor.write_all(b"AAAAAAAAAAAAAAAAAAAA")?;
        compressor.flush()?;
        compressor.try_finish()?;

        let mut compressed = Vec::new();

        compressor.read_to_end(&mut compressed)?;

        assert!(compressed.len() < 100);

        decompressor.write_all(&compressed)?;
        decompressor.flush()?;

        let mut decompressed = Vec::new();

        decompressor.read_to_end(&mut decompressed)?;

        assert_eq!(decompressed, b"AAAAAAAAAAAAAAAAAAAA".repeat(5));
    }

    Ok(())
}

#[test]
fn lz4() -> Result<(), CompressionError> {
    test(CompressionAlgorithm::Lz4)
}

#[test]
fn bzip2() -> Result<(), CompressionError> {
    test(CompressionAlgorithm::Bzip2)
}

#[test]
fn deflate() -> Result<(), CompressionError> {
    test(CompressionAlgorithm::Deflate)
}

#[test]
fn gzip() -> Result<(), CompressionError> {
    test(CompressionAlgorithm::Gzip)
}

#[test]
fn zlib() -> Result<(), CompressionError> {
    test(CompressionAlgorithm::Zlib)
}

#[test]
fn zstd() -> Result<(), CompressionError> {
    test(CompressionAlgorithm::Zstd)
}

#[test]
fn algorithm_names_round_trip() {
    let all = [
        CompressionAlgorithm::Lz4,
        CompressionAlgorithm::Bzip2,
        CompressionAlgorithm::Deflate,
        CompressionAlgorithm::Gzip,
        CompressionAlgorithm::Zlib,
        CompressionAlgorithm::Zstd,
    ];
    for a in all {
        assert_eq!(CompressionAlgorithm::from_str(a.name()).unwrap(), a);
    }
    assert_eq!(CompressionAlgorithm::from_str("bz2").unwrap(), CompressionAlgorithm::Bzip2);
    assert_eq!(CompressionAlgorithm::from_str("gz").unwrap(), CompressionAlgorithm::Gzip);
    match CompressionAlgorithm::from_str("rar") {
        Err(CompressionError::UnknownAlgorithm(name)) => assert_eq!(name, "rar"),
        other => panic!("unexpected {other:?}"),
    }
}

#[test]
fn level_names_round_trip() {
    for level in LEVELS {
        assert_eq!(CompressionLevel::from_str(&level.to_string()).unwrap(), *level);
    }
    assert_eq!(CompressionLevel::from_str("-5").unwrap(), CompressionLevel::Custom(-5));
    assert_eq!(CompressionLevel::from_str("+7").unwrap(), CompressionLevel::Custom(7));
    assert_eq!(CompressionLevel::Custom(-128).to_string(), "-128");
    assert_eq!(CompressionLevel::Custom(42).to_string(), "42");
    match CompressionLevel::from_str("128") {
        Err(CompressionError::InvalidLevel(text)) => assert_eq!(text, "128"),
        other => panic!("unexpected {other:?}"),
    }
}

#[test]
fn native_levels() {
    assert_eq!(CompressionLevel::Quick.zstd_level(), 3);
    assert_eq!(CompressionLevel::Best.zstd_level(), 22);
    assert_eq!(CompressionLevel::Default.zstd_level(), 10);
    assert_eq!(CompressionLevel::Custom(-3).zstd_level(), -3);
    assert_eq!(CompressionLevel::Default.bzip2_level(), 4);
    assert_eq!(CompressionLevel::Default.flate2_level(), 6);
    assert_eq!(CompressionLevel::Good.flate2_level(), 7);
}

#[test]
fn one_shot_round_trip() {
    let data = b"the quick brown fox jumps over the lazy dog".repeat(20);
    for a in [
        CompressionAlgorithm::Lz4,
        CompressionAlgorithm::Bzip2,
        CompressionAlgorithm::Deflate,
        CompressionAlgorithm::Gzip,
        CompressionAlgorithm::Zlib,
        CompressionAlgorithm::Zstd,
    ] {
        let packed = encode(a, CompressionLevel::Fast, &data).unwrap();
        assert!(!packed.is_empty());
        assert_ne!(packed, data);
        assert_eq!(decode(a, &packed).unwrap(), data);
    }
}

#[test]
fn decode_garbage_fails() {
    assert!(matches!(
        decode(CompressionAlgorithm::Zstd, b"definitely not zstd"),
        Err(CompressionError::Io(_))
    ));
    let mut d = Decompressor::new(CompressionAlgorithm::Gzip).unwrap();
    d.write_all(b"not gzip").unwrap();
    let mut out = Vec::new();
    assert!(d.read_to_end(&mut out).is_err());
}

#[test]
fn compressor_refuses_writes_after_finish() {
    let mut c = Compressor::new(CompressionAlgorithm::Zlib, CompressionLevel::Default).unwrap();
    c.write_all(b"abc").unwrap();
    c.try_finish().unwrap();
    assert!(matches!(c.write(b"more"), Err(CompressionError::Io(_))));
    // Finishing again changes nothing.
    c.try_finish().unwrap();
    let mut out = Vec::new();
    let n = c.read_to_end(&mut out).unwrap();
    assert_eq!(n, out.len());
    assert_eq!(decode(CompressionAlgorithm::Zlib, &out).unwrap(), b"abc");
}

#[test]
fn compressor_from_str() {
    let c = Compressor::from_str("zstd:best").unwrap();
    assert_eq!(c.algorithm(), CompressionAlgorithm::Zstd);
    let c = Compressor::from_str("gz").unwrap();
    assert_eq!(c.algorithm(), CompressionAlgorithm::Gzip);
    assert!(matches!(Compressor::from_str("brotli:fast"), Err(CompressionError::UnknownAlgorithm(_))));
    assert!(matches!(Compressor::from_str("lz4:turbo"), Err(CompressionError::InvalidLevel(_))));
    let d = Decompressor::from_str("bzip2:9").unwrap();
    assert_eq!(d.algorithm(), CompressionAlgorithm::Bzip2);
}

#[test]
fn compressor_reads_in_pieces() {
    let mut c = Compressor::new(CompressionAlgorithm::Lz4, CompressionLevel::Default).unwrap();
    c.write_all(b"hello hello hello").unwrap();
    let mut buf = [0u8; 4];
    assert_eq!(c.read(&mut buf).unwrap(), 0);
    c.try_finish().unwrap();
    let mut all = Vec::new();
    loop {
        let n = c.read(&mut buf).unwrap();
        if n == 0 {
            break;
        }
        all.extend_from_slice(&buf[..n]);
    }
    let mut d = Decompressor::new(CompressionAlgorithm::Lz4).unwrap();
    d.write_all(&all).unwrap();
    let mut small = [0u8; 5];
    assert_eq!(d.read(&mut small).unwrap(), 5);
    assert_eq!(&small, b"hello");
    let mut rest = Vec::new();
    d.read_to_end(&mut rest).unwrap();
    assert_eq!(rest, b" hello hello");
}

#[test]
fn deflate_family_takes_level_ten() {
    let data = b"level ten level ten level ten".to_vec();
    for a in [CompressionAlgorithm::Deflate, CompressionAlgorithm::Gzip, CompressionAlgorithm::Zlib] {
        let packed = encode(a, CompressionLevel::Custom(10), &data).unwrap();
        assert_eq!(decode(a, &packed).unwrap(), data);
    }
}
