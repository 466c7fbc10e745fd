use vstd::prelude::*;

use std::io::{Read, Write};

verus! {

/// Input/output errors of the codecs.
#[verifier::external_type_specification]
#[verifier::external_body]
pub struct ExIoError(std::io::Error);

/// An LZ4 frame holding `data` (`lz4_flex::frame::FrameEncoder`, default
/// frame settings).
pub uninterp spec fn lz4_frame_encoding(data: Seq<u8>) -> Seq<u8>;

/// What `lz4_flex::frame::FrameDecoder` reads from `data`, or `None` when it
/// fails.
pub uninterp spec fn lz4_frame_decoding(data: Seq<u8>) -> Option<Seq<u8>>;

/// A bzip2 stream of `data` at the given level (`bzip2::write::BzEncoder`).
pub uninterp spec fn bzip2_encoding(level: u32, data: Seq<u8>) -> Seq<u8>;

/// What `bzip2::read::MultiBzDecoder` reads from `data`, or `None`.
pub uninterp spec fn bzip2_decoding(data: Seq<u8>) -> Option<Seq<u8>>;

/// A raw deflate stream of `data` (`flate2::write::DeflateEncoder`).
pub uninterp spec fn deflate_encoding(level: u32, data: Seq<u8>) -> Seq<u8>;

/// What `flate2::read::DeflateDecoder` reads from `data`, or `None`.
pub uninterp spec fn deflate_decoding(data: Seq<u8>) -> Option<Seq<u8>>;

/// A gzip stream of `data` (`flate2::write::GzEncoder`, default header).
pub uninterp spec fn gzip_encoding(level: u32, data: Seq<u8>) -> Seq<u8>;

/// What `flate2::read::MultiGzDecoder` reads from `data`, or `None`.
pub uninterp spec fn gzip_decoding(data: Seq<u8>) -> Option<Seq<u8>>;

/// A zlib stream of `data` (`flate2::write::ZlibEncoder`).
pub uninterp spec fn zlib_encoding(level: u32, data: Seq<u8>) -> Seq<u8>;

/// What `flate2::read::ZlibDecoder` reads from `data`, or `None`.
pub uninterp spec fn zlib_decoding(data: Seq<u8>) -> Option<Seq<u8>>;

/// A zstd frame of `data` at the given level (`zstd::encode_all`).
pub uninterp spec fn zstd_encoding(level: i32, data: Seq<u8>) -> Seq<u8>;

/// What `zstd::decode_all` reads from `data`, or `None`.
pub uninterp spec fn zstd_decoding(data: Seq<u8>) -> Option<Seq<u8>>;

/// Compresses `data` into one LZ4 frame with
/// `lz4_flex::frame::FrameEncoder` (new, `write_all`, `finish`) over a
/// vector. Claimed: writing into a vector never fails, so it succeeds; the
/// bytes are the frame named
/// `lz4_frame_encoding(data)`, which is never empty (`try_finish` opens a
/// frame even for empty input).
#[verifier::external_body]
pub(crate) fn lz4_encode(data: &[u8]) -> (res: Result<Vec<u8>, std::io::Error>)
    ensures
        res is Ok,
        res matches Ok(v) ==> v@ == lz4_frame_encoding(data@) && v@.len() > 0,
{
    let mut enc = lz4_flex::frame::FrameEncoder::new(Vec::new());
    enc.write_all(data)?;
    Ok(enc.finish()?)
}

/// Decompresses `data` with `lz4_flex::frame::FrameDecoder::read_to_end`.
/// Claimed: the result is named by `lz4_frame_decoding(data)`, and decoding
/// a frame that the encoder made gives back its input.
#[verifier::external_body]
pub(crate) fn lz4_decode(data: &[u8]) -> (res: Result<Vec<u8>, std::io::Error>)
    ensures
        res is Ok <==> lz4_frame_decoding(data@) is Some,
        res matches Ok(v) ==> Some(v@) == lz4_frame_decoding(data@),
        res is Err ==> forall|x: Seq<u8>| #[trigger] lz4_frame_encoding(x) != data@,
        res matches Ok(v) ==> forall|x: Seq<u8>| #[trigger] lz4_frame_encoding(x) == data@ ==> v@ == x,
{
    let mut out = Vec::new();
    lz4_flex::frame::FrameDecoder::new(data).read_to_end(&mut out)?;
    Ok(out)
}

/// Compresses `data` with `bzip2::write::BzEncoder` at `level` (new,
/// `write_all`, `finish`). `bzip2::Compression::new` panics outside 1..=9.
/// Claimed: writing into a vector never fails, so it succeeds; the bytes are `bzip2_encoding(level, data)`, never
/// empty (a stream starts with its `BZh` header).
#[verifier::external_body]
pub(crate) fn bzip2_encode(level: u32, data: &[u8]) -> (res: Result<Vec<u8>, std::io::Error>)
    requires
        1 <= level <= 9,
    ensures
        res is Ok,
        res matches Ok(v) ==> v@ == bzip2_encoding(level, data@) && v@.len() > 0,
{
    let mut enc = bzip2::write::BzEncoder::new(Vec::new(), bzip2::Compression::new(level));
    enc.write_all(data)?;
    enc.finish()
}

/// Decompresses `data` with `bzip2::read::MultiBzDecoder::read_to_end`.
/// Claimed: the result is named by `bzip2_decoding(data)`, and decoding a
/// stream that the encoder made gives back its input.
#[verifier::external_body]
pub(crate) fn bzip2_decode(data: &[u8]) -> (res: Result<Vec<u8>, std::io::Error>)
    ensures
        res is Ok <==> bzip2_decoding(data@) is Some,
        res matches Ok(v) ==> Some(v@) == bzip2_decoding(data@),
        res is Err ==> forall|l: u32, x: Seq<u8>| #[trigger] bzip2_encoding(l, x) != data@,
        res matches Ok(v) ==> forall|l: u32, x: Seq<u8>| #[trigger] bzip2_encoding(l, x) == data@ ==> v@ == x,
{
    let mut out = Vec::new();
    bzip2::read::MultiBzDecoder::new(data).read_to_end(&mut out)?;
    Ok(out)
}

/// Compresses `data` with `flate2::write::DeflateEncoder` at `level` (new,
/// `write_all`, `finish`). Levels above 10 are refused by a debug assertion
/// of the miniz backend. Claimed: the encoder writes into a vector, which
/// never fails, so it succeeds; the bytes are
/// `deflate_encoding(level, data)`, never empty (a stream ends with a final
/// block).
#[verifier::external_body]
pub(crate) fn deflate_encode(level: u32, data: &[u8]) -> (res: Result<Vec<u8>, std::io::Error>)
    requires
        level <= 10,
    ensures
        res is Ok,
        res matches Ok(v) ==> v@ == deflate_encoding(level, data@) && v@.len() > 0,
{
    let mut enc = flate2::write::DeflateEncoder::new(Vec::new(), flate2::Compression::new(level));
    enc.write_all(data)?;
    enc.finish()
}

/// Decompresses `data` with `flate2::read::DeflateDecoder::read_to_end`.
/// Claimed: the result is named by `deflate_decoding(data)`, and decoding a
/// stream that the encoder made gives back its input.
#[verifier::external_body]
pub(crate) fn deflate_decode(data: &[u8]) -> (res: Result<Vec<u8>, std::io::Error>)
    ensures
        res is Ok <==> deflate_decoding(data@) is Some,
        res matches Ok(v) ==> Some(v@) == deflate_decoding(data@),
        res is Err ==> forall|l: u32, x: Seq<u8>| #[trigger] deflate_encoding(l, x) != data@,
        res matches Ok(v) ==> forall|l: u32, x: Seq<u8>| #[trigger] deflate_encoding(l, x) == data@ ==> v@ == x,
{
    let mut out = Vec::new();
    flate2::read::DeflateDecoder::new(data).read_to_end(&mut out)?;
    Ok(out)
}

/// Compresses `data` with `flate2::write::GzEncoder` at `level` (new,
/// `write_all`, `finish`); levels above 10 trip a debug assertion of the
/// miniz backend. Claimed: writing into a vector never fails, so it
/// succeeds; the bytes are `gzip_encoding(level, data)`, never empty (a stream starts with its
/// header).
#[verifier::external_body]
pub(crate) fn gzip_encode(level: u32, data: &[u8]) -> (res: Result<Vec<u8>, std::io::Error>)
    requires
        level <= 10,
    ensures
        res is Ok,
        res matches Ok(v) ==> v@ == gzip_encoding(level, data@) && v@.len() > 0,
{
    let mut enc = flate2::write::GzEncoder::new(Vec::new(), flate2::Compression::new(level));
    enc.write_all(data)?;
    enc.finish()
}

/// Decompresses `data` with `flate2::read::MultiGzDecoder::read_to_end`.
/// Claimed: the result is named by `gzip_decoding(data)`, and decoding a
/// stream that the encoder made gives back its input.
#[verifier::external_body]
pub(crate) fn gzip_decode(data: &[u8]) -> (res: Result<Vec<u8>, std::io::Error>)
    ensures
        res is Ok <==> gzip_decoding(data@) is Some,
        res matches Ok(v) ==> Some(v@) == gzip_decoding(data@),
        res is Err ==> forall|l: u32, x: Seq<u8>| #[trigger] gzip_encoding(l, x) != data@,
        res matches Ok(v) ==> forall|l: u32, x: Seq<u8>| #[trigger] gzip_encoding(l, x) == data@ ==> v@ == x,
{
    let mut out = Vec::new();
    flate2::read::MultiGzDecoder::new(data).read_to_end(&mut out)?;
    Ok(out)
}

/// Compresses `data` with `flate2::write::ZlibEncoder` at `level` (new,
/// `write_all`, `finish`); levels above 10 trip a debug assertion of the
/// miniz backend. Claimed: writing into a vector never fails, so it
/// succeeds; the bytes are `zlib_encoding(level, data)`, never empty (a stream starts with its
/// header).
#[verifier::external_body]
pub(crate) fn zlib_encode(level: u32, data: &[u8]) -> (res: Result<Vec<u8>, std::io::Error>)
    requires
        level <= 10,
    ensures
        res is Ok,
        res matches Ok(v) ==> v@ == zlib_encoding(level, data@) && v@.len() > 0,
{
    let mut enc = flate2::write::ZlibEncoder::new(Vec::new(), flate2::Compression::new(level));
    enc.write_all(data)?;
    enc.finish()
}

/// Decompresses `data` with `flate2::read::ZlibDecoder::read_to_end`.
/// Claimed: the result is named by `zlib_decoding(data)`, and decoding a
/// stream that the encoder made gives back its input.
#[verifier::external_body]
pub(crate) fn zlib_decode(data: &[u8]) -> (res: Result<Vec<u8>, std::io::Error>)
    ensures
        res is Ok <==> zlib_decoding(data@) is Some,
        res matches Ok(v) ==> Some(v@) == zlib_decoding(data@),
        res is Err ==> forall|l: u32, x: Seq<u8>| #[trigger] zlib_encoding(l, x) != data@,
        res matches Ok(v) ==> forall|l: u32, x: Seq<u8>| #[trigger] zlib_encoding(l, x) == data@ ==> v@ == x,
{
    let mut out = Vec::new();
    flate2::read::ZlibDecoder::new(data).read_to_end(&mut out)?;
    Ok(out)
}

/// Compresses `data` with `zstd::encode_all` at `level` (zstd clamps the
/// level). Claimed: it writes into a vector, which never fails, so it
/// succeeds; the bytes are `zstd_encoding(level, data)`, never empty (a frame
/// starts with its magic number).
#[verifier::external_body]
pub(crate) fn zstd_encode(level: i32, data: &[u8]) -> (res: Result<Vec<u8>, std::io::Error>)
    ensures
        res is Ok,
        res matches Ok(v) ==> v@ == zstd_encoding(level, data@) && v@.len() > 0,
{
    zstd::encode_all(data, level)
}

/// Decompresses `data` with `zstd::decode_all`. Claimed: the result is
/// named by `zstd_decoding(data)`, and decoding a frame that the encoder
/// made gives back its input.
#[verifier::external_body]
pub(crate) fn zstd_decode(data: &[u8]) -> (res: Result<Vec<u8>, std::io::Error>)
    ensures
        res is Ok <==> zstd_decoding(data@) is Some,
        res matches Ok(v) ==> Some(v@) == zstd_decoding(data@),
        res is Err ==> forall|l: i32, x: Seq<u8>| #[trigger] zstd_encoding(l, x) != data@,
        res matches Ok(v) ==> forall|l: i32, x: Seq<u8>| #[trigger] zstd_encoding(l, x) == data@ ==> v@ == x,
{
    zstd::decode_all(data)
}

/// An input/output error with the given message
/// (`std::io::Error::other`).
#[verifier::external_body]
pub(crate) fn io_error_other(msg: &str) -> (e: std::io::Error) {
    std::io::Error::other(msg)
}

} // verus!
