use vstd::prelude::*;

use crate::codecs::{
    bzip2_decode, bzip2_decoding, bzip2_encode, bzip2_encoding, deflate_decode, deflate_decoding,
    deflate_encode, deflate_encoding, gzip_decode, gzip_decoding, gzip_encode, gzip_encoding,
    lz4_decode, lz4_frame_decoding, lz4_frame_encoding, lz4_encode, zlib_decode,
    zlib_decoding, zlib_encode, zlib_encoding, zstd_decode, zstd_decoding, zstd_encode,
    zstd_encoding,
};
use crate::text::{
    chars_of, i8_decimal, int_decimal, lemma_i8_decimal_roundtrip, parse_i8, parse_i8_chars, str_eq,
    string_from_chars,
};

verus! {

/// Errors of compression.
#[derive(Debug)]
pub enum CompressionError {
    /// The codec failed.
    Io(std::io::Error),
    /// No algorithm has this name.
    UnknownAlgorithm(String),
    /// Not a compression level.
    InvalidLevel(String),
}

/// Compression algorithms.
#[derive(Debug, Clone, Copy, PartialEq, Eq, Hash, Structural)]
pub enum CompressionAlgorithm {
    Lz4,
    Bzip2,
    Deflate,
    Gzip,
    Zlib,
    Zstd,
}

/// Name of an algorithm.
pub open spec fn algorithm_name(a: CompressionAlgorithm) -> Seq<char> {
    match a {
        CompressionAlgorithm::Lz4 => "lz4"@,
        CompressionAlgorithm::Bzip2 => "bzip2"@,
        CompressionAlgorithm::Deflate => "deflate"@,
        CompressionAlgorithm::Gzip => "gzip"@,
        CompressionAlgorithm::Zlib => "zlib"@,
        CompressionAlgorithm::Zstd => "zstd"@,
    }
}

/// Algorithm named by a string; `bz2` and `gz` are accepted too.
pub open spec fn algorithm_of_name(s: Seq<char>) -> Option<CompressionAlgorithm> {
    if s == "lz4"@ {
        Some(CompressionAlgorithm::Lz4)
    } else if s == "bzip2"@ || s == "bz2"@ {
        Some(CompressionAlgorithm::Bzip2)
    } else if s == "deflate"@ {
        Some(CompressionAlgorithm::Deflate)
    } else if s == "gzip"@ || s == "gz"@ {
        Some(CompressionAlgorithm::Gzip)
    } else if s == "zlib"@ {
        Some(CompressionAlgorithm::Zlib)
    } else if s == "zstd"@ {
        Some(CompressionAlgorithm::Zstd)
    } else {
        None
    }
}

impl CompressionAlgorithm {
    /// Name of the algorithm.
    pub fn name(&self) -> (r: &'static str)
        ensures
            r@ == algorithm_name(*self),
    {
        match self {
            CompressionAlgorithm::Lz4 => "lz4",
            CompressionAlgorithm::Bzip2 => "bzip2",
            CompressionAlgorithm::Deflate => "deflate",
            CompressionAlgorithm::Gzip => "gzip",
            CompressionAlgorithm::Zlib => "zlib",
            CompressionAlgorithm::Zstd => "zstd",
        }
    }

    /// Algorithm of the given name.
    pub fn from_str(s: &str) -> (r: Result<CompressionAlgorithm, CompressionError>)
        ensures
            algorithm_of_name(s@) matches Some(a) ==> (r matches Ok(b) && b == a),
            algorithm_of_name(s@) is None ==> (r matches Err(CompressionError::UnknownAlgorithm(n))
                && n@ == s@),
    {
        if str_eq(s, "lz4") {
            Ok(CompressionAlgorithm::Lz4)
        } else if str_eq(s, "bzip2") || str_eq(s, "bz2") {
            Ok(CompressionAlgorithm::Bzip2)
        } else if str_eq(s, "deflate") {
            Ok(CompressionAlgorithm::Deflate)
        } else if str_eq(s, "gzip") || str_eq(s, "gz") {
            Ok(CompressionAlgorithm::Gzip)
        } else if str_eq(s, "zlib") {
            Ok(CompressionAlgorithm::Zlib)
        } else if str_eq(s, "zstd") {
            Ok(CompressionAlgorithm::Zstd)
        } else {
            Err(CompressionError::UnknownAlgorithm(String::from_str(s)))
        }
    }
}

/// Parsing the name of an algorithm gives the algorithm back.
pub proof fn lemma_algorithm_name_roundtrip(a: CompressionAlgorithm)
    ensures
        algorithm_of_name(algorithm_name(a)) == Some(a),
{
    reveal_strlit("lz4");
    reveal_strlit("bzip2");
    reveal_strlit("bz2");
    reveal_strlit("deflate");
    reveal_strlit("gzip");
    reveal_strlit("gz");
    reveal_strlit("zlib");
    reveal_strlit("zstd");
    assert("lz4"@.len() != "bzip2"@.len());
    assert("lz4"@.len() != "deflate"@.len());
    assert("lz4"@[0] != "gzip"@[0] && "lz4"@.len() != "gz"@.len());
    assert("lz4"@[0] != "zlib"@[0] && "lz4"@[0] != "zstd"@[0]);
    assert("bzip2"@.len() != "bz2"@.len() && "bzip2"@.len() != "deflate"@.len());
    assert("bzip2"@[0] != "gzip"@[0] && "bzip2"@[0] != "zlib"@[0] && "bzip2"@[0] != "zstd"@[0]);
    assert("bzip2"@.len() != "gz"@.len());
    assert("deflate"@.len() != "gzip"@.len() && "deflate"@.len() != "gz"@.len());
    assert("deflate"@.len() != "zlib"@.len() && "deflate"@.len() != "zstd"@.len());
    assert("gzip"@[0] != "zlib"@[0] && "gzip"@[0] != "zstd"@[0]);
    assert("zlib"@[1] != "zstd"@[1]);
}

/// Compression levels.
#[derive(Default, Debug, Clone, Copy, PartialEq, Eq, Hash, Structural)]
pub enum CompressionLevel {
    /// 1/5 - very fast, small compression ratio.
    Quick,
    /// 2/5 - fast, small compression ratio.
    Fast,
    /// 3/5 - balanced compression speed and ratio.
    Balanced,
    /// 4/5 - slow, good compression ratio.
    Good,
    /// 5/5 - very slow, good compression ratio.
    Best,
    /// Default native compression level for the selected algorithm.
    #[default]
    Default,
    /// Custom native compression level for the selected algorithm.
    Custom(i8),
}

/// The zstd level of a compression level.
pub open spec fn spec_zstd_level(l: CompressionLevel) -> i32 {
    match l {
        CompressionLevel::Quick => 3,
        CompressionLevel::Fast => 9,
        CompressionLevel::Balanced => 13,
        CompressionLevel::Good => 17,
        CompressionLevel::Best => 22,
        CompressionLevel::Default => 10,
        CompressionLevel::Custom(v) => v as i32,
    }
}

/// The bzip2 level of a compression level (a custom level converted to
/// `u32` as `as` does).
pub open spec fn spec_bzip2_level(l: CompressionLevel) -> u32 {
    match l {
        CompressionLevel::Quick => 1,
        CompressionLevel::Fast => 3,
        CompressionLevel::Balanced => 5,
        CompressionLevel::Good => 7,
        CompressionLevel::Best => 9,
        CompressionLevel::Default => 4,
        CompressionLevel::Custom(v) => v as u32,
    }
}

/// The deflate (gzip, zlib) level of a compression level.
pub open spec fn spec_flate2_level(l: CompressionLevel) -> u32 {
    match l {
        CompressionLevel::Quick => 1,
        CompressionLevel::Fast => 3,
        CompressionLevel::Balanced => 5,
        CompressionLevel::Good => 7,
        CompressionLevel::Best => 9,
        CompressionLevel::Default => 6,
        CompressionLevel::Custom(v) => v as u32,
    }
}

/// The codecs accept the level: bzip2 takes 1..=9, the deflate family
/// 0..=10 (its miniz backend has a level 10); lz4 has no level and zstd
/// clamps it.
pub open spec fn level_supported(a: CompressionAlgorithm, l: CompressionLevel) -> bool {
    match a {
        CompressionAlgorithm::Bzip2 => match l {
            CompressionLevel::Custom(v) => 1 <= v <= 9,
            _ => true,
        },
        CompressionAlgorithm::Deflate | CompressionAlgorithm::Gzip | CompressionAlgorithm::Zlib => match l {
            CompressionLevel::Custom(v) => 0 <= v <= 10,
            _ => true,
        },
        _ => true,
    }
}

/// Text form of a level.
pub open spec fn level_name(l: CompressionLevel) -> Seq<char> {
    match l {
        CompressionLevel::Quick => "quick"@,
        CompressionLevel::Fast => "fast"@,
        CompressionLevel::Balanced => "balanced"@,
        CompressionLevel::Good => "good"@,
        CompressionLevel::Best => "best"@,
        CompressionLevel::Default => "default"@,
        CompressionLevel::Custom(v) => int_decimal(v as int),
    }
}

/// Level named by a string: a level name, or an 8-bit integer for a custom
/// level.
pub open spec fn level_of_name(s: Seq<char>) -> Option<CompressionLevel> {
    if s == "quick"@ {
        Some(CompressionLevel::Quick)
    } else if s == "fast"@ {
        Some(CompressionLevel::Fast)
    } else if s == "balanced"@ {
        Some(CompressionLevel::Balanced)
    } else if s == "good"@ {
        Some(CompressionLevel::Good)
    } else if s == "best"@ {
        Some(CompressionLevel::Best)
    } else if s == "default"@ {
        Some(CompressionLevel::Default)
    } else {
        match parse_i8(s) {
            Some(v) => Some(CompressionLevel::Custom(v)),
            None => None,
        }
    }
}

impl CompressionLevel {
    /// Convert into zstd compression level.
    pub fn zstd_level(&self) -> (r: i32)
        ensures
            r == spec_zstd_level(*self),
    {
        match self {
            CompressionLevel::Quick => 3,
            CompressionLevel::Fast => 9,
            CompressionLevel::Balanced => 13,
            CompressionLevel::Good => 17,
            CompressionLevel::Best => 22,
            CompressionLevel::Default => 10,
            CompressionLevel::Custom(v) => *v as i32,
        }
    }

    /// Convert into bzip2 compression level.
    pub fn bzip2_level(&self) -> (r: u32)
        ensures
            r == spec_bzip2_level(*self),
    {
        match self {
            CompressionLevel::Quick => 1,
            CompressionLevel::Fast => 3,
            CompressionLevel::Balanced => 5,
            CompressionLevel::Good => 7,
            CompressionLevel::Best => 9,
            CompressionLevel::Default => 4,
            CompressionLevel::Custom(v) => *v as u32,
        }
    }

    /// Convert into deflate (gzip, zlib) compression level.
    pub fn flate2_level(&self) -> (r: u32)
        ensures
            r == spec_flate2_level(*self),
    {
        match self {
            CompressionLevel::Quick => 1,
            CompressionLevel::Fast => 3,
            CompressionLevel::Balanced => 5,
            CompressionLevel::Good => 7,
            CompressionLevel::Best => 9,
            CompressionLevel::Default => 6,
            CompressionLevel::Custom(v) => *v as u32,
        }
    }

    /// Text form of the level.
    pub fn to_string(&self) -> (r: String)
        ensures
            r@ == level_name(*self),
    {
        match self {
            CompressionLevel::Quick => String::from_str("quick"),
            CompressionLevel::Fast => String::from_str("fast"),
            CompressionLevel::Balanced => String::from_str("balanced"),
            CompressionLevel::Good => String::from_str("good"),
            CompressionLevel::Best => String::from_str("best"),
            CompressionLevel::Default => String::from_str("default"),
            CompressionLevel::Custom(v) => string_from_chars(i8_decimal(*v)),
        }
    }

    /// Level of the given text: a level name, or an 8-bit integer.
    pub fn from_str(s: &str) -> (r: Result<CompressionLevel, CompressionError>)
        ensures
            level_of_name(s@) matches Some(l) ==> (r matches Ok(m) && m == l),
            level_of_name(s@) is None ==> (r matches Err(CompressionError::InvalidLevel(n)) && n@
                == s@),
    {
        if str_eq(s, "quick") {
            Ok(CompressionLevel::Quick)
        } else if str_eq(s, "fast") {
            Ok(CompressionLevel::Fast)
        } else if str_eq(s, "balanced") {
            Ok(CompressionLevel::Balanced)
        } else if str_eq(s, "good") {
            Ok(CompressionLevel::Good)
        } else if str_eq(s, "best") {
            Ok(CompressionLevel::Best)
        } else if str_eq(s, "default") {
            Ok(CompressionLevel::Default)
        } else {
            let cs = chars_of(s);
            match parse_i8_chars(cs.as_slice()) {
                Some(v) => Ok(CompressionLevel::Custom(v)),
                None => Err(CompressionError::InvalidLevel(String::from_str(s))),
            }
        }
    }
}

/// Parsing the text form of a level gives the level back.
pub proof fn lemma_level_name_roundtrip(l: CompressionLevel)
    ensures
        level_of_name(level_name(l)) == Some(l),
{
    reveal_strlit("quick");
    reveal_strlit("fast");
    reveal_strlit("balanced");
    reveal_strlit("good");
    reveal_strlit("best");
    reveal_strlit("default");
    match l {
        CompressionLevel::Custom(v) => {
            lemma_i8_decimal_roundtrip(v);
            let s = int_decimal(v as int);
            crate::text::lemma_nat_decimal_digits(if v < 0 {
                (-(v as int)) as nat
            } else {
                v as nat
            });
            if v < 0 {
                assert(s[0] == '-');
            } else {
                assert(crate::text::is_digit(s[0]));
            }
            assert(s != "quick"@ && s != "fast"@ && s != "balanced"@);
            assert(s != "good"@ && s != "best"@ && s != "default"@);
        },
        _ => {
            assert("quick"@[0] != "fast"@[0] && "quick"@[0] != "balanced"@[0]);
            assert("quick"@[0] != "good"@[0] && "quick"@[0] != "best"@[0] && "quick"@[0] != "default"@[0]);
            assert("fast"@[0] != "balanced"@[0] && "fast"@[0] != "good"@[0]);
            assert("fast"@[0] != "best"@[0] && "fast"@[0] != "default"@[0]);
            assert("balanced"@.len() != "good"@.len() && "balanced"@.len() != "best"@.len());
            assert("balanced"@[0] != "default"@[0]);
            assert("good"@[0] != "best"@[0] && "good"@[0] != "default"@[0]);
            assert("best"@[0] != "default"@[0]);
        },
    }
}

/// The compressed form of `data` by an algorithm at a level.
pub open spec fn encoding(a: CompressionAlgorithm, l: CompressionLevel, data: Seq<u8>) -> Seq<u8> {
    match a {
        CompressionAlgorithm::Lz4 => lz4_frame_encoding(data),
        CompressionAlgorithm::Bzip2 => bzip2_encoding(spec_bzip2_level(l), data),
        CompressionAlgorithm::Deflate => deflate_encoding(spec_flate2_level(l), data),
        CompressionAlgorithm::Gzip => gzip_encoding(spec_flate2_level(l), data),
        CompressionAlgorithm::Zlib => zlib_encoding(spec_flate2_level(l), data),
        CompressionAlgorithm::Zstd => zstd_encoding(spec_zstd_level(l), data),
    }
}

/// What decompressing `data` gives, or `None` when the codec fails.
pub open spec fn decoding(a: CompressionAlgorithm, data: Seq<u8>) -> Option<Seq<u8>> {
    match a {
        CompressionAlgorithm::Lz4 => lz4_frame_decoding(data),
        CompressionAlgorithm::Bzip2 => bzip2_decoding(data),
        CompressionAlgorithm::Deflate => deflate_decoding(data),
        CompressionAlgorithm::Gzip => gzip_decoding(data),
        CompressionAlgorithm::Zlib => zlib_decoding(data),
        CompressionAlgorithm::Zstd => zstd_decoding(data),
    }
}

/// Compress `data` in one go.
pub fn encode(a: CompressionAlgorithm, l: CompressionLevel, data: &[u8]) -> (r: Result<
    Vec<u8>,
    CompressionError,
>)
    requires
        level_supported(a, l),
    ensures
        r matches Ok(v) && v@ == encoding(a, l, data@) && v@.len() > 0,
{
    let res = match a {
        CompressionAlgorithm::Lz4 => lz4_encode(data),
        CompressionAlgorithm::Bzip2 => bzip2_encode(l.bzip2_level(), data),
        CompressionAlgorithm::Deflate => deflate_encode(l.flate2_level(), data),
        CompressionAlgorithm::Gzip => gzip_encode(l.flate2_level(), data),
        CompressionAlgorithm::Zlib => zlib_encode(l.flate2_level(), data),
        CompressionAlgorithm::Zstd => zstd_encode(l.zstd_level(), data),
    };
    match res {
        Ok(v) => Ok(v),
        Err(e) => Err(CompressionError::Io(e)),
    }
}

/// Decompress `data` in one go. Decompressing what `encode` made with the
/// same algorithm, at whatever level, gives back its input.
pub fn decode(a: CompressionAlgorithm, data: &[u8]) -> (r: Result<Vec<u8>, CompressionError>)
    ensures
        r is Ok <==> decoding(a, data@) is Some,
        r matches Ok(v) ==> Some(v@) == decoding(a, data@),
        r is Err ==> (r matches Err(CompressionError::Io(_))),
        forall|l: CompressionLevel, x: Seq<u8>|
            level_supported(a, l) && #[trigger] encoding(a, l, x) == data@ ==> (r matches Ok(v) && v@
                == x),
{
    let res = match a {
        CompressionAlgorithm::Lz4 => lz4_decode(data),
        CompressionAlgorithm::Bzip2 => bzip2_decode(data),
        CompressionAlgorithm::Deflate => deflate_decode(data),
        CompressionAlgorithm::Gzip => gzip_decode(data),
        CompressionAlgorithm::Zlib => zlib_decode(data),
        CompressionAlgorithm::Zstd => zstd_decode(data),
    };
    proof {
        assert forall|l: CompressionLevel, x: Seq<u8>|
            level_supported(a, l) && #[trigger] encoding(a, l, x) == data@ implies (res matches Ok(v)
                && v@ == x) by {
            match a {
                CompressionAlgorithm::Lz4 => {
                    assert(lz4_frame_encoding(x) == data@);
                },
                CompressionAlgorithm::Bzip2 => {
                    assert(bzip2_encoding(spec_bzip2_level(l), x) == data@);
                },
                CompressionAlgorithm::Deflate => {
                    assert(deflate_encoding(spec_flate2_level(l), x) == data@);
                },
                CompressionAlgorithm::Gzip => {
                    assert(gzip_encoding(spec_flate2_level(l), x) == data@);
                },
                CompressionAlgorithm::Zlib => {
                    assert(zlib_encoding(spec_flate2_level(l), x) == data@);
                },
                CompressionAlgorithm::Zstd => {
                    assert(zstd_encoding(spec_zstd_level(l), x) == data@);
                },
            }
        }
    }
    match res {
        Ok(v) => Ok(v),
        Err(e) => Err(CompressionError::Io(e)),
    }
}

} // verus!
