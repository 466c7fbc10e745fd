use vstd::prelude::*;

use base64::Engine;

use crate::text::str_eq;

verus! {

/// Hexadecimal digit of a value below 16, lower case.
pub open spec fn hex_digit(d: int) -> char {
    if d < 10 {
        (('0' as int) + d) as char
    } else {
        (('a' as int) + d - 10) as char
    }
}

/// Lower-case hexadecimal text of `data`, two digits per byte, high half
/// first.
pub open spec fn hex_text(data: Seq<u8>) -> Seq<char> {
    Seq::new(
        2 * data.len(),
        |i: int|
            if i % 2 == 0 {
                hex_digit((data[i / 2] / 16) as int)
            } else {
                hex_digit((data[i / 2] % 16) as int)
            },
    )
}

/// Value of a hexadecimal digit of either case, or -1.
pub open spec fn hex_value(c: char) -> int {
    if '0' <= c <= '9' {
        (c as int) - ('0' as int)
    } else if 'a' <= c <= 'f' {
        (c as int) - ('a' as int) + 10
    } else if 'A' <= c <= 'F' {
        (c as int) - ('A' as int) + 10
    } else {
        -1
    }
}

/// `s` is an even number of hexadecimal digits.
pub open spec fn is_hex_text(s: Seq<char>) -> bool {
    &&& s.len() % 2 == 0
    &&& forall|i: int| 0 <= i < s.len() ==> hex_value(#[trigger] s[i]) >= 0
}

/// Bytes of a hexadecimal text, two digits per byte.
pub open spec fn hex_bytes(s: Seq<char>) -> Seq<u8> {
    Seq::new(s.len() / 2, |i: int| (hex_value(s[2 * i]) * 16 + hex_value(s[2 * i + 1])) as u8)
}

/// Hexadecimal digit character of a value below 16.
fn hex_digit_char(d: u8) -> (c: char)
    requires
        d < 16,
    ensures
        c == hex_digit(d as int),
{
    if d < 10 {
        let c = crate::text::char_from_ascii(48 + d);
        assert(c == ((('0' as int) + d) as char));
        c
    } else {
        let c = crate::text::char_from_ascii(97 + d - 10);
        assert(c == ((('a' as int) + d - 10) as char));
        c
    }
}

/// Value of a hexadecimal digit of either case, or -1.
fn hex_value_of(c: char) -> (r: i32)
    ensures
        r == hex_value(c),
{
    if '0' <= c && c <= '9' {
        (c as u32 - '0' as u32) as i32
    } else if 'a' <= c && c <= 'f' {
        (c as u32 - 'a' as u32 + 10) as i32
    } else if 'A' <= c && c <= 'F' {
        (c as u32 - 'A' as u32 + 10) as i32
    } else {
        -1
    }
}

/// Hexadecimal text of `data`: lower-case digits, high half of each byte
/// first (what `hex::encode` gives).
fn hex_encode(data: &[u8]) -> (r: String)
    ensures
        r@ == hex_text(data@),
{
    let mut cs: Vec<char> = Vec::new();
    let mut i: usize = 0;
    while i < data.len()
        invariant
            i <= data@.len(),
            cs@.len() == 2 * i,
            forall|k: int| 0 <= k < 2 * i ==> #[trigger] cs@[k] == hex_text(data@)[k],
        decreases data@.len() - i,
    {
        let b = data[i];
        proof {
            assert((2 * i) / 2 == i as int && (2 * i) % 2 == 0 && (2 * i + 1) / 2 == i as int
                && (2 * i + 1) % 2 == 1) by (nonlinear_arith);
        }
        cs.push(hex_digit_char(b / 16));
        cs.push(hex_digit_char(b % 16));
        i = i + 1;
    }
    let r = crate::text::string_from_chars(cs);
    assert(r@ =~= hex_text(data@));
    r
}

/// Bytes of a hexadecimal text: both cases are accepted; an odd length or
/// another character is an error (what `hex::decode` gives).
fn hex_decode(s: &str) -> (r: Option<Vec<u8>>)
    ensures
        r is Some <==> is_hex_text(s@),
        r matches Some(v) ==> v@ == hex_bytes(s@),
{
    let cs = crate::text::chars_of(s);
    if cs.len() % 2 != 0 {
        return None;
    }
    let n = cs.len();
    let half = n / 2;
    let mut out: Vec<u8> = Vec::new();
    let mut j: usize = 0;
    while j < half
        invariant
            cs@ == s@,
            n == cs@.len(),
            cs@.len() % 2 == 0,
            half == cs@.len() / 2,
            j <= half,
            out@.len() == j,
            forall|k: int| 0 <= k < 2 * j ==> hex_value(#[trigger] cs@[k]) >= 0,
            forall|k: int| 0 <= k < j ==> #[trigger] out@[k] == hex_bytes(s@)[k],
        decreases half - j,
    {
        assert(2 * j + 1 < n) by (nonlinear_arith)
            requires
                j < half,
                half == n / 2,
        ;
        let hi = hex_value_of(cs[2 * j]);
        let lo = hex_value_of(cs[2 * j + 1]);
        if hi < 0 || lo < 0 {
            return None;
        }
        out.push((hi * 16 + lo) as u8);
        j = j + 1;
    }
    assert(out@ =~= hex_bytes(s@));
    Some(out)
}

/// Decoding the hexadecimal text of bytes gives the bytes back.
pub proof fn lemma_hex_roundtrip(data: Seq<u8>)
    ensures
        is_hex_text(hex_text(data)),
        hex_bytes(hex_text(data)) == data,
{
    let t = hex_text(data);
    assert forall|i: int| 0 <= i < t.len() implies hex_value(#[trigger] t[i]) >= 0 by {
        let b = data[i / 2];
        assert(b / 16 < 16 && b % 16 < 16) by (nonlinear_arith)
            requires
                0 <= b < 256,
        ;
    }
    assert(t.len() % 2 == 0) by (nonlinear_arith)
        requires
            t.len() == 2 * data.len(),
    ;
    assert forall|i: int| 0 <= i < data.len() implies #[trigger] hex_bytes(t)[i] == data[i] by {
        let b = data[i];
        assert((2 * i) / 2 == i && (2 * i) % 2 == 0 && (2 * i + 1) / 2 == i && (2 * i + 1) % 2
            == 1) by (nonlinear_arith);
        assert(b / 16 < 16 && b % 16 < 16 && (b / 16) * 16 + b % 16 == b) by (nonlinear_arith)
            requires
                0 <= b < 256,
        ;
    }
    assert(t.len() / 2 == data.len()) by (nonlinear_arith)
        requires
            t.len() == 2 * data.len(),
    ;
    assert(hex_bytes(t) =~= data);
}

/// Base32 text of `data` (`base32::encode`) in the lower-case RFC 4648
/// alphabet, or its "extended hex" variant when `hex`, padded with `=` when
/// `padding`.
pub uninterp spec fn base32_text(hex: bool, padding: bool, data: Seq<u8>) -> Seq<char>;

/// What `base32::decode` gives for `s` in that alphabet.
pub uninterp spec fn base32_bytes(hex: bool, padding: bool, s: Seq<char>) -> Option<Seq<u8>>;

/// Base64 text of `data` (`base64::Engine::encode` of a `GeneralPurpose`
/// engine) in the standard alphabet, or the URL-safe one when `url_safe`,
/// padded when `padding`.
pub uninterp spec fn base64_text(url_safe: bool, padding: bool, data: Seq<u8>) -> Seq<char>;

/// What `base64::Engine::decode` of that engine gives for `s`.
pub uninterp spec fn base64_bytes(url_safe: bool, padding: bool, s: Seq<char>) -> Option<Seq<u8>>;

/// Whether `encoding_rs::Encoding::for_label` knows the label.
pub uninterp spec fn charset_label_known(label: Seq<u8>) -> bool;

/// Bytes of `text` in the charset of the label (`encoding_rs`).
pub uninterp spec fn charset_encoded(label: Seq<u8>, text: Seq<char>) -> Seq<u8>;

/// Text of `bytes` in the charset of the label, with BOM sniffing and
/// replacement of malformed sequences (`encoding_rs::Encoding::decode`).
pub uninterp spec fn charset_decoded(label: Seq<u8>, bytes: Seq<u8>) -> Seq<char>;

/// Text of UTF-8 bytes, if they are valid UTF-8.
pub open spec fn utf8_text(bytes: Seq<u8>) -> Option<Seq<char>> {
    if vstd::utf8::valid_utf8(bytes) {
        Some(vstd::utf8::decode_utf8(bytes))
    } else {
        None
    }
}

/// UTF-8 bytes of a text.
pub open spec fn utf8_bytes(text: Seq<char>) -> Seq<u8> {
    vstd::utf8::encode_utf8(text)
}

/// Base32 text of `data` with `base32::encode`. Claimed: the text named
/// `base32_text(hex, padding, data)`, which `base32::decode` with the same
/// alphabet reads back as `data` (the crate's tests check this).
#[verifier::external_body]
fn base32_encode(hex: bool, padding: bool, data: &[u8]) -> (r: String)
    ensures
        r@ == base32_text(hex, padding, data@),
        base32_bytes(hex, padding, r@) == Some(data@),
{
    let alphabet = if hex {
        base32::Alphabet::Rfc4648HexLower { padding }
    } else {
        base32::Alphabet::Rfc4648Lower { padding }
    };
    base32::encode(alphabet, data)
}

/// Bytes of a base32 text with `base32::decode`. Claimed: the result named
/// `base32_bytes(hex, padding, s)`, and a text that the encoder made with
/// the same alphabet decodes to the bytes it was made from (the crate's
/// tests check this).
#[verifier::external_body]
pub(crate) fn base32_decode(hex: bool, padding: bool, s: &str) -> (r: Option<Vec<u8>>)
    ensures
        r matches Some(v) ==> base32_bytes(hex, padding, s@) == Some(v@),
        r is None ==> base32_bytes(hex, padding, s@) is None,
        r matches Some(v) ==> forall|x: Seq<u8>| #[trigger] base32_text(hex, padding, x) == s@ ==> v@
            == x,
        r is None ==> forall|x: Seq<u8>| #[trigger] base32_text(hex, padding, x) != s@,
{
    let alphabet = if hex {
        base32::Alphabet::Rfc4648HexLower { padding }
    } else {
        base32::Alphabet::Rfc4648Lower { padding }
    };
    base32::decode(alphabet, s)
}

/// Base64 text of `data` (`base64::Engine::encode`). Claimed: the text
/// named `base64_text(url_safe, padding, data)`, which the decoder with the
/// same settings reads back as `data` when it is padded or needed no
/// padding (the decoder requires canonical padding).
#[verifier::external_body]
fn base64_encode(url_safe: bool, padding: bool, data: &[u8]) -> (r: String)
    ensures
        r@ == base64_text(url_safe, padding, data@),
        (padding || data@.len() % 3 == 0) ==> base64_bytes(url_safe, padding, r@) == Some(data@),
{
    let alphabet = if url_safe { &base64::alphabet::URL_SAFE } else { &base64::alphabet::STANDARD };
    let config = base64::engine::GeneralPurposeConfig::new().with_encode_padding(padding);
    base64::engine::GeneralPurpose::new(alphabet, config).encode(data)
}

/// Bytes of a base64 text (`base64::Engine::decode`, which requires
/// canonical padding). Claimed: the result named
/// `base64_bytes(url_safe, padding, s)`; a padded text that the encoder made
/// decodes to its bytes, and so does an unpadded one when it needed no
/// padding (a multiple of three bytes).
#[verifier::external_body]
fn base64_decode(url_safe: bool, padding: bool, s: &str) -> (r: Option<Vec<u8>>)
    ensures
        r matches Some(v) ==> base64_bytes(url_safe, padding, s@) == Some(v@),
        r is None ==> base64_bytes(url_safe, padding, s@) is None,
        r matches Some(v) ==> forall|x: Seq<u8>|
            (padding || x.len() % 3 == 0) && #[trigger] base64_text(url_safe, padding, x) == s@
                ==> v@ == x,
        r is None ==> forall|x: Seq<u8>|
            (padding || x.len() % 3 == 0) ==> #[trigger] base64_text(url_safe, padding, x) != s@,
{
    let alphabet = if url_safe { &base64::alphabet::URL_SAFE } else { &base64::alphabet::STANDARD };
    let config = base64::engine::GeneralPurposeConfig::new().with_encode_padding(padding);
    base64::engine::GeneralPurpose::new(alphabet, config).decode(s).ok()
}

/// Bytes of `text` in the charset of `label`, with
/// `encoding_rs::Encoding::for_label` and `encode`; `None` for an unknown
/// label.
#[verifier::external_body]
fn charset_encode(label: &[u8], text: &str) -> (r: Option<Vec<u8>>)
    ensures
        r is Some <==> charset_label_known(label@),
        r matches Some(v) ==> v@ == charset_encoded(label@, text@),
{
    encoding_rs::Encoding::for_label(label).map(|e| e.encode(text).0.into_owned())
}

/// Text of `bytes` in the charset of `label`, with
/// `encoding_rs::Encoding::for_label` and `decode`; `None` for an unknown
/// label.
#[verifier::external_body]
fn charset_decode(label: &[u8], bytes: &[u8]) -> (r: Option<String>)
    ensures
        r is Some <==> charset_label_known(label@),
        r matches Some(t) ==> t@ == charset_decoded(label@, bytes@),
{
    encoding_rs::Encoding::for_label(label).map(|e| e.decode(bytes).0.into_owned())
}

/// Text of UTF-8 bytes (`String::from_utf8`). Claimed, as std documents:
/// the bytes are taken when they are valid UTF-8, and the text is what they
/// decode to.
#[verifier::external_body]
fn utf8_decode(bytes: &[u8]) -> (r: Option<String>)
    ensures
        r matches Some(t) ==> utf8_text(bytes@) == Some(t@),
        r is None ==> utf8_text(bytes@) is None,
{
    String::from_utf8(bytes.to_vec()).ok()
}

/// UTF-8 bytes of a text.
fn utf8_encode(text: &str) -> (r: Vec<u8>)
    ensures
        r@ == utf8_bytes(text@),
{
    copy_bytes(text.as_bytes())
}

/// Text encodings of values.
#[derive(Debug, Clone, Copy, PartialEq, Eq, Structural)]
pub enum StringEncoding {
    /// Lower-case hexadecimal.
    Base16,
    /// Base32 in the lower-case RFC 4648 alphabet, or its extended hex
    /// variant.
    Base32 { hex: bool, padding: bool },
    /// Base64 in the standard alphabet, or the URL-safe one.
    Base64 { url_safe: bool, padding: bool },
    Json { pretty: bool },
    Bson,
    Toml { pretty: bool },
    Yaml,
}

/// Encoding of the given name.
pub open spec fn encoding_of_name(s: Seq<char>) -> Option<StringEncoding> {
    if s == "base16"@ || s == "hex"@ {
        Some(StringEncoding::Base16)
    } else if s == "base32"@ || s == "base32/pad"@ {
        Some(StringEncoding::Base32 { hex: false, padding: true })
    } else if s == "base32/nopad"@ {
        Some(StringEncoding::Base32 { hex: false, padding: false })
    } else if s == "base32/hex-pad"@ {
        Some(StringEncoding::Base32 { hex: true, padding: true })
    } else if s == "base32/hex-nopad"@ {
        Some(StringEncoding::Base32 { hex: true, padding: false })
    } else if s == "base64"@ || s == "base64/pad"@ {
        Some(StringEncoding::Base64 { url_safe: false, padding: true })
    } else if s == "base64/nopad"@ {
        Some(StringEncoding::Base64 { url_safe: false, padding: false })
    } else if s == "base64/urlsafe-pad"@ {
        Some(StringEncoding::Base64 { url_safe: true, padding: true })
    } else if s == "base64/urlsafe-nopad"@ {
        Some(StringEncoding::Base64 { url_safe: true, padding: false })
    } else if s == "json"@ || s == "json/compact"@ {
        Some(StringEncoding::Json { pretty: false })
    } else if s == "json/pretty"@ {
        Some(StringEncoding::Json { pretty: true })
    } else if s == "bson"@ {
        Some(StringEncoding::Bson)
    } else if s == "toml"@ || s == "toml/compact"@ {
        Some(StringEncoding::Toml { pretty: false })
    } else if s == "toml/pretty"@ {
        Some(StringEncoding::Toml { pretty: true })
    } else if s == "yaml"@ {
        Some(StringEncoding::Yaml)
    } else {
        None
    }
}

/// Text of `data` in a byte encoding; `None` for the encodings of
/// structured values.
pub open spec fn encoded_bytes(e: StringEncoding, data: Seq<u8>) -> Option<Seq<char>> {
    match e {
        StringEncoding::Base16 => Some(hex_text(data)),
        StringEncoding::Base32 { hex, padding } => Some(base32_text(hex, padding, data)),
        StringEncoding::Base64 { url_safe, padding } => Some(base64_text(url_safe, padding, data)),
        _ => None,
    }
}

/// Bytes of `s` in a byte encoding (`None` inside when `s` is not a valid
/// text of it); `None` for the encodings of structured values.
pub open spec fn decoded_bytes(e: StringEncoding, s: Seq<char>) -> Option<Option<Seq<u8>>> {
    match e {
        StringEncoding::Base16 => Some(
            if is_hex_text(s) {
                Some(hex_bytes(s))
            } else {
                None
            },
        ),
        StringEncoding::Base32 { hex, padding } => Some(base32_bytes(hex, padding, s)),
        StringEncoding::Base64 { url_safe, padding } => Some(base64_bytes(url_safe, padding, s)),
        _ => None,
    }
}

/// Errors of text conversions.
#[derive(Debug, Clone, Copy, PartialEq, Eq, Structural)]
pub enum EncodingError {
    /// No encoding has this name.
    InvalidEncoding,
    /// The text is not valid in the encoding.
    InvalidText,
    /// The encoding takes structured values, not bytes.
    NotBytes,
    /// No charset has this label.
    InvalidCharset,
    /// The bytes are not UTF-8.
    NotUtf8,
}

impl StringEncoding {
    /// Encoding of the given name.
    pub fn from_str(s: &str) -> (r: Result<StringEncoding, EncodingError>)
        ensures
            encoding_of_name(s@) matches Some(e) ==> r == Ok::<StringEncoding, EncodingError>(e),
            encoding_of_name(s@) is None ==> r == Err::<StringEncoding, EncodingError>(
                EncodingError::InvalidEncoding,
            ),
    {
        if str_eq(s, "base16") || str_eq(s, "hex") {
            Ok(StringEncoding::Base16)
        } else if str_eq(s, "base32") || str_eq(s, "base32/pad") {
            Ok(StringEncoding::Base32 { hex: false, padding: true })
        } else if str_eq(s, "base32/nopad") {
            Ok(StringEncoding::Base32 { hex: false, padding: false })
        } else if str_eq(s, "base32/hex-pad") {
            Ok(StringEncoding::Base32 { hex: true, padding: true })
        } else if str_eq(s, "base32/hex-nopad") {
            Ok(StringEncoding::Base32 { hex: true, padding: false })
        } else if str_eq(s, "base64") || str_eq(s, "base64/pad") {
            Ok(StringEncoding::Base64 { url_safe: false, padding: true })
        } else if str_eq(s, "base64/nopad") {
            Ok(StringEncoding::Base64 { url_safe: false, padding: false })
        } else if str_eq(s, "base64/urlsafe-pad") {
            Ok(StringEncoding::Base64 { url_safe: true, padding: true })
        } else if str_eq(s, "base64/urlsafe-nopad") {
            Ok(StringEncoding::Base64 { url_safe: true, padding: false })
        } else if str_eq(s, "json") || str_eq(s, "json/compact") {
            Ok(StringEncoding::Json { pretty: false })
        } else if str_eq(s, "json/pretty") {
            Ok(StringEncoding::Json { pretty: true })
        } else if str_eq(s, "bson") {
            Ok(StringEncoding::Bson)
        } else if str_eq(s, "toml") || str_eq(s, "toml/compact") {
            Ok(StringEncoding::Toml { pretty: false })
        } else if str_eq(s, "toml/pretty") {
            Ok(StringEncoding::Toml { pretty: true })
        } else if str_eq(s, "yaml") {
            Ok(StringEncoding::Yaml)
        } else {
            Err(EncodingError::InvalidEncoding)
        }
    }

    /// Whether the encoding turns bytes into text (rather than structured
    /// values).
    pub fn is_byte_encoding(&self) -> (r: bool)
        ensures
            r == encoded_bytes(*self, Seq::empty()) is Some,
    {
        match self {
            StringEncoding::Base16 | StringEncoding::Base32 { .. } | StringEncoding::Base64 { .. } => true,
            _ => false,
        }
    }

    /// Text of `data` in this byte encoding. Decoding it gives `data` back,
    /// except for unpadded base64 of a length that needed padding.
    pub fn encode_bytes(&self, data: &[u8]) -> (r: Result<String, EncodingError>)
        ensures
            encoded_bytes(*self, data@) matches Some(t) ==> (r matches Ok(s) && s@ == t),
            encoded_bytes(*self, data@) is None ==> r == Err::<String, EncodingError>(
                EncodingError::NotBytes,
            ),
            r matches Ok(s) ==> (!(*self matches StringEncoding::Base64 { padding: false, .. }
                && data@.len() % 3 != 0) ==> decoded_bytes(*self, s@) == Some(Some(data@))),
    {
        proof {
            lemma_hex_roundtrip(data@);
        }
        match self {
            StringEncoding::Base16 => Ok(hex_encode(data)),
            StringEncoding::Base32 { hex, padding } => Ok(base32_encode(*hex, *padding, data)),
            StringEncoding::Base64 { url_safe, padding } => Ok(base64_encode(*url_safe, *padding, data)),
            _ => Err(EncodingError::NotBytes),
        }
    }

    /// Bytes of the text `s` in this byte encoding. Decoding what
    /// `encode_bytes` made gives the bytes back, except for unpadded base64
    /// of a length that needed padding, which the decoder refuses.
    pub fn decode_bytes(&self, s: &str) -> (r: Result<Vec<u8>, EncodingError>)
        ensures
            decoded_bytes(*self, s@) matches Some(Some(b)) ==> (r matches Ok(v) && v@ == b),
            decoded_bytes(*self, s@) matches Some(None) ==> r == Err::<Vec<u8>, EncodingError>(
                EncodingError::InvalidText,
            ),
            decoded_bytes(*self, s@) is None ==> r == Err::<Vec<u8>, EncodingError>(
                EncodingError::NotBytes,
            ),
            forall|x: Seq<u8>|
                #![trigger encoded_bytes(*self, x)]
                encoded_bytes(*self, x) == Some(s@) && !(*self matches StringEncoding::Base64 {
                    padding: false,
                    ..
                } && x.len() % 3 != 0) ==> (r matches Ok(v) && v@ == x),
    {
        let res = match self {
            StringEncoding::Base16 => hex_decode(s),
            StringEncoding::Base32 { hex, padding } => base32_decode(*hex, *padding, s),
            StringEncoding::Base64 { url_safe, padding } => base64_decode(*url_safe, *padding, s),
            _ => {
                return Err(EncodingError::NotBytes);
            },
        };
        proof {
            assert forall|x: Seq<u8>|
                #![trigger encoded_bytes(*self, x)]
                encoded_bytes(*self, x) == Some(s@) && !(*self matches StringEncoding::Base64 {
                    padding: false,
                    ..
                } && x.len() % 3 != 0) implies (res matches Some(v) && v@ == x) by {
                match self {
                    StringEncoding::Base16 => {
                        lemma_hex_roundtrip(x);
                    },
                    StringEncoding::Base32 { hex, padding } => {
                        assert(base32_text(*hex, *padding, x) == s@);
                    },
                    StringEncoding::Base64 { url_safe, padding } => {
                        assert(base64_text(*url_safe, *padding, x) == s@);
                    },
                    _ => {},
                }
            }
        }
        match res {
            Some(v) => Ok(v),
            None => Err(EncodingError::InvalidText),
        }
    }
}

/// The bytes of an optional label.
pub open spec fn label_view(label: Option<&[u8]>) -> Option<Seq<u8>> {
    match label {
        Some(l) => Some(l@),
        None => None,
    }
}

/// A copy of `s`.
pub fn copy_bytes(s: &[u8]) -> (r: Vec<u8>)
    ensures
        r@ == s@,
{
    let mut r: Vec<u8> = Vec::new();
    let mut i: usize = 0;
    while i < s.len()
        invariant
            i <= s@.len(),
            r@ == s@.take(i as int),
        decreases s@.len() - i,
    {
        r.push(s[i]);
        assert(s@.take(i + 1) =~= s@.take(i as int).push(s@[i as int]));
        i = i + 1;
    }
    assert(s@.take(s@.len() as int) =~= s@);
    r
}

/// Bytes of a value given as bytes, converted to the charset of `label`
/// when one is given: the bytes must then be UTF-8 text.
pub open spec fn text_to_bytes_result(value: Seq<u8>, label: Option<Seq<u8>>) -> Result<
    Seq<u8>,
    EncodingError,
> {
    match label {
        None => Ok(value),
        Some(l) => if !charset_label_known(l) {
            Err(EncodingError::InvalidCharset)
        } else {
            match utf8_text(value) {
                None => Err(EncodingError::NotUtf8),
                Some(t) => Ok(charset_encoded(l, t)),
            }
        },
    }
}

/// UTF-8 bytes of the text that `value` holds in the charset of `label`, or
/// `value` itself when no charset is given.
pub open spec fn bytes_to_text_result(value: Seq<u8>, label: Option<Seq<u8>>) -> Result<
    Seq<u8>,
    EncodingError,
> {
    match label {
        None => Ok(value),
        Some(l) => if !charset_label_known(l) {
            Err(EncodingError::InvalidCharset)
        } else {
            Ok(utf8_bytes(charset_decoded(l, value)))
        },
    }
}

/// Bytes of `value` converted to the charset labelled `label`, if any.
pub fn text_to_bytes(value: &[u8], label: Option<&[u8]>) -> (r: Result<Vec<u8>, EncodingError>)
    ensures
        text_to_bytes_result(value@, label_view(label)) matches Ok(b) ==> (r matches Ok(v)
            && v@ == b),
        text_to_bytes_result(value@, label_view(label)) matches Err(e) ==> r == Err::<
            Vec<u8>,
            EncodingError,
        >(e),
{
    match label {
        None => Ok(copy_bytes(value)),
        Some(l) => {
            match utf8_decode(value) {
                None => {
                    match charset_encode(l, "") {
                        None => Err(EncodingError::InvalidCharset),
                        Some(_) => Err(EncodingError::NotUtf8),
                    }
                },
                Some(text) => {
                    match charset_encode(l, text.as_str()) {
                        None => Err(EncodingError::InvalidCharset),
                        Some(v) => Ok(v),
                    }
                },
            }
        },
    }
}

/// UTF-8 bytes of the text `value` holds in the charset labelled `label`, if
/// any.
pub fn bytes_to_text(value: &[u8], label: Option<&[u8]>) -> (r: Result<Vec<u8>, EncodingError>)
    ensures
        bytes_to_text_result(value@, label_view(label)) matches Ok(b) ==> (r matches Ok(v)
            && v@ == b),
        bytes_to_text_result(value@, label_view(label)) matches Err(e) ==> r == Err::<
            Vec<u8>,
            EncodingError,
        >(e),
{
    match label {
        None => Ok(copy_bytes(value)),
        Some(l) => {
            match charset_decode(l, value) {
                None => Err(EncodingError::InvalidCharset),
                Some(text) => Ok(utf8_encode(text.as_str())),
            }
        },
    }
}


/// `s` contains `p`.
pub open spec fn has_text(s: Seq<char>, p: Seq<char>) -> bool {
    exists|k: int| #[trigger] crate::text::match_at(s, p, k)
}

proof fn lemma_has_text_at(s: Seq<char>, p: Seq<char>, k: int)
    requires
        0 <= k,
        k + p.len() <= s.len(),
        forall|j: int| 0 <= j < p.len() ==> s[k + j] == p[j],
    ensures
        has_text(s, p),
{
    assert(s.subrange(k, k + p.len()) =~= p);
    assert(crate::text::match_at(s, p, k));
}

proof fn lemma_no_first_char(s: Seq<char>, p: Seq<char>)
    requires
        p.len() > 0,
        forall|i: int| 0 <= i < s.len() ==> s[i] != p[0],
    ensures
        !has_text(s, p),
{
    if has_text(s, p) {
        let k = choose|k: int| #[trigger] crate::text::match_at(s, p, k);
        assert(s.subrange(k, k + p.len())[0] == s[k]);
    }
}

/// The options of a base32 or base64 encoding follow its name: the
/// URL-safe alphabet is chosen exactly by names that say `urlsafe`, the
/// extended hex alphabet exactly by names that say `hex`, and padding is
/// left out exactly by names that say `nopad`.
pub proof fn lemma_encoding_name_options(s: Seq<char>)
    ensures
        encoding_of_name(s) matches Some(StringEncoding::Base64 { url_safe, padding }) ==> (url_safe
            <==> has_text(s, "urlsafe"@)) && (padding <==> !has_text(s, "nopad"@)),
        encoding_of_name(s) matches Some(StringEncoding::Base32 { hex, padding }) ==> (hex
            <==> has_text(s, "hex"@)) && (padding <==> !has_text(s, "nopad"@)),
{
    reveal_strlit("base16");
    reveal_strlit("base32");
    reveal_strlit("base32/hex-nopad");
    reveal_strlit("base32/hex-pad");
    reveal_strlit("base32/nopad");
    reveal_strlit("base32/pad");
    reveal_strlit("base64");
    reveal_strlit("base64/nopad");
    reveal_strlit("base64/pad");
    reveal_strlit("base64/urlsafe-nopad");
    reveal_strlit("base64/urlsafe-pad");
    reveal_strlit("hex");
    reveal_strlit("nopad");
    reveal_strlit("urlsafe");
    if s == "base64"@ {
        lemma_no_first_char(s, "urlsafe"@);
        lemma_no_first_char(s, "nopad"@);
    }
    if s == "base64/pad"@ {
        lemma_no_first_char(s, "urlsafe"@);
        lemma_no_first_char(s, "nopad"@);
    }
    if s == "base64/nopad"@ {
        lemma_no_first_char(s, "urlsafe"@);
        lemma_has_text_at(s, "nopad"@, 7);
    }
    if s == "base64/urlsafe-pad"@ {
        lemma_has_text_at(s, "urlsafe"@, 7);
        lemma_no_first_char(s, "nopad"@);
    }
    if s == "base64/urlsafe-nopad"@ {
        lemma_has_text_at(s, "urlsafe"@, 7);
        lemma_has_text_at(s, "nopad"@, 15);
    }
    if s == "base32"@ {
        lemma_no_first_char(s, "hex"@);
        lemma_no_first_char(s, "nopad"@);
    }
    if s == "base32/pad"@ {
        lemma_no_first_char(s, "hex"@);
        lemma_no_first_char(s, "nopad"@);
    }
    if s == "base32/nopad"@ {
        lemma_no_first_char(s, "hex"@);
        lemma_has_text_at(s, "nopad"@, 7);
    }
    if s == "base32/hex-pad"@ {
        lemma_has_text_at(s, "hex"@, 7);
        lemma_no_first_char(s, "nopad"@);
    }
    if s == "base32/hex-nopad"@ {
        lemma_has_text_at(s, "hex"@, 7);
        lemma_has_text_at(s, "nopad"@, 11);
    }
}


/// Base64 encodings are named `base64...`, base32 ones `base32...`, and
/// hexadecimal is `hex` or `base16`.
pub proof fn lemma_encoding_name_family(s: Seq<char>)
    ensures
        encoding_of_name(s) matches Some(StringEncoding::Base64 { .. }) ==> crate::text::seq_starts_with(
            s,
            "base64"@,
        ),
        encoding_of_name(s) matches Some(StringEncoding::Base32 { .. }) ==> crate::text::seq_starts_with(
            s,
            "base32"@,
        ),
        encoding_of_name(s) matches Some(StringEncoding::Base16) ==> s == "hex"@ || s == "base16"@,
{
    reveal_strlit("base16");
    reveal_strlit("base32");
    reveal_strlit("base32/hex-nopad");
    reveal_strlit("base32/hex-pad");
    reveal_strlit("base32/nopad");
    reveal_strlit("base32/pad");
    reveal_strlit("base64");
    reveal_strlit("base64/nopad");
    reveal_strlit("base64/pad");
    reveal_strlit("base64/urlsafe-nopad");
    reveal_strlit("base64/urlsafe-pad");
    reveal_strlit("hex");
    if s == "base64"@ {
        assert(s.subrange(0, 6) =~= "base64"@);
    }
    if s == "base64/pad"@ {
        assert(s.subrange(0, 6) =~= "base64"@);
    }
    if s == "base64/nopad"@ {
        assert(s.subrange(0, 6) =~= "base64"@);
    }
    if s == "base64/urlsafe-pad"@ {
        assert(s.subrange(0, 6) =~= "base64"@);
    }
    if s == "base64/urlsafe-nopad"@ {
        assert(s.subrange(0, 6) =~= "base64"@);
    }
    if s == "base32"@ {
        assert(s.subrange(0, 6) =~= "base32"@);
    }
    if s == "base32/pad"@ {
        assert(s.subrange(0, 6) =~= "base32"@);
    }
    if s == "base32/nopad"@ {
        assert(s.subrange(0, 6) =~= "base32"@);
    }
    if s == "base32/hex-pad"@ {
        assert(s.subrange(0, 6) =~= "base32"@);
    }
    if s == "base32/hex-nopad"@ {
        assert(s.subrange(0, 6) =~= "base32"@);
    }
}

} // verus!
