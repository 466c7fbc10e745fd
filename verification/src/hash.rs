use vstd::prelude::*;

use crate::encodings::{base32_bytes, base32_decode};
use crate::digest::{
    blake3_digest, blake3_hash, blake3_hasher_finalize, blake3_hasher_input, blake3_hasher_new,
    blake3_hasher_update,
};

verus! {

/// Bytes in a hash.
pub const HASH_SIZE: usize = 8;

/// The nix-base32 text of `bytes` (`nix_base32::to_nix_base32`).
pub uninterp spec fn nix_base32_text(bytes: Seq<u8>) -> Seq<char>;

/// What `nix_base32::from_nix_base32` decodes from `s`.
pub uninterp spec fn nix_base32_bytes(s: Seq<char>) -> Option<Seq<u8>>;

/// The characters of nix-base32 texts.
pub open spec fn is_nix_base32_char(c: char) -> bool {
    ('0' <= c <= '9' || 'a' <= c <= 'z') && c != 'e' && c != 'o' && c != 'u' && c != 't'
}

/// The nix-base32 character has one of the first 16 values of the
/// alphabet `0123456789abcdfg`.
pub open spec fn is_low_nix_base32_char(c: char) -> bool {
    '0' <= c <= '9' || 'a' <= c <= 'd' || c == 'f' || c == 'g'
}

/// `nix_base32::from_nix_base32` reads the text from its end and indexes
/// past its buffer on texts of valid characters whose length is 1, 3 or 6
/// modulo 8, unless it returns `None` first: that happens, one step before
/// the overrun, when the second character's value has bits that do not fit
/// (a value of 8 or more for length 3 modulo 8, of 16 or more for length 6).
pub open spec fn nix_base32_decode_panics(s: Seq<char>) -> bool {
    &&& forall|i: int| 0 <= i < s.len() ==> is_nix_base32_char(#[trigger] s[i])
    &&& (s.len() % 8 == 1 || (s.len() % 8 == 3 && '0' <= s[1] <= '7') || (s.len() % 8 == 6
        && is_low_nix_base32_char(s[1])))
}

/// Whether decoding `s` as nix-base32 would index past the decoder's buffer.
pub fn nix_base32_decode_would_panic(s: &str) -> (r: bool)
    ensures
        r == nix_base32_decode_panics(s@),
{
    let cs = crate::text::chars_of(s);
    let n = cs.len();
    if !(n % 8 == 1 || n % 8 == 3 || n % 8 == 6) {
        return false;
    }
    if n % 8 == 3 && !('0' <= cs[1] && cs[1] <= '7') {
        return false;
    }
    if n % 8 == 6 {
        let c = cs[1];
        if !(('0' <= c && c <= '9') || ('a' <= c && c <= 'd') || c == 'f' || c == 'g') {
            return false;
        }
    }
    let mut i: usize = 0;
    while i < n
        invariant
            n == cs@.len(),
            cs@ == s@,
            i <= n,
            forall|j: int| 0 <= j < i ==> is_nix_base32_char(#[trigger] s@[j]),
        decreases n - i,
    {
        let c = cs[i];
        if !(('0' <= c && c <= '9') || ('a' <= c && c <= 'z')) || c == 'e' || c == 'o' || c == 'u' || c == 't' {
            return false;
        }
        i = i + 1;
    }
    true
}

/// Length of the nix-base32 text of `n` bytes.
pub open spec fn nix_base32_len(n: nat) -> int {
    (8 * n - 1) / 5 + 1
}

/// Random bytes from `fastrand::fill`; nothing is claimed of them.
#[verifier::external_body]
fn random_bytes() -> (r: [u8; 8]) {
    let mut bytes = [0u8; 8];
    fastrand::fill(&mut bytes);
    bytes
}

/// Text of `bytes` with `nix_base32::to_nix_base32`, which subtracts one
/// from the bit count and so needs at least one byte. Claimed: the text
/// named `nix_base32_text(bytes)`, `(8n - 1) / 5 + 1` characters of the nix
/// alphabet for `n` bytes.
#[verifier::external_body]
fn nix_base32_encode(bytes: &[u8]) -> (r: String)
    requires
        bytes@.len() > 0,
    ensures
        r@ == nix_base32_text(bytes@),
        r@.len() == nix_base32_len(bytes@.len()) && forall|i: int|
            0 <= i < r@.len() ==> is_nix_base32_char(#[trigger] r@[i]),
        r@.len() > 0 && forall|b: Seq<u8>|
            b.len() == bytes@.len() ==> #[trigger] nix_base32_text(b).len() == r@.len()
                && is_nix_base32_char(nix_base32_text(b)[0]) && (nix_base32_text(b) == r@ ==> b
                == bytes@),
{
    nix_base32::to_nix_base32(bytes)
}

/// Bytes of a nix-base32 text with `nix_base32::from_nix_base32`. Claimed:
/// the result named `nix_base32_bytes(s)`, and a text that the encoder made
/// decodes to the bytes it was made from.
#[verifier::external_body]
fn nix_base32_decode(s: &str) -> (r: Option<Vec<u8>>)
    requires
        !nix_base32_decode_panics(s@),
    ensures
        r matches Some(v) ==> nix_base32_bytes(s@) == Some(v@),
        r is None ==> nix_base32_bytes(s@) is None,
        r matches Some(v) ==> forall|b: Seq<u8>|
            b.len() > 0 && #[trigger] nix_base32_text(b) == s@ ==> v@ == b,
        r is None ==> forall|b: Seq<u8>| b.len() > 0 ==> #[trigger] nix_base32_text(b) != s@,
{
    nix_base32::from_nix_base32(s)
}

/// Bitwise exclusive or of two byte sequences of the same length.
pub open spec fn xor_bytes(a: Seq<u8>, b: Seq<u8>) -> Seq<u8> {
    Seq::new(a.len(), |i: int| a[i] ^ b[i])
}

/// Hash of `data`: the first bytes of its BLAKE3 digest.
pub open spec fn digest_hash(data: Seq<u8>) -> Seq<u8> {
    blake3_digest(data).take(HASH_SIZE as int)
}

/// `bytes` cut or padded with zeros to the hash size.
pub open spec fn fit_hash_size(bytes: Seq<u8>) -> Seq<u8> {
    if bytes.len() >= HASH_SIZE {
        bytes.take(HASH_SIZE as int)
    } else {
        bytes + Seq::new((HASH_SIZE - bytes.len()) as nat, |i: int| 0u8)
    }
}

/// Bytes that a hash text decodes to: nix-base32 first, then base32 in the
/// extended hex alphabet.
pub open spec fn hash_text_bytes(s: Seq<char>) -> Option<Seq<u8>> {
    match nix_base32_bytes(s) {
        Some(b) => Some(b),
        None => base32_bytes(true, false, s),
    }
}

/// Standard packages hash.
#[derive(Default, Clone, Copy, PartialEq, Eq, PartialOrd, Ord, Hash, Debug)]
pub struct Hash([u8; HASH_SIZE]);

impl View for Hash {
    type V = Seq<u8>;

    closed spec fn view(&self) -> Seq<u8> {
        self.0@
    }
}

/// Copy of the first `HASH_SIZE` bytes of `src`, zero-padded.
fn fit_bytes(src: &[u8]) -> (r: [u8; HASH_SIZE])
    ensures
        r@ == fit_hash_size(src@),
{
    let mut out = [0u8; HASH_SIZE];
    let n = if src.len() < HASH_SIZE {
        src.len()
    } else {
        HASH_SIZE
    };
    let mut i: usize = 0;
    while i < n
        invariant
            n <= src@.len(),
            n <= HASH_SIZE,
            i <= n,
            out@.len() == HASH_SIZE,
            forall|k: int| 0 <= k < i ==> out@[k] == src@[k],
            forall|k: int| n <= k < HASH_SIZE ==> out@[k] == 0u8,
        decreases n - i,
    {
        out[i] = src[i];
        i = i + 1;
    }
    assert(out@ =~= fit_hash_size(src@));
    out
}

impl Hash {
    /// The hash with all bytes zero.
    pub fn zero() -> (r: Hash)
        ensures
            r@ == zero_bytes(),
    {
        let r = Hash([0u8; HASH_SIZE]);
        assert(r@ =~= zero_bytes());
        r
    }

    /// Hashes with the same bytes are the same hash.
    pub proof fn lemma_view_injective(a: Hash, b: Hash)
        ensures
            a@ == b@ <==> a == b,
    {
        if a@ == b@ {
            assert(a.0 =~= b.0);
        }
    }

    /// Every hash has `HASH_SIZE` bytes.
    pub proof fn lemma_size(&self)
        ensures
            self@.len() == HASH_SIZE,
    {
    }

    /// Hash of the given bytes.
    pub fn from_array(bytes: [u8; HASH_SIZE]) -> (r: Hash)
        ensures
            r@ == bytes@,
    {
        Hash(bytes)
    }

    /// The bytes of the hash.
    pub fn bytes(&self) -> (r: [u8; HASH_SIZE])
        ensures
            r@ == self@,
    {
        self.0
    }

    /// Random hash.
    pub fn rand() -> (r: Hash) {
        Hash(random_bytes())
    }

    /// Hash of the given bytes buffer.
    pub fn digitize(buf: &[u8]) -> (r: Hash)
        ensures
            r@ == digest_hash(buf@),
    {
        let digest = blake3_hash(buf);
        Hash(fit_bytes(&digest))
    }

    /// The hash as a nix-base32 text.
    pub fn to_base32(&self) -> (r: String)
        ensures
            r@ == nix_base32_text(self@),
            r@.len() == nix_base32_len(HASH_SIZE as nat),
            forall|g: Hash|
                #[trigger] nix_base32_text(g@).len() == r@.len() && is_nix_base32_char(
                    nix_base32_text(g@)[0],
                ) && (nix_base32_text(g@) == r@ ==> g == *self),
    {
        let r = nix_base32_encode(&self.0);
        proof {
            self.lemma_size();
            assert forall|g: Hash|
                #[trigger] nix_base32_text(g@).len() == r@.len() && is_nix_base32_char(
                    nix_base32_text(g@)[0],
                ) && (nix_base32_text(g@) == r@ ==> g == *self) by {
                g.lemma_size();
                assert(g@.len() == self.0@.len());
                let u = nix_base32_text(g@);
                assert(u.len() == r@.len());
                if u == r@ {
                    assert(g@ == self.0@);
                }
                Hash::lemma_view_injective(g, *self);
            }
        }
        r
    }

    /// Hash of a nix-base32 text, or of a base32 text in the extended hex
    /// alphabet; the decoded bytes are cut or zero-padded to the hash size.
    pub fn from_base32(s: &str) -> (r: Option<Hash>)
        requires
            !nix_base32_decode_panics(s@),
        ensures
            hash_text_bytes(s@) matches Some(b) ==> (r matches Some(h) && h@ == fit_hash_size(b)),
            hash_text_bytes(s@) is None ==> r is None,
            forall|h: Hash| #[trigger] nix_base32_text(h@) == s@ ==> r == Some(h),
    {
        let decoded = match nix_base32_decode(s) {
            Some(v) => Some(v),
            None => base32_decode(true, false, s),
        };
        let r = match decoded {
            Some(v) => Some(Hash(fit_bytes(v.as_slice()))),
            None => None,
        };
        proof {
            assert forall|h: Hash| #[trigger] nix_base32_text(h@) == s@ implies r == Some(h) by {
                h.lemma_size();
                assert(h@.take(HASH_SIZE as int) =~= h@);
                Hash::lemma_view_injective(r->Some_0, h);
            }
        }
        r
    }

    /// Whether two hashes hold the same bytes.
    pub fn same(&self, other: &Hash) -> (r: bool)
        ensures
            r == (self@ == other@),
    {
        let mut i: usize = 0;
        while i < HASH_SIZE
            invariant
                i <= HASH_SIZE,
                self.0@.len() == HASH_SIZE,
                other.0@.len() == HASH_SIZE,
                forall|k: int| 0 <= k < i ==> self.0@[k] == other.0@[k],
            decreases HASH_SIZE - i,
        {
            if self.0[i] != other.0[i] {
                return false;
            }
            i = i + 1;
        }
        assert(self.0@ =~= other.0@);
        true
    }

    /// Bitwise exclusive or of two hashes.
    pub fn bitxor(self, rhs: Hash) -> (r: Hash)
        ensures
            r@ == xor_bytes(self@, rhs@),
    {
        let mut out = self.0;
        let mut i: usize = 0;
        while i < HASH_SIZE
            invariant
                i <= HASH_SIZE,
                out@.len() == HASH_SIZE,
                forall|k: int| 0 <= k < i ==> out@[k] == self.0@[k] ^ rhs.0@[k],
                forall|k: int| i <= k < HASH_SIZE ==> out@[k] == self.0@[k],
            decreases HASH_SIZE - i,
        {
            out[i] = out[i] ^ rhs.0[i];
            i = i + 1;
        }
        assert(out@ =~= xor_bytes(self@, rhs@));
        Hash(out)
    }

    /// Exclusive or of `rhs` into the hash.
    pub fn bitxor_assign(&mut self, rhs: Hash)
        ensures
            final(self)@ == xor_bytes(old(self)@, rhs@),
    {
        *self = self.bitxor(rhs);
    }
}

/// Hash of a default value: all bytes zero.
pub open spec fn zero_bytes() -> Seq<u8> {
    Seq::new(HASH_SIZE as nat, |i: int| 0u8)
}

/// Exclusive or is its own inverse: applying the same hash twice gives the
/// original back.
pub proof fn lemma_xor_involutive(a: Seq<u8>, b: Seq<u8>)
    requires
        a.len() == b.len(),
    ensures
        xor_bytes(xor_bytes(a, b), b) == a,
{
    assert forall|i: int| 0 <= i < a.len() implies #[trigger] xor_bytes(xor_bytes(a, b), b)[i]
        == a[i] by {
        let x = a[i];
        let y = b[i];
        assert((x ^ y) ^ y == x) by (bit_vector);
    }
    assert(xor_bytes(xor_bytes(a, b), b) =~= a);
}

/// Exclusive or does not depend on the order of its operands.
pub proof fn lemma_xor_commutative(a: Seq<u8>, b: Seq<u8>)
    requires
        a.len() == b.len(),
    ensures
        xor_bytes(a, b) == xor_bytes(b, a),
{
    assert forall|i: int| 0 <= i < a.len() implies #[trigger] xor_bytes(a, b)[i] == xor_bytes(
        b,
        a,
    )[i] by {
        let x = a[i];
        let y = b[i];
        assert(x ^ y == y ^ x) by (bit_vector);
    }
    assert(xor_bytes(a, b) =~= xor_bytes(b, a));
}

/// Exclusive or does not depend on how its operands are grouped.
pub proof fn lemma_xor_associative(a: Seq<u8>, b: Seq<u8>, c: Seq<u8>)
    requires
        a.len() == b.len(),
        b.len() == c.len(),
    ensures
        xor_bytes(xor_bytes(a, b), c) == xor_bytes(a, xor_bytes(b, c)),
{
    assert forall|i: int| 0 <= i < a.len() implies #[trigger] xor_bytes(xor_bytes(a, b), c)[i]
        == xor_bytes(a, xor_bytes(b, c))[i] by {
        let x = a[i];
        let y = b[i];
        let z = c[i];
        assert((x ^ y) ^ z == x ^ (y ^ z)) by (bit_vector);
    }
    assert(xor_bytes(xor_bytes(a, b), c) =~= xor_bytes(a, xor_bytes(b, c)));
}

/// The zero hash is neutral for exclusive or, and a hash xored with itself
/// is zero.
pub proof fn lemma_xor_zero(a: Seq<u8>)
    requires
        a.len() == HASH_SIZE,
    ensures
        xor_bytes(a, zero_bytes()) == a,
        xor_bytes(a, a) == zero_bytes(),
{
    assert forall|i: int| 0 <= i < a.len() implies #[trigger] xor_bytes(a, zero_bytes())[i] == a[i]
        && xor_bytes(a, a)[i] == zero_bytes()[i] by {
        let x = a[i];
        assert(x ^ 0u8 == x) by (bit_vector);
        assert(x ^ x == 0u8) by (bit_vector);
    }
    assert(xor_bytes(a, zero_bytes()) =~= a);
    assert(xor_bytes(a, a) =~= zero_bytes());
}

/// Standard packages hasher: hashes its input incrementally, as
/// `Hash::digitize` does at once.
pub struct PackageHasher {
    inner: blake3::Hasher,
}

impl PackageHasher {
    /// The bytes fed to the hasher so far.
    pub closed spec fn input(&self) -> Seq<u8> {
        blake3_hasher_input(self.inner)
    }

    /// A hasher fed nothing yet.
    pub fn new() -> (r: PackageHasher)
        ensures
            r.input() == Seq::<u8>::empty(),
    {
        PackageHasher { inner: blake3_hasher_new() }
    }

    /// Feed `buf` to the hasher.
    pub fn update(&mut self, buf: &[u8])
        ensures
            final(self).input() == old(self).input() + buf@,
    {
        blake3_hasher_update(&mut self.inner, buf);
    }

    /// Hash of everything fed so far.
    pub fn finish(&self) -> (r: Hash)
        ensures
            r@ == digest_hash(self.input()),
    {
        let digest = blake3_hasher_finalize(&self.inner);
        Hash(fit_bytes(&digest))
    }
}

impl Default for PackageHasher {
    fn default() -> (r: PackageHasher)
        ensures
            r.input() == Seq::<u8>::empty(),
    {
        PackageHasher::new()
    }
}

} // verus!
