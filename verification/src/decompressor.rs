use vstd::prelude::*;

use crate::buffer::{Buffer, read_len};
use crate::compression::{
    CompressionAlgorithm, CompressionError, algorithm_of_name, decode, decoding, encoding,
    level_supported,
};
use crate::compressor::codec_spec_parts;
use crate::text::{chars_of, split_once_chars, string_from_chars};

verus! {

/// What a decompressor holds.
pub struct DecompressorState {
    pub algorithm: CompressionAlgorithm,
    /// Compressed bytes written and not decompressed yet.
    pub input: Seq<u8>,
    /// Decompressed bytes not read yet.
    pub output: Seq<u8>,
}

impl DecompressorState {
    /// The state with other bytes waiting to be decompressed.
    pub open spec fn with_input(self, input: Seq<u8>) -> DecompressorState {
        DecompressorState { input, ..self }
    }

    /// The state once nothing waits to be decompressed and `output` waits to
    /// be read.
    pub open spec fn holding(self, output: Seq<u8>) -> DecompressorState {
        DecompressorState { input: Seq::empty(), output, ..self }
    }

    /// What reading yields: the decompressed bytes not read yet, followed by
    /// the decompression of the bytes written; `None` when these do not
    /// decompress.
    pub open spec fn readable(self) -> Option<Seq<u8>> {
        if self.input.len() == 0 {
            Some(self.output)
        } else {
            match decoding(self.algorithm, self.input) {
                Some(x) => Some(self.output + x),
                None => None,
            }
        }
    }

    /// The bytes written are a stream that compressing `x` at some level
    /// gave.
    pub open spec fn input_compresses(self, x: Seq<u8>) -> bool {
        &&& self.input.len() > 0
        &&& exists|l: crate::compression::CompressionLevel|
            level_supported(self.algorithm, l) && #[trigger] encoding(self.algorithm, l, x)
                == self.input
    }
}

/// A fresh decompressor.
pub open spec fn fresh_decompressor(a: CompressionAlgorithm) -> DecompressorState {
    DecompressorState { algorithm: a, input: Seq::empty(), output: Seq::empty() }
}

/// Streaming decompressor: compressed bytes are written to it, and the
/// bytes they decompress to are read out of it.
pub struct Decompressor {
    algorithm: CompressionAlgorithm,
    input: Vec<u8>,
    output: Buffer,
}

impl View for Decompressor {
    type V = DecompressorState;

    closed spec fn view(&self) -> DecompressorState {
        DecompressorState {
            algorithm: self.algorithm,
            input: self.input@,
            output: self.output@,
        }
    }
}

impl Decompressor {
    /// Create new decompressor for the given algorithm.
    pub fn new(algorithm: CompressionAlgorithm) -> (r: Result<Decompressor, CompressionError>)
        ensures
            (r matches Ok(d) && d@ == fresh_decompressor(algorithm)),
    {
        Ok(Decompressor { algorithm, input: Vec::new(), output: Buffer::new() })
    }

    /// Decompressor described by `"name"` or `"name:level"`; the level is
    /// ignored.
    pub fn from_str(s: &str) -> (r: Result<Decompressor, CompressionError>)
        ensures
            algorithm_of_name(codec_spec_parts(s@).0) is None ==> (r matches Err(
                CompressionError::UnknownAlgorithm(n),
            ) && n@ == codec_spec_parts(s@).0),
            algorithm_of_name(codec_spec_parts(s@).0) matches Some(a) ==> (r matches Ok(d) && d@
                == fresh_decompressor(a)),
    {
        let cs = chars_of(s);
        let name = match split_once_chars(cs.as_slice(), ':') {
            Some((n, _)) => string_from_chars(n),
            None => String::from_str(s),
        };
        match CompressionAlgorithm::from_str(name.as_str()) {
            Ok(a) => Decompressor::new(a),
            Err(e) => Err(e),
        }
    }

    /// Compression algorithm of the decompressor.
    pub fn algorithm(&self) -> (r: CompressionAlgorithm)
        ensures
            r == self@.algorithm,
    {
        self.algorithm
    }

    /// Take compressed bytes.
    pub fn write(&mut self, buf: &[u8]) -> (r: Result<usize, CompressionError>)
        ensures
            (r matches Ok(n) && n == buf@.len()),
            final(self)@ == old(self)@.with_input(old(self)@.input + buf@),
    {
        let mut i: usize = 0;
        while i < buf.len()
            invariant
                i <= buf@.len(),
                self.algorithm == old(self).algorithm,
                self.output@ == old(self).output@,
                self.input@ == old(self).input@ + buf@.take(i as int),
            decreases buf@.len() - i,
        {
            self.input.push(buf[i]);
            assert(buf@.take(i + 1) =~= buf@.take(i as int).push(buf@[i as int]));
            i = i + 1;
        }
        assert(buf@.take(buf@.len() as int) =~= buf@);
        Ok(buf.len())
    }

    /// Take all of `buf`.
    pub fn write_all(&mut self, buf: &[u8]) -> (r: Result<(), CompressionError>)
        ensures
            r is Ok,
            final(self)@ == old(self)@.with_input(old(self)@.input + buf@),
    {
        match self.write(buf) {
            Ok(_) => Ok(()),
            Err(e) => Err(e),
        }
    }

    /// Nothing waits to be flushed.
    pub fn flush(&mut self) -> (r: Result<(), CompressionError>)
        ensures
            r is Ok,
            final(self)@ == old(self)@,
    {
        Ok(())
    }

    /// Decompress the bytes written, if any.
    fn drain_input(&mut self) -> (r: Result<(), CompressionError>)
        ensures
            old(self)@.readable() is None ==> (r matches Err(CompressionError::Io(_)) && final(self)@ == old(self)@),
            old(self)@.readable() matches Some(c) ==> (r is Ok && final(self)@ == old(self)@.holding(c)),
            forall|x: Seq<u8>| #[trigger]
                old(self)@.input_compresses(x) ==> old(self)@.readable() == Some(
                    old(self)@.output + x,
                ),
    {
        if self.input.len() == 0 {
            assert(self.input@ =~= Seq::<u8>::empty());
            return Ok(());
        }
        let res = decode(self.algorithm, self.input.as_slice());
        proof {
            assert forall|x: Seq<u8>| #[trigger]
                old(self)@.input_compresses(x) implies old(self)@.readable() == Some(
                    old(self)@.output + x,
                ) by {
                let l = choose|l: crate::compression::CompressionLevel|
                    level_supported(self.algorithm, l) && #[trigger] encoding(self.algorithm, l, x)
                        == self.input@;
                assert(encoding(self.algorithm, l, x) == self.input@);
            }
        }
        match res {
            Ok(v) => {
                self.output.write(v.as_slice());
                self.input = Vec::new();
                Ok(())
            },
            Err(e) => Err(e),
        }
    }

    /// Move decompressed bytes into `buf`, as many as fit. Whatever stream
    /// a compressor made decompresses to the bytes it was given.
    pub fn read(&mut self, buf: &mut [u8]) -> (r: Result<usize, CompressionError>)
        ensures
            final(buf)@.len() == old(buf)@.len(),
            old(self)@.readable() is None ==> (r matches Err(CompressionError::Io(_)) && final(self)@ == old(self)@ && final(buf)@ == old(buf)@),
            old(self)@.readable() matches Some(c) ==> (r matches Ok(n) && n == read_len(
                c,
                old(buf)@.len(),
            ) && final(buf)@.take(n as int) == c.take(n as int) && final(buf)@.skip(n as int)
                == old(buf)@.skip(n as int) && final(self)@ == old(self)@.holding(
                c.skip(n as int),
            )),
            forall|x: Seq<u8>| #[trigger]
                old(self)@.input_compresses(x) ==> old(self)@.readable() == Some(
                    old(self)@.output + x,
                ),
    {
        match self.drain_input() {
            Ok(()) => {
                let n = self.output.read(buf);
                Ok(n)
            },
            Err(e) => Err(e),
        }
    }

    /// Append everything the decompressor yields to `out`. Whatever stream
    /// a compressor made decompresses to the bytes it was given.
    pub fn read_to_end(&mut self, out: &mut Vec<u8>) -> (r: Result<usize, CompressionError>)
        ensures
            old(self)@.readable() is None ==> (r matches Err(CompressionError::Io(_)) && final(self)@ == old(self)@ && final(out)@ == old(out)@),
            old(self)@.readable() matches Some(c) ==> (r matches Ok(n) && n == c.len() && final(out)@ == old(out)@ + c && final(self)@ == old(self)@.holding(Seq::empty())),
            forall|x: Seq<u8>| #[trigger]
                old(self)@.input_compresses(x) ==> old(self)@.readable() == Some(
                    old(self)@.output + x,
                ),
    {
        match self.drain_input() {
            Ok(()) => {},
            Err(e) => return Err(e),
        }
        let bytes = self.output.take_all();
        let n = bytes.len();
        let mut i: usize = 0;
        while i < n
            invariant
                n == bytes@.len(),
                i <= n,
                out@ == old(out)@ + bytes@.take(i as int),
            decreases n - i,
        {
            out.push(bytes[i]);
            assert(bytes@.take(i + 1) =~= bytes@.take(i as int).push(bytes@[i as int]));
            i = i + 1;
        }
        assert(bytes@.take(n as int) =~= bytes@);
        Ok(n)
    }
}

} // verus!
