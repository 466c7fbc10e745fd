use vstd::prelude::*;

use crate::buffer::{Buffer, read_len};
use crate::codecs::io_error_other;
use crate::compression::{
    CompressionAlgorithm, CompressionError, CompressionLevel, algorithm_of_name, encode,
    encoding, level_of_name, level_supported,
};
use crate::text::{chars_of, split_once, split_once_chars, string_from_chars};

verus! {

/// What a compressor holds.
pub struct CompressorState {
    pub algorithm: CompressionAlgorithm,
    pub level: CompressionLevel,
    /// Bytes written and not compressed yet.
    pub input: Seq<u8>,
    /// Compressed bytes not read yet.
    pub output: Seq<u8>,
    /// Whether the stream was terminated.
    pub finished: bool,
}

/// A compressor's state is consistent: its codec takes its level, and once
/// the stream is terminated nothing waits to be compressed.
pub open spec fn compressor_wf(s: CompressorState) -> bool {
    &&& level_supported(s.algorithm, s.level)
    &&& s.finished ==> s.input.len() == 0
}

/// A fresh compressor.
pub open spec fn fresh_compressor(a: CompressionAlgorithm, l: CompressionLevel) -> CompressorState {
    CompressorState {
        algorithm: a,
        level: l,
        input: Seq::empty(),
        output: Seq::empty(),
        finished: false,
    }
}

impl CompressorState {
    /// The state with other bytes waiting to be compressed.
    pub open spec fn with_input(self, input: Seq<u8>) -> CompressorState {
        CompressorState { input, ..self }
    }

    /// The state with other compressed bytes waiting to be read.
    pub open spec fn with_output(self, output: Seq<u8>) -> CompressorState {
        CompressorState { output, ..self }
    }

    /// The state after the waiting bytes were compressed into one stream and
    /// the stream was terminated.
    pub open spec fn terminated(self) -> CompressorState {
        CompressorState {
            input: Seq::empty(),
            output: self.output + encoding(self.algorithm, self.level, self.input),
            finished: true,
            ..self
        }
    }
}

/// Algorithm and level texts of `"name:level"`; the level is `default` when
/// no colon is given.
pub open spec fn codec_spec_parts(s: Seq<char>) -> (Seq<char>, Seq<char>) {
    match split_once(s, ':') {
        Some((name, level)) => (name, level),
        None => (s, "default"@),
    }
}

/// Streaming compressor: the bytes written to it are compressed into one
/// stream when it is finished, and the compressed bytes are then read out of
/// it.
pub struct Compressor {
    algorithm: CompressionAlgorithm,
    level: CompressionLevel,
    input: Vec<u8>,
    output: Buffer,
    finished: bool,
}

impl View for Compressor {
    type V = CompressorState;

    closed spec fn view(&self) -> CompressorState {
        CompressorState {
            algorithm: self.algorithm,
            level: self.level,
            input: self.input@,
            output: self.output@,
            finished: self.finished,
        }
    }
}

impl Compressor {
    /// Create new compressor from the given algorithm and compression level.
    pub fn new(algorithm: CompressionAlgorithm, level: CompressionLevel) -> (r: Result<
        Compressor,
        CompressionError,
    >)
        requires
            level_supported(algorithm, level),
        ensures
            (r matches Ok(c) && c@ == fresh_compressor(algorithm, level)),
    {
        Ok(Compressor {
            algorithm,
            level,
            input: Vec::new(),
            output: Buffer::new(),
            finished: false,
        })
    }

    /// Compressor described by `"name:level"` or `"name"` (default level).
    pub fn from_str(s: &str) -> (r: Result<Compressor, CompressionError>)
        requires
            algorithm_of_name(codec_spec_parts(s@).0) matches Some(a) ==> (level_of_name(
                codec_spec_parts(s@).1,
            ) matches Some(l) ==> level_supported(a, l)),
        ensures
            algorithm_of_name(codec_spec_parts(s@).0) is None ==> (r matches Err(
                CompressionError::UnknownAlgorithm(n),
            ) && n@ == codec_spec_parts(s@).0),
            algorithm_of_name(codec_spec_parts(s@).0) is Some && level_of_name(
                codec_spec_parts(s@).1,
            ) is None ==> (r matches Err(CompressionError::InvalidLevel(n)) && n@ == codec_spec_parts(
                s@,
            ).1),
            algorithm_of_name(codec_spec_parts(s@).0) matches Some(a) ==> (level_of_name(
                codec_spec_parts(s@).1,
            ) matches Some(l) ==> (r matches Ok(c) && c@ == fresh_compressor(a, l))),
    {
        let cs = chars_of(s);
        let (name, level) = match split_once_chars(cs.as_slice(), ':') {
            Some((n, l)) => (string_from_chars(n), string_from_chars(l)),
            None => (String::from_str(s), String::from_str("default")),
        };
        let algorithm = match CompressionAlgorithm::from_str(name.as_str()) {
            Ok(a) => a,
            Err(e) => return Err(e),
        };
        let level = match CompressionLevel::from_str(level.as_str()) {
            Ok(l) => l,
            Err(e) => return Err(e),
        };
        Compressor::new(algorithm, level)
    }

    /// Compression algorithm of the compressor.
    pub fn algorithm(&self) -> (r: CompressionAlgorithm)
        ensures
            r == self@.algorithm,
    {
        self.algorithm
    }

    /// Take `buf` for compression. Once the stream is terminated no more
    /// bytes are taken.
    pub fn write(&mut self, buf: &[u8]) -> (r: Result<usize, CompressionError>)
        requires
            compressor_wf(old(self)@),
        ensures
            compressor_wf(final(self)@),
            old(self)@.finished ==> (r matches Err(CompressionError::Io(_)) && final(self)@ == old(
                self,
            )@),
            !old(self)@.finished ==> (r matches Ok(n) && n == buf@.len() && final(self)@
                == old(self)@.with_input(old(self)@.input + buf@)),
    {
        if self.finished {
            return Err(CompressionError::Io(io_error_other("compression stream is finished")));
        }
        let mut i: usize = 0;
        while i < buf.len()
            invariant
                i <= buf@.len(),
                self.algorithm == old(self).algorithm,
                self.level == old(self).level,
                self.output@ == old(self).output@,
                self.finished == old(self).finished,
                self.input@ == old(self).input@ + buf@.take(i as int),
            decreases buf@.len() - i,
        {
            self.input.push(buf[i]);
            assert(buf@.take(i + 1) =~= buf@.take(i as int).push(buf@[i as int]));
            i = i + 1;
        }
        assert(buf@.take(buf@.len() as int) =~= buf@);
        Ok(buf.len())
    }

    /// Take all of `buf` for compression.
    pub fn write_all(&mut self, buf: &[u8]) -> (r: Result<(), CompressionError>)
        requires
            compressor_wf(old(self)@),
        ensures
            compressor_wf(final(self)@),
            old(self)@.finished ==> (r matches Err(CompressionError::Io(_)) && final(self)@ == old(
                self,
            )@),
            !old(self)@.finished ==> (r is Ok && final(self)@ == old(self)@.with_input(
                old(self)@.input + buf@,
            )),
    {
        match self.write(buf) {
            Ok(_) => Ok(()),
            Err(e) => Err(e),
        }
    }

    /// Nothing waits to be flushed: the bytes are compressed when the
    /// stream is finished.
    pub fn flush(&mut self) -> (r: Result<(), CompressionError>)
        ensures
            r is Ok,
            final(self)@ == old(self)@,
    {
        Ok(())
    }

    /// Compress the bytes written and terminate the stream; the compressed
    /// stream is then ready to be read. Finishing twice does nothing more.
    pub fn try_finish(&mut self) -> (r: Result<(), CompressionError>)
        requires
            compressor_wf(old(self)@),
        ensures
            compressor_wf(final(self)@),
            r is Ok,
            old(self)@.finished ==> final(self)@ == old(self)@,
            !old(self)@.finished ==> final(self)@ == old(self)@.terminated(),
            !old(self)@.finished ==> encoding(
                old(self)@.algorithm,
                old(self)@.level,
                old(self)@.input,
            ).len() > 0,
    {
        if self.finished {
            return Ok(());
        }
        match encode(self.algorithm, self.level, self.input.as_slice()) {
            Ok(v) => {
                self.output.write(v.as_slice());
                self.input = Vec::new();
                self.finished = true;
                Ok(())
            },
            Err(e) => Err(e),
        }
    }

    /// Move compressed bytes into `buf`, as many as fit.
    pub fn read(&mut self, buf: &mut [u8]) -> (r: Result<usize, CompressionError>)
        ensures
            (r matches Ok(n) && n == read_len(old(self)@.output, old(buf)@.len())),
            (r matches Ok(n) ==> final(buf)@.take(n as int) == old(self)@.output.take(n as int)),
            (r matches Ok(n) ==> final(buf)@.skip(n as int) == old(buf)@.skip(n as int)),
            final(buf)@.len() == old(buf)@.len(),
            (r matches Ok(n) ==> final(self)@ == old(self)@.with_output(
                old(self)@.output.skip(n as int),
            )),
    {
        let n = self.output.read(buf);
        Ok(n)
    }

    /// Append all compressed bytes to `out`.
    pub fn read_to_end(&mut self, out: &mut Vec<u8>) -> (r: Result<usize, CompressionError>)
        ensures
            (r matches Ok(n) && n == old(self)@.output.len()),
            final(out)@ == old(out)@ + old(self)@.output,
            final(self)@ == old(self)@.with_output(Seq::empty()),
    {
        let bytes = self.output.take_all();
        let n = bytes.len();
        let mut i: usize = 0;
        while i < n
            invariant
                n == bytes@.len(),
                i <= n,
                out@ == old(out)@ + bytes@.take(i as int),
            decreases n - i,
        {
            out.push(bytes[i]);
            assert(bytes@.take(i + 1) =~= bytes@.take(i as int).push(bytes@[i as int]));
            i = i + 1;
        }
        assert(bytes@.take(n as int) =~= bytes@);
        Ok(n)
    }
}

} // verus!
