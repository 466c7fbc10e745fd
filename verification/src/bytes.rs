use vstd::prelude::*;

verus! {

/// Most bytes that one `read` gives.
pub const BYTES_READ_CHUNK_SIZE: usize = 8192;

/// Where a seek goes.
#[derive(Debug, Clone, Copy, PartialEq, Eq, Structural)]
pub enum SeekPosition {
    /// This many bytes from the start.
    Start(u64),
    /// The length plus this many bytes.
    End(i64),
    /// This many bytes from the current position.
    Current(i64),
}

/// Errors of reading and seeking.
#[derive(Debug, Clone, Copy, PartialEq, Eq, Structural)]
pub enum BytesError {
    /// The position would leave the data.
    UnexpectedEof,
}

/// Immutable binary data with a read position.
#[derive(Debug, Clone, PartialEq, Eq, Hash)]
pub struct Bytes {
    buf: Vec<u8>,
    pos: usize,
}

/// What a seek from `pos` in data of length `len` moves to, or `None` when
/// it would leave the data.
pub open spec fn seek_target(len: nat, pos: nat, to: SeekPosition) -> Option<nat> {
    let target: int = match to {
        SeekPosition::Start(p) => p as int,
        SeekPosition::End(p) => len + p,
        SeekPosition::Current(p) => pos + p,
    };
    if 0 <= target <= len {
        Some(target as nat)
    } else {
        None
    }
}

/// How many bytes a `read` into room for `room` bytes gives at `pos` in
/// data of length `len`: as many as fit and remain, at most
/// `BYTES_READ_CHUNK_SIZE`.
pub open spec fn read_count(len: nat, pos: nat, room: nat) -> nat {
    if pos >= len {
        0
    } else {
        let remaining = (len - pos) as nat;
        let n = if remaining < room { remaining } else { room };
        if BYTES_READ_CHUNK_SIZE < n { BYTES_READ_CHUNK_SIZE as nat } else { n }
    }
}

/// What `out` holds after a `read` at `pos` in `data`: the bytes read at
/// its start, the rest as it was.
pub open spec fn read_into(data: Seq<u8>, pos: nat, out: Seq<u8>) -> Seq<u8> {
    let n = read_count(data.len(), pos, out.len());
    if pos >= data.len() {
        out
    } else {
        data.subrange(pos as int, (pos + n) as int) + out.skip(n as int)
    }
}

impl Bytes {
    /// The data.
    pub closed spec fn data(&self) -> Seq<u8> {
        self.buf@
    }

    /// The read position.
    pub closed spec fn position(&self) -> nat {
        self.pos as nat
    }

    /// Data `buf` with the read position at its start.
    pub fn new(buf: Vec<u8>) -> (r: Bytes)
        ensures
            r.data() == buf@,
            r.position() == 0,
    {
        Bytes { buf, pos: 0 }
    }

    /// Length of the data.
    pub fn len(&self) -> (r: usize)
        ensures
            r == self.data().len(),
    {
        self.buf.len()
    }

    /// Whether the data is empty.
    pub fn is_empty(&self) -> (r: bool)
        ensures
            r == (self.data().len() == 0),
    {
        self.buf.len() == 0
    }

    /// The data.
    pub fn as_slice(&self) -> (r: &[u8])
        ensures
            r@ == self.data(),
    {
        self.buf.as_slice()
    }

    /// The read position.
    pub fn pos(&self) -> (r: usize)
        ensures
            r == self.position(),
    {
        self.pos
    }

    /// Copy `self.buf[from..from + out.len()]` into `out`.
    fn copy_out(&self, from: usize, out: &mut [u8])
        requires
            from + old(out)@.len() <= self.buf@.len(),
        ensures
            final(out)@ == self.buf@.subrange(from as int, from + old(out)@.len()),
    {
        let n = out.len();
        let mut i: usize = 0;
        while i < n
            invariant
                n == out@.len(),
                from + n <= self.buf.len(),
                i <= n,
                forall|k: int| 0 <= k < i ==> out@[k] == self.buf@[from + k],
            decreases n - i,
        {
            out[i] = self.buf[from + i];
            i = i + 1;
        }
        assert(out@ =~= self.buf@.subrange(from as int, from + n));
    }

    /// Copy `self.buf[from..from + n]` into the start of `out`, leaving the
    /// rest of `out` as it was.
    fn copy_prefix(&self, from: usize, n: usize, out: &mut [u8])
        requires
            n <= old(out)@.len(),
            from + n <= self.buf@.len(),
        ensures
            final(out)@ == self.buf@.subrange(from as int, from + n) + old(out)@.skip(n as int),
    {
        let ghost start = out@;
        let mut i: usize = 0;
        while i < n
            invariant
                n <= out@.len(),
                out@.len() == start.len(),
                from + n <= self.buf.len(),
                i <= n,
                forall|k: int| 0 <= k < i ==> out@[k] == self.buf@[from + k],
                forall|k: int| i <= k < out@.len() ==> out@[k] == start[k],
            decreases n - i,
        {
            out[i] = self.buf[from + i];
            i = i + 1;
        }
        assert(out@ =~= self.buf@.subrange(from as int, from + n) + start.skip(n as int));
    }

    /// Read the next bytes into the start of `buf`: as many as fit in `buf`
    /// and remain, but at most `BYTES_READ_CHUNK_SIZE`. Nothing is read once
    /// the position is at the end.
    pub fn read(&mut self, buf: &mut [u8]) -> (r: Result<usize, BytesError>)
        ensures
            final(self).data() == old(self).data(),
            r == Ok::<usize, BytesError>(
                read_count(old(self).data().len(), old(self).position(), old(buf)@.len()) as usize,
            ),
            final(buf)@ == read_into(old(self).data(), old(self).position(), old(buf)@),
            final(self).position() == old(self).position() + read_count(
                old(self).data().len(),
                old(self).position(),
                old(buf)@.len(),
            ),
    {
        if self.pos < self.buf.len() {
            let mut n = buf.len();
            let remaining = self.buf.len() - self.pos;
            if remaining < n {
                n = remaining;
            }
            if BYTES_READ_CHUNK_SIZE < n {
                n = BYTES_READ_CHUNK_SIZE;
            }
            self.copy_prefix(self.pos, n, buf);
            self.pos = self.pos + n;
            Ok(n)
        } else {
            Ok(0)
        }
    }

    /// Read everything from the position on into `buf`, which must have
    /// exactly that room.
    pub fn read_to_end(&mut self, buf: &mut [u8]) -> (r: Result<usize, BytesError>)
        requires
            old(self).position() <= old(self).data().len() ==> old(buf)@.len() == old(self).data().len() - old(self).position(),
        ensures
            final(self).data() == old(self).data(),
            old(self).position() > old(self).data().len() ==> (r == Ok::<usize, BytesError>(0)
                && final(self).position() == old(self).position() && final(buf)@ == old(buf)@),
            old(self).position() <= old(self).data().len() ==> (r == Ok::<usize, BytesError>(
                old(buf)@.len() as usize,
            ) && final(buf)@ == old(self).data().skip(old(self).position() as int) && final(self).position() == old(self).data().len()),
    {
        if self.pos > self.buf.len() {
            return Ok(0);
        }
        let n = self.buf.len() - self.pos;
        self.copy_out(self.pos, buf);
        assert(buf@ =~= self.buf@.skip(self.pos as int));
        self.pos = self.buf.len();
        Ok(n)
    }

    /// Read exactly `buf.len()` bytes, or fail without moving when fewer
    /// remain.
    pub fn read_exact(&mut self, buf: &mut [u8]) -> (r: Result<(), BytesError>)
        requires
            old(self).position() + old(buf)@.len() <= usize::MAX,
        ensures
            final(self).data() == old(self).data(),
            old(self).position() + old(buf)@.len() > old(self).data().len() ==> (r == Err::<
                (),
                BytesError,
            >(BytesError::UnexpectedEof) && final(self).position() == old(self).position() && final(buf)@ == old(buf)@),
            old(self).position() + old(buf)@.len() <= old(self).data().len() ==> (r is Ok
                && final(buf)@ == old(self).data().subrange(
                old(self).position() as int,
                (old(self).position() + old(buf)@.len()) as int,
            ) && final(self).position() == old(self).position() + old(buf)@.len()),
    {
        let n = buf.len();
        let new_pos = self.pos + n;
        if new_pos > self.buf.len() {
            return Err(BytesError::UnexpectedEof);
        }
        self.copy_out(self.pos, buf);
        self.pos = new_pos;
        Ok(())
    }

    /// Move the position; a target outside the data is refused and leaves
    /// the position as it was.
    pub fn seek(&mut self, to: SeekPosition) -> (r: Result<u64, BytesError>)
        requires
            to matches SeekPosition::Current(p) ==> (old(self).position() <= i64::MAX && i64::MIN
                <= old(self).position() + p <= i64::MAX),
            old(self).data().len() <= i64::MAX,
        ensures
            final(self).data() == old(self).data(),
            seek_target(old(self).data().len(), old(self).position(), to) matches Some(t) ==> (r
                == Ok::<u64, BytesError>(t as u64) && final(self).position() == t),
            seek_target(old(self).data().len(), old(self).position(), to) is None ==> (r == Err::<
                u64,
                BytesError,
            >(BytesError::UnexpectedEof) && final(self).position() == old(self).position()),
    {
        let len = self.buf.len();
        let target: u64 = match to {
            SeekPosition::Start(p) => p,
            SeekPosition::End(p) => {
                let l = len as i64;
                match l.checked_add(p) {
                    None => {
                        return Err(BytesError::UnexpectedEof);
                    },
                    Some(t) => {
                        if t < 0 {
                            return Err(BytesError::UnexpectedEof);
                        }
                        t as u64
                    },
                }
            },
            SeekPosition::Current(p) => {
                let t = p + self.pos as i64;
                if t < 0 {
                    return Err(BytesError::UnexpectedEof);
                }
                t as u64
            },
        };
        if target > len as u64 {
            return Err(BytesError::UnexpectedEof);
        }
        self.pos = target as usize;
        Ok(target)
    }

    /// Move the position to the start.
    pub fn rewind(&mut self) -> (r: Result<(), BytesError>)
        ensures
            r is Ok,
            final(self).data() == old(self).data(),
            final(self).position() == 0,
    {
        self.pos = 0;
        Ok(())
    }

    /// The read position.
    pub fn stream_position(&self) -> (r: Result<u64, BytesError>)
        ensures
            r == Ok::<u64, BytesError>(self.position() as u64),
    {
        Ok(self.pos as u64)
    }
}

/// Seeking to a position within the data and asking for the position gives
/// that position back; a seek outside leaves the position where it was, so
/// the position never leaves the data.
pub proof fn lemma_seek_stays_in_data(len: nat, pos: nat, to: SeekPosition)
    requires
        pos <= len,
    ensures
        seek_target(len, pos, to) matches Some(t) ==> t <= len,
        to matches SeekPosition::Start(p) ==> (p <= len ==> seek_target(len, pos, to) == Some(
            p as nat,
        )),
        to matches SeekPosition::Current(p) ==> (p == 0 ==> seek_target(len, pos, to) == Some(pos)),
{
}

} // verus!
