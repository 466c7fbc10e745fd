use vstd::prelude::*;

verus! {

/// Simple bytes container which appends bytes when written to, and pops
/// them from its front when read from.
#[derive(Default, Debug, Clone, PartialEq, Eq, Hash)]
pub struct Buffer(Vec<u8>);

impl View for Buffer {
    type V = Seq<u8>;

    closed spec fn view(&self) -> Seq<u8> {
        self.0@
    }
}

/// Bytes that a read into room for `cap` bytes takes from the front of
/// `content`.
pub open spec fn read_len(content: Seq<u8>, cap: nat) -> nat {
    if content.len() < cap {
        content.len()
    } else {
        cap
    }
}

impl Buffer {
    /// An empty buffer.
    pub fn new() -> (r: Buffer)
        ensures
            r@ == Seq::<u8>::empty(),
    {
        Buffer(Vec::new())
    }

    /// Whether the buffer holds no bytes.
    pub fn is_empty(&self) -> (r: bool)
        ensures
            r == (self@.len() == 0),
    {
        self.0.len() == 0
    }

    /// Number of bytes held.
    pub fn len(&self) -> (r: usize)
        ensures
            r == self@.len(),
    {
        self.0.len()
    }

    /// Move as many bytes as fit into `buf` from the front of the buffer,
    /// returning their number.
    pub fn read(&mut self, buf: &mut [u8]) -> (n: usize)
        ensures
            n == read_len(old(self)@, old(buf)@.len()),
            final(buf)@.len() == old(buf)@.len(),
            final(buf)@.take(n as int) == old(self)@.take(n as int),
            final(buf)@.skip(n as int) == old(buf)@.skip(n as int),
            final(self)@ == old(self)@.skip(n as int),
    {
        let len = if self.0.len() < buf.len() {
            self.0.len()
        } else {
            buf.len()
        };
        let mut i: usize = 0;
        while i < len
            invariant
                len <= self.0@.len(),
                len <= buf@.len(),
                self.0@ == old(self)@,
                buf@.len() == old(buf)@.len(),
                i <= len,
                forall|k: int| 0 <= k < i ==> buf@[k] == self.0@[k],
                forall|k: int| len <= k < buf@.len() ==> buf@[k] == old(buf)@[k],
            decreases len - i,
        {
            buf[i] = self.0[i];
            i = i + 1;
        }
        let mut rest: Vec<u8> = Vec::new();
        let mut j: usize = len;
        while j < self.0.len()
            invariant
                len <= j <= self.0@.len(),
                self.0@ == old(self)@,
                rest@ == old(self)@.subrange(len as int, j as int),
            decreases self.0@.len() - j,
        {
            rest.push(self.0[j]);
            assert(old(self)@.subrange(len as int, j + 1) =~= old(self)@.subrange(len as int, j as int).push(
                old(self)@[j as int],
            ));
            j = j + 1;
        }
        self.0 = rest;
        assert(buf@.take(len as int) =~= old(self)@.take(len as int));
        assert(buf@.skip(len as int) =~= old(buf)@.skip(len as int));
        assert(self.0@ =~= old(self)@.skip(len as int));
        len
    }

    /// Append all of `buf` to the buffer, returning its length.
    pub fn write(&mut self, buf: &[u8]) -> (n: usize)
        ensures
            n == buf@.len(),
            final(self)@ == old(self)@ + buf@,
    {
        let mut i: usize = 0;
        while i < buf.len()
            invariant
                i <= buf@.len(),
                self@ == old(self)@ + buf@.take(i as int),
            decreases buf@.len() - i,
        {
            self.0.push(buf[i]);
            assert(buf@.take(i + 1) =~= buf@.take(i as int).push(buf@[i as int]));
            i = i + 1;
        }
        assert(buf@.take(buf@.len() as int) =~= buf@);
        buf.len()
    }

    /// Nothing to flush: the buffer holds all bytes written.
    pub fn flush(&mut self)
        ensures
            final(self)@ == old(self)@,
    {
    }

    /// Move all bytes out of the buffer.
    pub fn take_all(&mut self) -> (r: Vec<u8>)
        ensures
            r@ == old(self)@,
            final(self)@ == Seq::<u8>::empty(),
    {
        let mut v: Vec<u8> = Vec::new();
        std::mem::swap(&mut v, &mut self.0);
        v
    }

    /// The bytes held.
    pub fn as_slice(&self) -> (r: &[u8])
        ensures
            r@ == self@,
    {
        self.0.as_slice()
    }

    /// Mutable access to the bytes held.
    pub fn as_mut(&mut self) -> (r: &mut Vec<u8>)
        ensures
            r@ == old(self)@,
            final(self)@ == final(r)@,
    {
        &mut self.0
    }
}

/// Whatever was in the buffer, the bytes written to it are read back after
/// it, in order: reading everything after a write gives the old content
/// followed by the written bytes, and leaves the buffer empty.
pub proof fn lemma_buffer_fifo(content: Seq<u8>, written: Seq<u8>, cap: nat)
    requires
        cap >= content.len() + written.len(),
    ensures
        read_len(content + written, cap) == content.len() + written.len(),
        (content + written).take(read_len(content + written, cap) as int) == content + written,
        (content + written).skip(read_len(content + written, cap) as int) == Seq::<u8>::empty(),
{
    assert((content + written).take((content + written).len() as int) =~= content + written);
    assert((content + written).skip((content + written).len() as int) =~= Seq::<u8>::empty());
}

} // verus!
