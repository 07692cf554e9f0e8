use vstd::prelude::*;
use vstd::slice::{slice_subrange, slice_to_vec};

use crate::error::Error;
use crate::stream::{BinRead, BinSeek, ByteRead, ByteWrite};

verus! {

/// `data` with `bytes` written over it from offset `at`: the sequence grows to hold
/// them, with zeros in any gap between its old end and `at`.
pub open spec fn overwrite(data: Seq<u8>, at: nat, bytes: Seq<u8>) -> Seq<u8> {
    let end = at + bytes.len();
    let new_len = if end > data.len() {
        end
    } else {
        data.len()
    };
    Seq::new(
        new_len,
        |i: int|
            if at <= i < end {
                bytes[i - at]
            } else if i < data.len() {
                data[i]
            } else {
                0u8
            },
    )
}

/// How many bytes lie between `pos` and the end of `data`; none once `pos` is past it.
pub open spec fn remaining(data: Seq<u8>, pos: nat) -> nat {
    if pos <= data.len() {
        (data.len() - pos) as nat
    } else {
        0
    }
}

/// A growable in-memory byte stream with a read/write cursor.
///
/// Its view is the pair of its bytes and its cursor. The cursor may stand past the
/// end after a seek: reads there find nothing, and a write fills the gap with zeros.
#[derive(Debug)]
pub struct BinMemoryBuffer {
    buffer: Vec<u8>,
    position: usize,
}

impl View for BinMemoryBuffer {
    type V = (Seq<u8>, nat);

    closed spec fn view(&self) -> (Seq<u8>, nat) {
        (self.buffer@, self.position as nat)
    }
}

impl BinMemoryBuffer {
    /// An empty buffer with its cursor at 0.
    pub fn new() -> (r: Self)
        ensures
            r@ == (Seq::<u8>::empty(), 0nat),
    {
        BinMemoryBuffer { buffer: Vec::new(), position: 0 }
    }

    /// The bytes from the cursor to the end; empty when the cursor is at or past the end.
    pub fn remaining_slice(&self) -> (r: &[u8])
        ensures
            r@ == self@.0.skip(self@.0.len() - remaining(self@.0, self@.1)),
    {
        let len = self.buffer.len();
        let start = if self.position < len {
            self.position
        } else {
            len
        };
        slice_subrange(self.buffer.as_slice(), start, len)
    }
}

impl Default for BinMemoryBuffer {
    fn default() -> (r: Self)
        ensures
            r@ == (Seq::<u8>::empty(), 0nat),
    {
        BinMemoryBuffer::new()
    }
}

impl From<Vec<u8>> for BinMemoryBuffer {
    /// A buffer holding `buffer`, with its cursor at 0.
    fn from(buffer: Vec<u8>) -> (r: Self)
        ensures
            r@ == (buffer@, 0nat),
    {
        BinMemoryBuffer { buffer, position: 0 }
    }
}

impl vstd::std_specs::convert::FromSpecImpl<Vec<u8>> for BinMemoryBuffer {
    open spec fn obeys_from_spec() -> bool {
        true
    }

    closed spec fn from_spec(v: Vec<u8>) -> Self {
        BinMemoryBuffer { buffer: v, position: 0 }
    }
}

impl<'a> From<&'a [u8]> for BinMemoryBuffer {
    /// A buffer holding a copy of `buffer`, with its cursor at 0.
    fn from(buffer: &'a [u8]) -> (r: Self)
        ensures
            r@ == (buffer@, 0nat),
    {
        BinMemoryBuffer { buffer: slice_to_vec(buffer), position: 0 }
    }
}

impl<'a> vstd::std_specs::convert::FromSpecImpl<&'a [u8]> for BinMemoryBuffer {
    open spec fn obeys_from_spec() -> bool {
        false
    }

    closed spec fn from_spec(v: &'a [u8]) -> Self {
        arbitrary()
    }
}

impl BinSeek for BinMemoryBuffer {
    /// Moves the cursor to `to`, also past the end; always succeeds.
    fn seek(&mut self, to: usize) -> (r: Result<usize, Error>)
        ensures
            r == Ok::<usize, Error>(to),
            final(self)@ == (old(self)@.0, to as nat),
    {
        self.position = to;
        Ok(self.position)
    }

    fn pos(&mut self) -> (r: Result<usize, Error>)
        ensures
            r matches Ok(p) && p as nat == old(self)@.1,
            final(self)@ == old(self)@,
    {
        Ok(self.position)
    }

    fn len(&self) -> (r: Result<usize, Error>)
        ensures
            r matches Ok(n) && n as nat == self@.0.len(),
    {
        Ok(self.buffer.len())
    }

    fn is_empty(&self) -> (r: bool)
        ensures
            r == (self@.0.len() == 0),
    {
        self.buffer.len() == 0
    }

    /// Whether the cursor is at or past the end.
    fn is_eof(&mut self) -> (r: bool)
        ensures
            r == (old(self)@.1 >= old(self)@.0.len()),
            final(self)@ == old(self)@,
    {
        self.position >= self.buffer.len()
    }
}

impl BinMemoryBuffer {
    /// Copies the `k` bytes from the cursor into the front of `buf` and moves the cursor past them.
    fn copy_out(&mut self, buf: &mut [u8], k: usize)
        requires
            k <= old(buf)@.len(),
            k == 0 || old(self)@.1 + k <= old(self)@.0.len(),
        ensures
            final(buf)@.len() == old(buf)@.len(),
            final(buf)@.take(k as int) == Seq::new(k as nat, |j: int| old(self)@.0[old(self)@.1 + j]),
            final(buf)@.skip(k as int) == old(buf)@.skip(k as int),
            final(self)@ == (old(self)@.0, (old(self)@.1 + k) as nat),
    {
        let start = self.position;
        if k == 0 {
            assert(buf@.skip(0) =~= old(buf)@);
            assert(buf@.take(0) =~= Seq::new(0, |j: int| self.buffer@[start + j]));
            return;
        }
        let len = self.buffer.len();
        let mut i: usize = 0;
        while i < k
            invariant
                i <= k,
                k <= buf@.len(),
                buf@.len() == old(buf)@.len(),
                len == self.buffer@.len(),
                start + k <= len,
                self.buffer@ == old(self)@.0,
                self.position == start,
                start == old(self)@.1,
                forall|j: int| 0 <= j < i ==> buf@[j] == self.buffer@[start + j],
                forall|j: int| k <= j < buf@.len() ==> buf@[j] == old(buf)@[j],
            decreases k - i,
        {
            buf[i] = self.buffer[start + i];
            i = i + 1;
        }
        self.position = start + k;
        assert(buf@.take(k as int) =~= Seq::new(k as nat, |j: int| self.buffer@[start + j]));
        assert(buf@.skip(k as int) =~= old(buf)@.skip(k as int));
    }
}

impl ByteRead for BinMemoryBuffer {
    open spec fn can_read(&self, n: nat) -> bool {
        n <= remaining(self@.0, self@.1)
    }

    open spec fn upcoming(&self, n: nat) -> Seq<u8> {
        Seq::new(n, |j: int| self@.0[self@.1 + j])
    }

    open spec fn is_advanced(&self, n: nat, after: Self) -> bool {
        after@ == (self@.0, (self@.1 + n) as nat)
    }

    open spec fn read_error(&self) -> Error {
        Error::EndOfStream
    }

    /// Copies as many bytes as remain, up to `buf.len()`; never fails.
    fn read(&mut self, buf: &mut [u8]) -> (r: Result<usize, Error>)
        ensures
            r matches Ok(k) && k as nat == if old(buf)@.len() <= remaining(
                old(self)@.0,
                old(self)@.1,
            ) {
                old(buf)@.len()
            } else {
                remaining(old(self)@.0, old(self)@.1)
            },
    {
        let len = self.buffer.len();
        let avail = if self.position < len {
            len - self.position
        } else {
            0
        };
        let k = if buf.len() < avail {
            buf.len()
        } else {
            avail
        };
        self.copy_out(buf, k);
        Ok(k)
    }

    /// Fills `buf` when enough bytes remain; otherwise fails with end of stream.
    fn read_exact(&mut self, buf: &mut [u8]) -> (r: Result<(), Error>) {
        let len = self.buffer.len();
        let avail = if self.position < len {
            len - self.position
        } else {
            0
        };
        if buf.len() > avail {
            return Err(Error::EndOfStream);
        }
        let k = buf.len();
        self.copy_out(buf, k);
        assert(buf@ =~= buf@.take(k as int));
        Ok(())
    }
}

impl ByteWrite for BinMemoryBuffer {
    open spec fn can_write(&self, n: nat) -> bool {
        self@.1 + n <= usize::MAX
    }

    open spec fn is_written(&self, bytes: Seq<u8>, after: Self) -> bool {
        after@ == (overwrite(self@.0, self@.1, bytes), (self@.1 + bytes.len()) as nat)
    }

    open spec fn write_error(&self) -> Error {
        Error::NotSupported
    }

    /// Writes all of `buf`, growing the buffer as needed; fails only when the cursor
    /// would pass the largest offset that a `usize` holds.
    fn write(&mut self, buf: &[u8]) -> (r: Result<usize, Error>)
        ensures
            r == if old(self).can_write(buf@.len()) {
                Ok::<usize, Error>(buf@.len() as usize)
            } else {
                Err(Error::NotSupported)
            },
    {
        match self.write_all(buf) {
            Ok(()) => {
                assert(buf@.take(buf@.len() as int) =~= buf@);
                Ok(buf.len())
            },
            Err(e) => Err(e),
        }
    }

    fn write_all(&mut self, buf: &[u8]) -> (r: Result<(), Error>) {
        let start = self.position;
        if start > usize::MAX - buf.len() {
            return Err(Error::NotSupported);
        }
        let end = start + buf.len();
        let ghost old_data = self.buffer@;
        if self.buffer.len() < end {
            self.buffer.resize(end, 0u8);
        }
        let ghost grown = self.buffer@;
        assert forall|j: int| 0 <= j < grown.len() implies grown[j] == (if j < old_data.len() {
            old_data[j]
        } else {
            0u8
        }) by {
            if j < old_data.len() && old_data.len() < end {
                assert(grown.subrange(0, old_data.len() as int)[j] == grown[j]);
            }
        }
        let mut i: usize = 0;
        while i < buf.len()
            invariant
                i <= buf@.len(),
                start + buf@.len() == end,
                self.buffer@.len() == grown.len(),
                grown.len() >= end,
                self.position == start,
                forall|j: int|
                    0 <= j < grown.len() ==> self.buffer@[j] == if start <= j < start + i {
                        buf@[j - start]
                    } else {
                        grown[j]
                    },
            decreases buf@.len() - i,
        {
            self.buffer.set(start + i, buf[i]);
            i = i + 1;
        }
        self.position = end;
        assert(self.buffer@ =~= overwrite(old_data, start as nat, buf@));
        Ok(())
    }

    fn flush(&mut self) -> (r: Result<(), Error>)
        ensures
            r == Ok::<(), Error>(()),
            final(self)@ == old(self)@,
    {
        Ok(())
    }
}

impl BinRead for BinMemoryBuffer {

}

/// A write never shortens a linear buffer and leaves every byte outside the written
/// range as it was; written with the cursor at the end, the bytes are appended and
/// the buffer grows by exactly their number.
pub proof fn lemma_write_grows(b: BinMemoryBuffer, bytes: Seq<u8>, after: BinMemoryBuffer)
    requires
        b.is_written(bytes, after),
    ensures
        after@.0.len() >= b@.0.len(),
        forall|i: int|
            0 <= i < b@.0.len() && !(b@.1 <= i < b@.1 + bytes.len()) ==> after@.0[i] == b@.0[i],
        b@.1 == b@.0.len() ==> after@.0 == b@.0 + bytes,
        b@.1 == b@.0.len() ==> after@.0.len() == b@.0.len() + bytes.len(),
{
    if b@.1 == b@.0.len() {
        assert(after@.0 =~= b@.0 + bytes);
    }
}

/// Reading `k` bytes that lie within a linear buffer succeeds and moves the cursor
/// by exactly `k`; asking for one byte or more beyond the end makes an exact read
/// fail with end of stream, while a plain read delivers fewer than asked for.
pub proof fn lemma_read_within_bounds(b: BinMemoryBuffer, k: nat, after: BinMemoryBuffer)
    ensures
        b@.1 + k <= b@.0.len() ==> b.can_read(k),
        b.is_advanced(k, after) ==> after@ == (b@.0, b@.1 + k),
        k > 0 && b@.1 + k > b@.0.len() ==> {
            &&& !b.can_read(k)
            &&& b.read_error() == Error::EndOfStream
            &&& remaining(b@.0, b@.1) < k
        },
{
}

} // verus!
