use vstd::prelude::*;
use vstd::slice::slice_to_vec;
use vstd::arithmetic::div_mod::{
    lemma_add_mod_noop_right, lemma_mod_add_multiples_vanish, lemma_mod_self_0, lemma_small_mod,
};

use crate::error::Error;
use crate::stream::{BinRead, BinSeek, ByteRead, ByteWrite};

verus! {

/// The `n` bytes that a circular buffer holding `data` delivers from offset `pos`,
/// going back to the start after the last byte.
pub open spec fn ring_read(data: Seq<u8>, pos: nat, n: nat) -> Seq<u8> {
    Seq::new(n, |i: int| data[(pos + i) % (data.len() as int)])
}

/// `data` after `bytes` were written one by one from offset `pos`, going back to the
/// start after the last slot; later bytes replace earlier ones in the same slot.
pub open spec fn ring_write(data: Seq<u8>, pos: nat, bytes: Seq<u8>) -> Seq<u8>
    decreases bytes.len(),
{
    if bytes.len() == 0 {
        data
    } else {
        ring_write(data, pos, bytes.drop_last()).update(
            (pos + bytes.len() - 1) % (data.len() as int),
            bytes.last(),
        )
    }
}

/// Writing into a circular buffer never changes its capacity.
pub proof fn lemma_ring_write_len(data: Seq<u8>, pos: nat, bytes: Seq<u8>)
    requires
        data.len() > 0,
    ensures
        ring_write(data, pos, bytes).len() == data.len(),
    decreases bytes.len(),
{
    if bytes.len() > 0 {
        lemma_ring_write_len(data, pos, bytes.drop_last());
    }
}

/// One step forward from slot `a` on a ring of `c` slots.
proof fn lemma_mod_step(a: nat, c: nat)
    requires
        a < c,
    ensures
        (a + 1) % c == if a + 1 == c {
            0
        } else {
            a + 1
        },
{
    if a + 1 < c {
        lemma_small_mod(a + 1, c);
    } else {
        lemma_mod_self_0(c as int);
    }
}

/// A fixed-capacity in-memory byte stream whose cursor goes back to the start after
/// the last byte, so that it never runs out while it holds any byte.
///
/// Its view is the pair of its bytes and its cursor. A buffer of capacity 0 delivers
/// and takes nothing, for good.
#[derive(Debug)]
pub struct BinRingMemoryBuffer {
    buffer: Vec<u8>,
    position: usize,
}

impl View for BinRingMemoryBuffer {
    type V = (Seq<u8>, nat);

    closed spec fn view(&self) -> (Seq<u8>, nat) {
        (self.buffer@, self.position as nat)
    }
}

impl BinRingMemoryBuffer {
    #[verifier::type_invariant]
    spec fn cursor_in_range(&self) -> bool {
        self.buffer@.len() == 0 || self.position < self.buffer@.len()
    }

    /// A buffer holding `buffer`, with its cursor at `offset`.
    pub fn new_with_offset(buffer: Vec<u8>, offset: usize) -> (r: Self)
        requires
            buffer@.len() == 0 || offset < buffer@.len(),
        ensures
            r@ == (buffer@, offset as nat),
    {
        BinRingMemoryBuffer { buffer, position: offset }
    }

    /// Moves the cursor one slot forward, back to the start after the last.
    pub fn next(&mut self)
        requires
            old(self)@.0.len() > 0,
        ensures
            final(self)@ == (old(self)@.0, (old(self)@.1 + 1) % old(self)@.0.len()),
    {
        proof {
            use_type_invariant(&*self);
            lemma_mod_step(self.position as nat, self.buffer@.len());
        }
        let c = self.buffer.len();
        let mut new_pos: usize = self.position + 1;
        if new_pos == c {
            new_pos = 0;
        }
        self.position = new_pos;
    }

    /// The byte under the cursor; the cursor then moves one slot forward.
    pub fn read_byte(&mut self) -> (r: u8)
        requires
            old(self)@.0.len() > 0,
        ensures
            r == old(self)@.0[old(self)@.1 as int],
            final(self)@ == (old(self)@.0, (old(self)@.1 + 1) % old(self)@.0.len()),
    {
        proof {
            use_type_invariant(&*self);
        }
        let result = self.buffer[self.position];
        self.next();
        result
    }

    /// Fills `buf` from the cursor on, going round as often as needed, and returns its
    /// length; a buffer of capacity 0 fills nothing and returns 0.
    pub fn read_bytes(&mut self, buf: &mut [u8]) -> (r: usize)
        ensures
            final(buf)@.len() == old(buf)@.len(),
            old(self)@.0.len() == 0 ==> r == 0 && final(buf)@ == old(buf)@ && final(self)@ == old(self)@,
            old(self)@.0.len() > 0 ==> {
                &&& r == old(buf)@.len()
                &&& final(buf)@ == ring_read(old(self)@.0, old(self)@.1, old(buf)@.len())
                &&& final(self)@ == (
                    old(self)@.0,
                    (old(self)@.1 + old(buf)@.len()) % old(self)@.0.len(),
                )
            },
    {
        if self.buffer.len() == 0 {
            return 0;
        }
        proof {
            use_type_invariant(&*self);
            lemma_small_mod(self.position as nat, self.buffer@.len());
        }
        let ghost data = self.buffer@;
        let ghost start = self.position as nat;
        let c = self.buffer.len();
        let mut i: usize = 0;
        while i < buf.len()
            invariant
                i <= buf@.len(),
                buf@.len() == old(buf)@.len(),
                c == data.len(),
                c > 0,
                self@.0 == data,
                self@.1 == (start + i as nat) % (c as nat),
                forall|j: int| 0 <= j < i ==> buf@[j] == data[(start + j) % (c as int)],
            decreases buf@.len() - i,
        {
            proof {
                lemma_add_mod_noop_right(1, start + i, c as int);
            }
            buf[i] = self.read_byte();
            i = i + 1;
        }
        assert(buf@ =~= ring_read(data, start, buf@.len()));
        buf.len()
    }

    /// Writes all of `buf` from the cursor on, going round as often as needed.
    fn write_bytes(&mut self, buf: &[u8])
        requires
            old(self)@.0.len() > 0,
        ensures
            final(self)@ == (
                ring_write(old(self)@.0, old(self)@.1, buf@),
                (old(self)@.1 + buf@.len()) % old(self)@.0.len(),
            ),
    {
        proof {
            use_type_invariant(&*self);
            lemma_small_mod(self.position as nat, self.buffer@.len());
        }
        let ghost start = self.position as nat;
        let mut data: Vec<u8> = Vec::new();
        std::mem::swap(&mut data, &mut self.buffer);
        let ghost initial = data@;
        let c = data.len();
        let mut pos = self.position;
        let mut i: usize = 0;
        while i < buf.len()
            invariant
                i <= buf@.len(),
                c == initial.len(),
                c > 0,
                pos < c,
                data@ == ring_write(initial, start, buf@.take(i as int)),
                data@.len() == c,
                pos == (start + i as nat) % (c as nat),
            decreases buf@.len() - i,
        {
            proof {
                lemma_add_mod_noop_right(1, start + i, c as int);
                lemma_mod_step(pos as nat, c as nat);
                assert(buf@.take(i + 1).drop_last() =~= buf@.take(i as int));
                lemma_ring_write_len(initial, start, buf@.take(i + 1));
            }
            data.set(pos, buf[i]);
            pos = if pos + 1 == c {
                0
            } else {
                pos + 1
            };
            i = i + 1;
        }
        assert(buf@.take(buf@.len() as int) =~= buf@);
        *self = BinRingMemoryBuffer { buffer: data, position: pos };
    }
}

impl Default for BinRingMemoryBuffer {
    /// A buffer of capacity 0.
    fn default() -> (r: Self)
        ensures
            r@ == (Seq::<u8>::empty(), 0nat),
    {
        BinRingMemoryBuffer { buffer: Vec::new(), position: 0 }
    }
}

impl From<Vec<u8>> for BinRingMemoryBuffer {
    /// A buffer holding `buffer`, with its cursor at 0.
    fn from(buffer: Vec<u8>) -> (r: Self)
        ensures
            r@ == (buffer@, 0nat),
    {
        BinRingMemoryBuffer { buffer, position: 0 }
    }
}

impl vstd::std_specs::convert::FromSpecImpl<Vec<u8>> for BinRingMemoryBuffer {
    open spec fn obeys_from_spec() -> bool {
        true
    }

    closed spec fn from_spec(v: Vec<u8>) -> Self {
        BinRingMemoryBuffer { buffer: v, position: 0 }
    }
}

impl<'a> From<&'a [u8]> for BinRingMemoryBuffer {
    /// A buffer holding a copy of `buffer`, with its cursor at 0.
    fn from(buffer: &'a [u8]) -> (r: Self)
        ensures
            r@ == (buffer@, 0nat),
    {
        BinRingMemoryBuffer { buffer: slice_to_vec(buffer), position: 0 }
    }
}

impl<'a> vstd::std_specs::convert::FromSpecImpl<&'a [u8]> for BinRingMemoryBuffer {
    open spec fn obeys_from_spec() -> bool {
        false
    }

    closed spec fn from_spec(v: &'a [u8]) -> Self {
        arbitrary()
    }
}

impl BinSeek for BinRingMemoryBuffer {
    /// A circular buffer has no absolute positions: seeking always fails.
    fn seek(&mut self, to: usize) -> (r: Result<usize, Error>)
        ensures
            r == Err::<usize, Error>(Error::NotSupported),
            final(self)@ == old(self)@,
    {
        Err(Error::NotSupported)
    }

    fn pos(&mut self) -> (r: Result<usize, Error>)
        ensures
            r matches Ok(p) && p as nat == old(self)@.1,
            final(self)@ == old(self)@,
    {
        Ok(self.position)
    }

    /// The capacity.
    fn len(&self) -> (r: Result<usize, Error>)
        ensures
            r matches Ok(n) && n as nat == self@.0.len(),
    {
        Ok(self.buffer.len())
    }

    fn is_empty(&self) -> (r: bool)
        ensures
            r == (self@.0.len() == 0),
    {
        self.buffer.len() == 0
    }

    /// Only a buffer of capacity 0 is ever at its end: any other always has a next byte.
    fn is_eof(&mut self) -> (r: bool)
        ensures
            r == (old(self)@.0.len() == 0),
            final(self)@ == old(self)@,
    {
        self.buffer.len() == 0
    }
}

impl ByteRead for BinRingMemoryBuffer {
    open spec fn can_read(&self, n: nat) -> bool {
        self@.0.len() > 0 || n == 0
    }

    open spec fn upcoming(&self, n: nat) -> Seq<u8> {
        ring_read(self@.0, self@.1, n)
    }

    open spec fn is_advanced(&self, n: nat, after: Self) -> bool {
        after@ == if self@.0.len() == 0 {
            self@
        } else {
            (self@.0, (self@.1 + n) % self@.0.len())
        }
    }

    open spec fn read_error(&self) -> Error {
        Error::EndOfStream
    }

    /// Fills all of `buf`; a buffer of capacity 0 delivers nothing and reports 0.
    fn read(&mut self, buf: &mut [u8]) -> (r: Result<usize, Error>)
        ensures
            r == Ok::<usize, Error>(
                if old(self)@.0.len() == 0 {
                    0usize
                } else {
                    old(buf)@.len() as usize
                },
            ),
    {
        let k = self.read_bytes(buf);
        proof {
            if self@.0.len() == 0 {
                assert(buf@.take(0) =~= ring_read(self@.0, self@.1, 0));
                assert(buf@.skip(0) =~= old(buf)@.skip(0));
            } else {
                assert(buf@.take(k as int) =~= buf@);
                assert(buf@.skip(k as int) =~= old(buf)@.skip(k as int));
            }
        }
        Ok(k)
    }

    /// Fills all of `buf`; fails with end of stream only on a buffer of capacity 0
    /// asked for at least one byte.
    fn read_exact(&mut self, buf: &mut [u8]) -> (r: Result<(), Error>) {
        if self.buffer.len() == 0 && buf.len() > 0 {
            return Err(Error::EndOfStream);
        }
        self.read_bytes(buf);
        proof {
            if self@.0.len() == 0 {
                assert(buf@ =~= ring_read(self@.0, self@.1, 0));
            }
        }
        Ok(())
    }
}

impl ByteWrite for BinRingMemoryBuffer {
    open spec fn can_write(&self, n: nat) -> bool {
        self@.0.len() > 0 || n == 0
    }

    open spec fn is_written(&self, bytes: Seq<u8>, after: Self) -> bool {
        after@ == if self@.0.len() == 0 {
            self@
        } else {
            (ring_write(self@.0, self@.1, bytes), (self@.1 + bytes.len()) % self@.0.len())
        }
    }

    open spec fn write_error(&self) -> Error {
        Error::EndOfStream
    }

    /// Writes all of `buf`, overwriting earlier bytes once it goes round; a buffer of
    /// capacity 0 takes nothing and reports 0.
    fn write(&mut self, buf: &[u8]) -> (r: Result<usize, Error>)
        ensures
            r == Ok::<usize, Error>(
                if old(self)@.0.len() == 0 {
                    0usize
                } else {
                    buf@.len() as usize
                },
            ),
    {
        if self.buffer.len() == 0 {
            return Ok(0);
        }
        self.write_bytes(buf);
        assert(buf@.take(buf@.len() as int) =~= buf@);
        Ok(buf.len())
    }

    /// Writes all of `buf`; fails with end of stream only on a buffer of capacity 0
    /// given at least one byte.
    fn write_all(&mut self, buf: &[u8]) -> (r: Result<(), Error>) {
        if self.buffer.len() == 0 {
            if buf.len() > 0 {
                return Err(Error::EndOfStream);
            }
            return Ok(());
        }
        self.write_bytes(buf);
        Ok(())
    }

    fn flush(&mut self) -> (r: Result<(), Error>)
        ensures
            r == Ok::<(), Error>(()),
            final(self)@ == old(self)@,
    {
        Ok(())
    }
}

impl BinRead for BinRingMemoryBuffer {

}

/// Reading `C + k` bytes from a circular buffer of capacity `C > 0` delivers, after
/// the first `C`, the same bytes as its first `k`: after a full cycle the buffer
/// starts over from where the cursor stood, and the cursor returns there.
pub proof fn lemma_full_cycle(b: BinRingMemoryBuffer, k: nat, after: BinRingMemoryBuffer)
    requires
        b@.0.len() > 0,
        b@.1 < b@.0.len(),
    ensures
        b.upcoming(b@.0.len() + k).skip(b@.0.len() as int) == b.upcoming(k),
        b.is_advanced(b@.0.len(), after) ==> after@ == b@,
{
    let c = b@.0.len();
    assert forall|j: int| 0 <= j < k implies b.upcoming(c + k)[c + j] == b.upcoming(k)[j] by {
        lemma_mod_add_multiples_vanish(b@.1 + j, c as int);
    }
    assert(b.upcoming(c + k).skip(c as int) =~= b.upcoming(k));
    lemma_mod_add_multiples_vanish(b@.1 as int, c as int);
    lemma_small_mod(b@.1, c);
}

/// Reads and writes never change the capacity of a circular buffer, so whether it is
/// at its end never changes either.
pub proof fn lemma_capacity_fixed(
    b: BinRingMemoryBuffer,
    n: nat,
    bytes: Seq<u8>,
    after: BinRingMemoryBuffer,
)
    ensures
        b.is_advanced(n, after) ==> after@.0.len() == b@.0.len(),
        b.is_written(bytes, after) ==> after@.0.len() == b@.0.len(),
{
    if b@.0.len() > 0 {
        lemma_ring_write_len(b@.0, b@.1, bytes);
    }
}

} // verus!
