use vstd::prelude::*;

use crate::byte_order::ByteOrder;
use crate::error::Error;

verus! {

/// Positioning within a stream: where the cursor stands, how long the stream is,
/// and moving the cursor to an absolute offset.
pub trait BinSeek {
    /// Moves the cursor to the absolute offset `to` and returns the new position.
    fn seek(&mut self, to: usize) -> (r: Result<usize, Error>);

    /// The current position of the cursor.
    fn pos(&mut self) -> (r: Result<usize, Error>);

    /// The total length of the stream.
    fn len(&self) -> (r: Result<usize, Error>);

    /// Whether the stream holds no bytes at all.
    fn is_empty(&self) -> (r: bool) {
        match self.len() {
            Ok(n) => n == 0,
            Err(_) => true,
        }
    }

    /// Whether the stream has no next byte to deliver.
    fn is_eof(&mut self) -> (r: bool) {
        let p = match self.pos() {
            Ok(p) => p,
            Err(_) => 0,
        };
        let n = match self.len() {
            Ok(n) => n,
            Err(_) => 0,
        };
        p >= n
    }
}

/// A source of bytes, consumed in order.
///
/// Its state is described by what it would deliver next: whether `n` more bytes can
/// be had, which bytes they are, and what the stream becomes once they are taken.
/// Each implementation in this crate states these; one that does not (a stream over
/// the host's files) leaves them unspecified.
pub trait ByteRead: Sized {
    /// Whether an exact read of `n` bytes succeeds.
    closed spec fn can_read(&self, n: nat) -> bool {
        arbitrary()
    }

    /// The next `n` bytes of the stream.
    closed spec fn upcoming(&self, n: nat) -> Seq<u8> {
        arbitrary()
    }

    /// Whether `after` is this stream once `n` bytes have been taken from it.
    closed spec fn is_advanced(&self, n: nat, after: Self) -> bool {
        arbitrary()
    }

    /// The error that an exact read reports when too few bytes remain.
    closed spec fn read_error(&self) -> Error {
        arbitrary()
    }

    /// Copies up to `buf.len()` bytes into the front of `buf` and returns how many.
    /// Fewer bytes than asked for is not an error.
    fn read(&mut self, buf: &mut [u8]) -> (r: Result<usize, Error>)
        ensures
            final(buf)@.len() == old(buf)@.len(),
            match r {
                Ok(k) => {
                    &&& k <= old(buf)@.len()
                    &&& final(buf)@.take(k as int) == old(self).upcoming(k as nat)
                    &&& final(buf)@.skip(k as int) == old(buf)@.skip(k as int)
                    &&& old(self).is_advanced(k as nat, *final(self))
                },
                Err(_) => *final(self) == *old(self),
            },
    ;

    /// Fills `buf` completely, or fails with nothing consumed.
    fn read_exact(&mut self, buf: &mut [u8]) -> (r: Result<(), Error>)
        ensures
            final(buf)@.len() == old(buf)@.len(),
            match r {
                Ok(()) => {
                    &&& old(self).can_read(old(buf)@.len())
                    &&& final(buf)@ == old(self).upcoming(old(buf)@.len())
                    &&& old(self).is_advanced(old(buf)@.len(), *final(self))
                },
                Err(e) => {
                    &&& !old(self).can_read(old(buf)@.len())
                    &&& e == old(self).read_error()
                    &&& *final(self) == *old(self)
                },
            },
    ;
}

/// A sink of bytes, written in order.
///
/// As with `ByteRead`, an implementation that does not state what writing does
/// leaves it unspecified.
pub trait ByteWrite: Sized {
    /// Whether all of `n` bytes can be written.
    closed spec fn can_write(&self, n: nat) -> bool {
        arbitrary()
    }

    /// Whether `after` is this stream once `bytes` have been written to it.
    closed spec fn is_written(&self, bytes: Seq<u8>, after: Self) -> bool {
        arbitrary()
    }

    /// The error that an exact write reports when the bytes cannot all be written.
    closed spec fn write_error(&self) -> Error {
        arbitrary()
    }

    /// Writes a prefix of `buf` and returns its length.
    fn write(&mut self, buf: &[u8]) -> (r: Result<usize, Error>)
        ensures
            match r {
                Ok(k) => k <= buf@.len() && old(self).is_written(buf@.take(k as int), *final(self)),
                Err(_) => *final(self) == *old(self),
            },
    ;

    /// Writes all of `buf`, or fails with nothing written.
    fn write_all(&mut self, buf: &[u8]) -> (r: Result<(), Error>)
        ensures
            match r {
                Ok(()) => old(self).can_write(buf@.len()) && old(self).is_written(buf@, *final(self)),
                Err(e) => {
                    &&& !old(self).can_write(buf@.len())
                    &&& e == old(self).write_error()
                    &&& *final(self) == *old(self)
                },
            },
    ;

    /// Hands buffered bytes on; the memory streams hold none.
    fn flush(&mut self) -> (r: Result<(), Error>);
}

/// A stream that can be both read and positioned.
pub trait BinRead: ByteRead + BinSeek {

}

/// Typed reads on any byte source: integers in a chosen byte order and runs of raw bytes.
pub trait ReadBytes: ByteRead {
    /// Reads one byte.
    fn read_u8(&mut self) -> (r: Result<u8, Error>)
        ensures
            match r {
                Ok(v) => {
                    &&& old(self).can_read(1)
                    &&& old(self).upcoming(1) == seq![v]
                    &&& old(self).is_advanced(1, *final(self))
                },
                Err(e) => !old(self).can_read(1) && e == old(self).read_error() && *final(self)
                    == *old(self),
            },
    {
        let mut buf = [0u8; 1];
        match self.read_exact(&mut buf) {
            Ok(()) => {
                assert(old(self).upcoming(1) =~= seq![buf[0]]);
                Ok(buf[0])
            },
            Err(e) => Err(e),
        }
    }

    /// Reads two bytes and decodes them as a 16-bit integer in the order `T`.
    fn read_u16<T: ByteOrder>(&mut self) -> (r: Result<u16, Error>)
        ensures
            match r {
                Ok(v) => {
                    &&& old(self).can_read(2)
                    &&& v as nat == T::value_of(old(self).upcoming(2))
                    &&& old(self).is_advanced(2, *final(self))
                },
                Err(e) => !old(self).can_read(2) && e == old(self).read_error() && *final(self)
                    == *old(self),
            },
    {
        let mut buf = [0u8; 2];
        match self.read_exact(&mut buf) {
            Ok(()) => {
                let r = T::read_u16(&buf);
                assert(buf@.take(2) =~= buf@);
                r
            },
            Err(e) => Err(e),
        }
    }

    /// Reads three bytes and decodes them as a 24-bit integer in the order `T`.
    fn read_u24<T: ByteOrder>(&mut self) -> (r: Result<u32, Error>)
        ensures
            match r {
                Ok(v) => {
                    &&& old(self).can_read(3)
                    &&& v as nat == T::value_of(old(self).upcoming(3))
                    &&& old(self).is_advanced(3, *final(self))
                },
                Err(e) => !old(self).can_read(3) && e == old(self).read_error() && *final(self)
                    == *old(self),
            },
    {
        let mut buf = [0u8; 3];
        match self.read_exact(&mut buf) {
            Ok(()) => {
                let r = T::read_u24(&buf);
                assert(buf@.take(3) =~= buf@);
                r
            },
            Err(e) => Err(e),
        }
    }

    /// Reads four bytes and decodes them as a 32-bit integer in the order `T`.
    fn read_u32<T: ByteOrder>(&mut self) -> (r: Result<u32, Error>)
        ensures
            match r {
                Ok(v) => {
                    &&& old(self).can_read(4)
                    &&& v as nat == T::value_of(old(self).upcoming(4))
                    &&& old(self).is_advanced(4, *final(self))
                },
                Err(e) => !old(self).can_read(4) && e == old(self).read_error() && *final(self)
                    == *old(self),
            },
    {
        let mut buf = [0u8; 4];
        match self.read_exact(&mut buf) {
            Ok(()) => {
                let r = T::read_u32(&buf);
                assert(buf@.take(4) =~= buf@);
                r
            },
            Err(e) => Err(e),
        }
    }

    /// Reads exactly `N` bytes into an array.
    fn read_bytes<const N: usize>(&mut self) -> (r: Result<[u8; N], Error>)
        ensures
            match r {
                Ok(a) => {
                    &&& old(self).can_read(N as nat)
                    &&& a@ == old(self).upcoming(N as nat)
                    &&& old(self).is_advanced(N as nat, *final(self))
                },
                Err(e) => !old(self).can_read(N as nat) && e == old(self).read_error()
                    && *final(self) == *old(self),
            },
    {
        let mut buf = [0u8; N];
        match self.read_exact(&mut buf) {
            Ok(()) => Ok(buf),
            Err(e) => Err(e),
        }
    }

    /// Reads exactly `length` bytes into a new vector.
    fn read_into_vec(&mut self, length: u32) -> (r: Result<Vec<u8>, Error>)
        ensures
            match r {
                Ok(v) => {
                    &&& old(self).can_read(length as nat)
                    &&& v@ == old(self).upcoming(length as nat)
                    &&& old(self).is_advanced(length as nat, *final(self))
                },
                Err(e) => !old(self).can_read(length as nat) && e == old(self).read_error()
                    && *final(self) == *old(self),
            },
    {
        let mut buf: Vec<u8> = vec![0u8; length as usize];
        match self.read_exact(buf.as_mut_slice()) {
            Ok(()) => Ok(buf),
            Err(e) => Err(e),
        }
    }
}

impl<R: ByteRead> ReadBytes for R {

}

/// Typed writes on any byte sink: integers in a chosen byte order.
pub trait WriteBytes: ByteWrite {
    /// Writes one byte.
    fn write_u8(&mut self, v: u8) -> (r: Result<(), Error>)
        ensures
            match r {
                Ok(()) => old(self).can_write(1) && old(self).is_written(seq![v], *final(self)),
                Err(e) => !old(self).can_write(1) && e == old(self).write_error() && *final(self)
                    == *old(self),
            },
    {
        let buf = [v];
        assert(buf@ =~= seq![v]);
        self.write_all(&buf)
    }

    /// Writes `v` as two bytes in the order `T`.
    fn write_u16<T: ByteOrder>(&mut self, v: u16) -> (r: Result<(), Error>)
        ensures
            match r {
                Ok(()) => old(self).can_write(2) && old(self).is_written(
                    T::bytes_of(v as nat, 2),
                    *final(self),
                ),
                Err(e) => !old(self).can_write(2) && e == old(self).write_error() && *final(self)
                    == *old(self),
            },
    {
        let buf = T::encode_u16(v);
        self.write_all(&buf)
    }

    /// Writes the low 24 bits of `v` as three bytes in the order `T`.
    fn write_u24<T: ByteOrder>(&mut self, v: u32) -> (r: Result<(), Error>)
        ensures
            match r {
                Ok(()) => old(self).can_write(3) && old(self).is_written(
                    T::bytes_of(v as nat, 3),
                    *final(self),
                ),
                Err(e) => !old(self).can_write(3) && e == old(self).write_error() && *final(self)
                    == *old(self),
            },
    {
        let buf = T::encode_u24(v);
        self.write_all(&buf)
    }

    /// Writes `v` as four bytes in the order `T`.
    fn write_u32<T: ByteOrder>(&mut self, v: u32) -> (r: Result<(), Error>)
        ensures
            match r {
                Ok(()) => old(self).can_write(4) && old(self).is_written(
                    T::bytes_of(v as nat, 4),
                    *final(self),
                ),
                Err(e) => !old(self).can_write(4) && e == old(self).write_error() && *final(self)
                    == *old(self),
            },
    {
        let buf = T::encode_u32(v);
        self.write_all(&buf)
    }
}

impl<W: ByteWrite> WriteBytes for W {

}

} // verus!
