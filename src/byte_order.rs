use vstd::prelude::*;

use crate::error::Error;

verus! {

/// 256 raised to the power `n`: one more than the largest value that `n` bytes hold.
pub open spec fn radix_pow(n: nat) -> nat
    decreases n,
{
    if n == 0 {
        1
    } else {
        256 * radix_pow((n - 1) as nat)
    }
}

/// The value of `b` read most significant byte first.
pub open spec fn be_value(b: Seq<u8>) -> nat
    decreases b.len(),
{
    if b.len() == 0 {
        0
    } else {
        be_value(b.drop_last()) * 256 + b.last() as nat
    }
}

/// The value of `b` read least significant byte first.
pub open spec fn le_value(b: Seq<u8>) -> nat
    decreases b.len(),
{
    if b.len() == 0 {
        0
    } else {
        b[0] as nat + 256 * le_value(b.drop_first())
    }
}

/// The `n` low bytes of `v`, most significant first.
pub open spec fn be_bytes(v: nat, n: nat) -> Seq<u8>
    decreases n,
{
    if n == 0 {
        Seq::empty()
    } else {
        be_bytes(v / 256, (n - 1) as nat).push((v % 256) as u8)
    }
}

/// The `n` low bytes of `v`, least significant first.
pub open spec fn le_bytes(v: nat, n: nat) -> Seq<u8>
    decreases n,
{
    if n == 0 {
        Seq::empty()
    } else {
        seq![(v % 256) as u8] + le_bytes(v / 256, (n - 1) as nat)
    }
}

/// The selection of a byte order: how the bytes of an integer are laid out.
/// It carries no data; it is chosen at each call as a type parameter.
pub trait ByteOrder {
    /// The value that `bytes` encode in this order.
    spec fn value_of(bytes: Seq<u8>) -> nat;

    /// The `n` low bytes of `v` laid out in this order.
    spec fn bytes_of(v: nat, n: nat) -> Seq<u8>;

    /// Decodes a 16-bit integer from the first two bytes of `buf`.
    fn read_u16(buf: &[u8]) -> (r: Result<u16, Error>)
        ensures
            match r {
                Ok(v) => buf@.len() >= 2 && v as nat == Self::value_of(buf@.take(2)),
                Err(e) => buf@.len() < 2 && e == Error::InvalidInputArray,
            },
    ;

    /// Decodes a 24-bit integer from the first three bytes of `buf`.
    fn read_u24(buf: &[u8]) -> (r: Result<u32, Error>)
        ensures
            match r {
                Ok(v) => buf@.len() >= 3 && v as nat == Self::value_of(buf@.take(3)),
                Err(e) => buf@.len() < 3 && e == Error::InvalidInputArray,
            },
    ;

    /// Decodes a 32-bit integer from the first four bytes of `buf`.
    fn read_u32(buf: &[u8]) -> (r: Result<u32, Error>)
        ensures
            match r {
                Ok(v) => buf@.len() >= 4 && v as nat == Self::value_of(buf@.take(4)),
                Err(e) => buf@.len() < 4 && e == Error::InvalidInputArray,
            },
    ;

    /// Encodes `v` as two bytes.
    fn encode_u16(v: u16) -> (r: [u8; 2])
        ensures
            r@ == Self::bytes_of(v as nat, 2),
    ;

    /// Encodes the low 24 bits of `v` as three bytes.
    fn encode_u24(v: u32) -> (r: [u8; 3])
        ensures
            r@ == Self::bytes_of(v as nat, 3),
    ;

    /// Encodes `v` as four bytes.
    fn encode_u32(v: u32) -> (r: [u8; 4])
        ensures
            r@ == Self::bytes_of(v as nat, 4),
    ;
}

/// Most significant byte first.
#[derive(Clone, Copy, Debug)]
pub struct BigEndian;

/// Least significant byte first.
#[derive(Clone, Copy, Debug)]
pub struct LittleEndian;

impl ByteOrder for BigEndian {
    open spec fn value_of(bytes: Seq<u8>) -> nat {
        be_value(bytes)
    }

    open spec fn bytes_of(v: nat, n: nat) -> Seq<u8> {
        be_bytes(v, n)
    }

    fn read_u16(buf: &[u8]) -> (r: Result<u16, Error>) {
        if buf.len() < 2 {
            return Err(Error::InvalidInputArray);
        }
        let v = (buf[0] as u16) * 256 + buf[1] as u16;
        proof {
            let b = buf@.take(2);
            assert(b.drop_last().drop_last() =~= Seq::<u8>::empty());
            reveal_with_fuel(be_value, 3);
        }
        Ok(v)
    }

    fn read_u24(buf: &[u8]) -> (r: Result<u32, Error>) {
        if buf.len() < 3 {
            return Err(Error::InvalidInputArray);
        }
        let v = (buf[0] as u32) * 65536 + (buf[1] as u32) * 256 + buf[2] as u32;
        proof {
            let b = buf@.take(3);
            assert(b.drop_last().drop_last().drop_last() =~= Seq::<u8>::empty());
            reveal_with_fuel(be_value, 4);
        }
        Ok(v)
    }

    fn read_u32(buf: &[u8]) -> (r: Result<u32, Error>) {
        if buf.len() < 4 {
            return Err(Error::InvalidInputArray);
        }
        let v = (buf[0] as u32) * 16777216 + (buf[1] as u32) * 65536 + (buf[2] as u32) * 256
            + buf[3] as u32;
        proof {
            let b = buf@.take(4);
            assert(b.drop_last().drop_last().drop_last().drop_last() =~= Seq::<u8>::empty());
            reveal_with_fuel(be_value, 5);
        }
        Ok(v)
    }

    fn encode_u16(v: u16) -> (r: [u8; 2]) {
        let r = [(v / 256) as u8, (v % 256) as u8];
        proof {
            reveal_with_fuel(be_bytes, 3);
            assert(r@ =~= be_bytes(v as nat, 2));
        }
        r
    }

    fn encode_u24(v: u32) -> (r: [u8; 3]) {
        let r = [((v / 65536) % 256) as u8, ((v / 256) % 256) as u8, (v % 256) as u8];
        proof {
            reveal_with_fuel(be_bytes, 4);
            assert(v as nat / 256 / 256 == v as nat / 65536);
            assert(r@ =~= be_bytes(v as nat, 3));
        }
        r
    }

    fn encode_u32(v: u32) -> (r: [u8; 4]) {
        let r = [
            (v / 16777216) as u8,
            ((v / 65536) % 256) as u8,
            ((v / 256) % 256) as u8,
            (v % 256) as u8,
        ];
        proof {
            reveal_with_fuel(be_bytes, 5);
            assert(v as nat / 256 / 256 == v as nat / 65536);
            assert(v as nat / 256 / 256 / 256 == v as nat / 16777216);
            assert(r@ =~= be_bytes(v as nat, 4));
        }
        r
    }
}

impl ByteOrder for LittleEndian {
    open spec fn value_of(bytes: Seq<u8>) -> nat {
        le_value(bytes)
    }

    open spec fn bytes_of(v: nat, n: nat) -> Seq<u8> {
        le_bytes(v, n)
    }

    fn read_u16(buf: &[u8]) -> (r: Result<u16, Error>) {
        if buf.len() < 2 {
            return Err(Error::InvalidInputArray);
        }
        let v = buf[0] as u16 + (buf[1] as u16) * 256;
        proof {
            let b = buf@.take(2);
            assert(b.drop_first().drop_first() =~= Seq::<u8>::empty());
            reveal_with_fuel(le_value, 3);
        }
        Ok(v)
    }

    fn read_u24(buf: &[u8]) -> (r: Result<u32, Error>) {
        if buf.len() < 3 {
            return Err(Error::InvalidInputArray);
        }
        let v = buf[0] as u32 + (buf[1] as u32) * 256 + (buf[2] as u32) * 65536;
        proof {
            let b = buf@.take(3);
            assert(b.drop_first().drop_first().drop_first() =~= Seq::<u8>::empty());
            reveal_with_fuel(le_value, 4);
        }
        Ok(v)
    }

    fn read_u32(buf: &[u8]) -> (r: Result<u32, Error>) {
        if buf.len() < 4 {
            return Err(Error::InvalidInputArray);
        }
        let v = buf[0] as u32 + (buf[1] as u32) * 256 + (buf[2] as u32) * 65536 + (buf[3] as u32)
            * 16777216;
        proof {
            let b = buf@.take(4);
            assert(b.drop_first().drop_first().drop_first().drop_first() =~= Seq::<u8>::empty());
            reveal_with_fuel(le_value, 5);
        }
        Ok(v)
    }

    fn encode_u16(v: u16) -> (r: [u8; 2]) {
        let r = [(v % 256) as u8, (v / 256) as u8];
        proof {
            reveal_with_fuel(le_bytes, 3);
            assert(r@ =~= le_bytes(v as nat, 2));
        }
        r
    }

    fn encode_u24(v: u32) -> (r: [u8; 3]) {
        let r = [(v % 256) as u8, ((v / 256) % 256) as u8, ((v / 65536) % 256) as u8];
        proof {
            reveal_with_fuel(le_bytes, 4);
            assert(v as nat / 256 / 256 == v as nat / 65536);
            assert(r@ =~= le_bytes(v as nat, 3));
        }
        r
    }

    fn encode_u32(v: u32) -> (r: [u8; 4]) {
        let r = [
            (v % 256) as u8,
            ((v / 256) % 256) as u8,
            ((v / 65536) % 256) as u8,
            (v / 16777216) as u8,
        ];
        proof {
            reveal_with_fuel(le_bytes, 5);
            assert(v as nat / 256 / 256 == v as nat / 65536);
            assert(v as nat / 256 / 256 / 256 == v as nat / 16777216);
            assert(r@ =~= le_bytes(v as nat, 4));
        }
        r
    }
}

/// Encoding the `n` low bytes of a value below `256^n` most significant byte first
/// and decoding them again gives the value back.
pub proof fn lemma_be_round_trip(v: nat, n: nat)
    requires
        v < radix_pow(n),
    ensures
        be_bytes(v, n).len() == n,
        be_value(be_bytes(v, n)) == v,
    decreases n,
{
    if n > 0 {
        let m = (n - 1) as nat;
        assert(v / 256 < radix_pow(m)) by (nonlinear_arith)
            requires
                v < 256 * radix_pow(m),
        ;
        lemma_be_round_trip(v / 256, m);
        assert(be_bytes(v, n).drop_last() =~= be_bytes(v / 256, m));
    }
}

/// Encoding the `n` low bytes of a value below `256^n` least significant byte first
/// and decoding them again gives the value back.
pub proof fn lemma_le_round_trip(v: nat, n: nat)
    requires
        v < radix_pow(n),
    ensures
        le_bytes(v, n).len() == n,
        le_value(le_bytes(v, n)) == v,
    decreases n,
{
    if n > 0 {
        let m = (n - 1) as nat;
        assert(v / 256 < radix_pow(m)) by (nonlinear_arith)
            requires
                v < 256 * radix_pow(m),
        ;
        lemma_le_round_trip(v / 256, m);
        assert(le_bytes(v, n).drop_first() =~= le_bytes(v / 256, m));
    }
}

/// In either byte order, decoding what was encoded in a width of 2, 3 or 4 bytes gives
/// back every value that the width can hold.
pub proof fn lemma_round_trip(v: nat, n: nat)
    requires
        2 <= n <= 4,
        v < radix_pow(n),
    ensures
        BigEndian::value_of(BigEndian::bytes_of(v, n)) == v,
        LittleEndian::value_of(LittleEndian::bytes_of(v, n)) == v,
{
    lemma_be_round_trip(v, n);
    lemma_le_round_trip(v, n);
}

/// A zero byte put before a big-endian sequence leaves its value unchanged.
pub proof fn lemma_be_leading_zero(b: Seq<u8>)
    ensures
        be_value(seq![0u8] + b) == be_value(b),
    decreases b.len(),
{
    if b.len() == 0 {
        assert((seq![0u8] + b).drop_last() =~= Seq::<u8>::empty());
        reveal_with_fuel(be_value, 2);
    } else {
        assert((seq![0u8] + b).drop_last() =~= seq![0u8] + b.drop_last());
        assert((seq![0u8] + b).last() == b.last());
        lemma_be_leading_zero(b.drop_last());
    }
}

/// A zero byte put after a little-endian sequence leaves its value unchanged.
pub proof fn lemma_le_trailing_zero(b: Seq<u8>)
    ensures
        le_value(b + seq![0u8]) == le_value(b),
    decreases b.len(),
{
    if b.len() == 0 {
        assert((b + seq![0u8]).drop_first() =~= Seq::<u8>::empty());
        reveal_with_fuel(le_value, 2);
    } else {
        assert((b + seq![0u8]).drop_first() =~= b.drop_first() + seq![0u8]);
        assert((b + seq![0u8])[0] == b[0]);
        lemma_le_trailing_zero(b.drop_first());
    }
}

/// A 24-bit value decoded from three bytes is the 32-bit value of those bytes with a
/// zero byte added on the most significant side, in either byte order.
pub proof fn lemma_u24_is_zero_extended_u32(b: Seq<u8>)
    requires
        b.len() == 3,
    ensures
        BigEndian::value_of(b) == BigEndian::value_of(seq![0u8] + b),
        LittleEndian::value_of(b) == LittleEndian::value_of(b + seq![0u8]),
        (seq![0u8] + b).len() == 4,
        (b + seq![0u8]).len() == 4,
{
    lemma_be_leading_zero(b);
    lemma_le_trailing_zero(b);
}

} // verus!
