mod byte_order;
mod error;
mod memory_buffer;
mod ring_memory_buffer;
mod stream;

pub use byte_order::{
    be_bytes, be_value, le_bytes, le_value, lemma_be_leading_zero, lemma_be_round_trip,
    lemma_le_round_trip, lemma_le_trailing_zero, lemma_round_trip, lemma_u24_is_zero_extended_u32,
    radix_pow, BigEndian, ByteOrder, LittleEndian,
};
pub use error::{message_of, Error};
pub use memory_buffer::{
    lemma_read_within_bounds, lemma_write_grows, overwrite, remaining, BinMemoryBuffer,
};
pub use ring_memory_buffer::{
    lemma_capacity_fixed, lemma_full_cycle, lemma_ring_write_len, ring_read, ring_write,
    BinRingMemoryBuffer,
};
pub use stream::{BinRead, BinSeek, ByteRead, ByteWrite, ReadBytes, WriteBytes};
