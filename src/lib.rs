//! A fixed-capacity, lock-free single-producer single-consumer ring buffer.
//!
//! [`ringbuffer`] makes a buffer of a power-of-two number of slots and hands
//! out its two handles: a [`RingBufferWriter`] for the one producer thread and
//! a [`RingBufferReader`] for the one consumer thread. Neither ever blocks: a
//! push on a full buffer hands its value back, a pull on an empty buffer
//! gives nothing, and the caller decides whether to retry.
//!
//! Indices grow without bound and wrap at 2^64; the number of unread values
//! is always the wrapping difference of the write and read indices, and the
//! slot of an index is found by masking it with `capacity - 1`.
//!
//! Modules:
//! - [`index`]: the arithmetic of wrapping indices and masks;
//! - [`queue`]: the abstract behaviour of a bounded first-in first-out buffer;
//! - [`ring`]: the same slot discipline with both indices held by one owner,
//!   verified against [`queue`];
//! - [`spsc`]: the shared buffer and its two handles;
//! - [`laws`]: order preservation, capacity reclaim and peek/pull agreement.
mod cells;
pub mod index;
pub mod laws;
pub mod queue;
pub mod ring;
pub mod spsc;

pub use index::is_valid_capacity;
pub use ring::Ring;
pub use spsc::{ringbuffer, RingBufferReader, RingBufferWriter};
