//! Shared-memory ring buffer through which processes hand operations to the
//! engine: many producers, one consumer.
//!
//! The region starts with a header (magic value, version, sizes, producer and
//! consumer indices, counters) followed by fixed-size slots, each holding an
//! operation's metadata and payload.

pub mod region;
pub mod slot;
pub mod header;
pub mod buffer;
pub mod fifo;

pub use buffer::{RingBuffer, RingBufferOptions};
pub use header::RingHeader;
pub use slot::{Operation, OperationKind, Slot, SlotMetadata, SlotStatus};

use buffer::{path_from_str, path_text};
use vstd::prelude::*;

verus! {

/// Default path of the shared memory ring buffer.
pub const DEFAULT_RING_PATH: &'static str = "/dev/shm/elgate_ring";

/// Default size of the ring buffer in bytes (4 MiB).
pub const DEFAULT_RING_SIZE: usize = 4 * 1024 * 1024;

/// Default size of a slot in bytes (4 KiB).
pub const DEFAULT_SLOT_SIZE: usize = 4 * 1024;

/// Returns the default path of the ring buffer.
pub fn get_default_ring_path() -> (p: std::path::PathBuf)
    ensures
        path_text(p) == DEFAULT_RING_PATH@,
{
    path_from_str(DEFAULT_RING_PATH)
}

} // verus!
