//! Settings of the network engine that uses io_uring.

use vstd::prelude::*;

verus! {

/// Configuration of the io_uring network I/O engine.
#[derive(Debug, Clone, PartialEq, Eq, Structural)]
pub struct NetworkConfig {
    /// Queue depth for io_uring.
    pub queue_depth: u32,
    /// Size of the read buffer in bytes.
    pub buffer_size: usize,
}

impl Default for NetworkConfig {
    /// A queue depth of 256 and a 64 KiB read buffer.
    fn default() -> (c: Self)
        ensures
            c == (NetworkConfig { queue_depth: 256, buffer_size: 65536 }),
    {
        NetworkConfig { queue_depth: 256, buffer_size: 64 * 1024 }
    }
}

} // verus!
