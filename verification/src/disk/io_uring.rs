//! Settings of the disk engine that uses io_uring.

use vstd::prelude::*;

verus! {

/// Configuration of the io_uring disk I/O engine.
#[derive(Debug, Clone, PartialEq, Eq, Structural)]
pub struct DiskConfig {
    /// Number of I/O worker threads.
    pub worker_threads: usize,
    /// Whether to pin I/O worker threads to CPUs.
    pub pin_threads: bool,
    /// Queue depth for io_uring.
    pub queue_depth: u32,
    /// Size of the read/write buffer in bytes.
    pub buffer_size: usize,
    /// NUMA node to use for I/O operations.
    pub numa_node: Option<usize>,
}

impl Default for DiskConfig {
    /// Two pinned workers, a queue depth of 256, a 128 KiB buffer and no
    /// NUMA node.
    fn default() -> (c: Self)
        ensures
            c == (DiskConfig {
                worker_threads: 2,
                pin_threads: true,
                queue_depth: 256,
                buffer_size: 131072,
                numa_node: None,
            }),
    {
        DiskConfig {
            worker_threads: 2,
            pin_threads: true,
            queue_depth: 256,
            buffer_size: 128 * 1024,
            numa_node: None,
        }
    }
}

} // verus!
