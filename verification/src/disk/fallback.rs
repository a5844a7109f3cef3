//! Settings and operations of the disk engine that uses standard file I/O.

use vstd::prelude::*;

verus! {

/// Configuration of the disk I/O engine.
#[derive(Debug, Clone, PartialEq, Eq, Structural)]
pub struct DiskConfig {
    /// Number of I/O worker threads.
    pub worker_threads: usize,
    /// Whether to pin I/O worker threads to CPUs.
    pub pin_threads: bool,
    /// Size of the read/write buffer in bytes.
    pub buffer_size: usize,
    /// NUMA node to use for I/O operations.
    pub numa_node: Option<usize>,
}

impl Default for DiskConfig {
    /// Two pinned workers, a 128 KiB buffer and no NUMA node.
    fn default() -> (c: Self)
        ensures
            c == (DiskConfig {
                worker_threads: 2,
                pin_threads: true,
                buffer_size: 131072,
                numa_node: None,
            }),
    {
        DiskConfig { worker_threads: 2, pin_threads: true, buffer_size: 128 * 1024, numa_node: None }
    }
}

/// Operations queued per worker thread.
pub const QUEUE_SLOTS_PER_WORKER: usize = 32;

/// Bytes a read returns at most.
pub const READ_CHUNK_SIZE: usize = 4096;

impl DiskConfig {
    /// How many operations the submission queue holds: 32 per worker.
    pub fn queue_capacity(&self) -> (n: usize)
        requires
            self.worker_threads * QUEUE_SLOTS_PER_WORKER <= usize::MAX,
        ensures
            n == self.worker_threads * QUEUE_SLOTS_PER_WORKER,
    {
        self.worker_threads * QUEUE_SLOTS_PER_WORKER
    }
}

/// Type of disk operation.
#[derive(Debug, Clone, Copy, PartialEq, Eq, Structural)]
pub enum DiskOperationType {
    /// Read from a file.
    Read,
    /// Write to a file.
    Write,
    /// Sync a file to disk.
    Sync,
    /// Close a file.
    Close,
}

/// A disk I/O operation; the caller pairs it with the completion that
/// receives its result.
#[derive(Debug)]
pub struct DiskOperation {
    /// Type of operation.
    pub op_type: DiskOperationType,
    /// Path of the file.
    pub path: std::path::PathBuf,
    /// Offset in the file.
    pub offset: u64,
    /// Data to write, for write operations.
    pub data: Option<Vec<u8>>,
}

/// What the worker does for an operation.
#[derive(Debug, Clone, Copy, PartialEq, Eq, Structural)]
pub enum DiskAction {
    /// Read up to `READ_CHUNK_SIZE` bytes at the offset.
    ReadChunk,
    /// Write the operation's data at the offset.
    WriteData,
    /// Flush the file to disk.
    SyncFile,
    /// Nothing to do: files close when dropped.
    Nothing,
    /// Refuse the operation: a write came without data.
    RejectNoData,
}

/// What the worker does for an operation of type `op` that carries data or
/// not.
pub open spec fn spec_action(op: DiskOperationType, has_data: bool) -> DiskAction {
    match op {
        DiskOperationType::Read => DiskAction::ReadChunk,
        DiskOperationType::Write => if has_data {
            DiskAction::WriteData
        } else {
            DiskAction::RejectNoData
        },
        DiskOperationType::Sync => DiskAction::SyncFile,
        DiskOperationType::Close => DiskAction::Nothing,
    }
}

impl DiskOperation {
    /// Decides what the worker does for this operation.
    pub fn action(&self) -> (a: DiskAction)
        ensures
            a == spec_action(self.op_type, self.data is Some),
    {
        match self.op_type {
            DiskOperationType::Read => DiskAction::ReadChunk,
            DiskOperationType::Write => match &self.data {
                Some(_) => DiskAction::WriteData,
                None => DiskAction::RejectNoData,
            },
            DiskOperationType::Sync => DiskAction::SyncFile,
            DiskOperationType::Close => DiskAction::Nothing,
        }
    }
}

} // verus!
