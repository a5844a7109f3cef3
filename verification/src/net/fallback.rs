//! Settings and operations of the network engine that uses standard socket
//! I/O.

use vstd::prelude::*;

verus! {

/// Configuration of the network I/O engine.
#[derive(Debug, Clone, PartialEq, Eq, Structural)]
pub struct NetworkConfig {
    /// Number of I/O worker threads.
    pub worker_threads: usize,
    /// Whether to pin I/O worker threads to CPUs.
    pub pin_threads: bool,
    /// Size of the read buffer in bytes.
    pub buffer_size: usize,
    /// NUMA node to use for I/O operations.
    pub numa_node: Option<usize>,
}

impl Default for NetworkConfig {
    /// Two pinned workers, a 64 KiB read buffer and no NUMA node.
    fn default() -> (c: Self)
        ensures
            c == (NetworkConfig {
                worker_threads: 2,
                pin_threads: true,
                buffer_size: 65536,
                numa_node: None,
            }),
    {
        NetworkConfig {
            worker_threads: 2,
            pin_threads: true,
            buffer_size: 64 * 1024,
            numa_node: None,
        }
    }
}

/// Operations queued per worker thread.
pub const QUEUE_SLOTS_PER_WORKER: usize = 32;

impl NetworkConfig {
    /// How many operations the submission queue holds: 32 per worker.
    pub fn queue_capacity(&self) -> (n: usize)
        requires
            self.worker_threads * QUEUE_SLOTS_PER_WORKER <= usize::MAX,
        ensures
            n == self.worker_threads * QUEUE_SLOTS_PER_WORKER,
    {
        self.worker_threads * QUEUE_SLOTS_PER_WORKER
    }
}

/// Type of network operation.
#[derive(Debug, Clone, Copy, PartialEq, Eq, Structural)]
pub enum NetworkOperationType {
    /// Accept a connection on a listening socket.
    Accept,
    /// Connect to a remote host.
    Connect,
    /// Read from a socket.
    Read,
    /// Write to a socket.
    Write,
    /// Close a socket.
    Close,
}

/// An input an operation needs and was not given.
#[derive(Debug, Clone, Copy, PartialEq, Eq, Structural)]
pub enum MissingInput {
    /// No socket file descriptor.
    Fd,
    /// No remote address.
    Addr,
    /// No data to write.
    Data,
}

/// The input an operation of type `op` lacks, if any: connecting needs an
/// address; every other operation needs a socket, and a write needs data
/// besides.
pub open spec fn spec_missing_input(
    op: NetworkOperationType,
    has_fd: bool,
    has_addr: bool,
    has_data: bool,
) -> Option<MissingInput> {
    match op {
        NetworkOperationType::Connect => if has_addr {
            None
        } else {
            Some(MissingInput::Addr)
        },
        NetworkOperationType::Write => if !has_fd {
            Some(MissingInput::Fd)
        } else if !has_data {
            Some(MissingInput::Data)
        } else {
            None
        },
        _ => if has_fd {
            None
        } else {
            Some(MissingInput::Fd)
        },
    }
}

/// The kind of result an operation completes with.
#[derive(Debug, Clone, Copy, PartialEq, Eq, Structural)]
pub enum NetworkResultKind {
    /// An accepted connection and its peer address.
    Accept,
    /// A connected socket.
    Connect,
    /// The bytes read.
    Read,
    /// The number of bytes written.
    Write,
    /// The socket was closed.
    Close,
}

impl NetworkOperationType {
    /// The input an operation of this type lacks, given which inputs it
    /// carries.
    pub fn missing_input(&self, has_fd: bool, has_addr: bool, has_data: bool) -> (m: Option<
        MissingInput,
    >)
        ensures
            m == spec_missing_input(*self, has_fd, has_addr, has_data),
    {
        match self {
            NetworkOperationType::Connect => if has_addr {
                None
            } else {
                Some(MissingInput::Addr)
            },
            NetworkOperationType::Write => if !has_fd {
                Some(MissingInput::Fd)
            } else if !has_data {
                Some(MissingInput::Data)
            } else {
                None
            },
            _ => if has_fd {
                None
            } else {
                Some(MissingInput::Fd)
            },
        }
    }

    /// Whether a result of kind `kind` answers an operation of this type;
    /// any other result is unexpected.
    pub fn expects(&self, kind: NetworkResultKind) -> (b: bool)
        ensures
            b == match *self {
                NetworkOperationType::Accept => kind == NetworkResultKind::Accept,
                NetworkOperationType::Connect => kind == NetworkResultKind::Connect,
                NetworkOperationType::Read => kind == NetworkResultKind::Read,
                NetworkOperationType::Write => kind == NetworkResultKind::Write,
                NetworkOperationType::Close => kind == NetworkResultKind::Close,
            },
    {
        match self {
            NetworkOperationType::Accept => kind == NetworkResultKind::Accept,
            NetworkOperationType::Connect => kind == NetworkResultKind::Connect,
            NetworkOperationType::Read => kind == NetworkResultKind::Read,
            NetworkOperationType::Write => kind == NetworkResultKind::Write,
            NetworkOperationType::Close => kind == NetworkResultKind::Close,
        }
    }
}

} // verus!
