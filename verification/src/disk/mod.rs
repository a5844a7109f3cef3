//! Disk I/O engine settings and operations: the engine itself runs file I/O
//! on worker tasks outside this library; what it is configured with and what
//! each operation needs are described here.

pub mod fallback;
pub mod io_uring;

pub use fallback::DiskConfig;
