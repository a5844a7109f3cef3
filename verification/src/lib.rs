//! Core library of an I/O offloading sidecar: CPU topology and runtime-mode
//! selection, worker placement, the shared-memory ring buffer through which
//! applications hand disk and network operations to the engine, and the
//! settings and operations of the disk and network engines.

pub mod arch;
pub mod disk;
pub mod net;
pub mod ring;
pub mod text;
