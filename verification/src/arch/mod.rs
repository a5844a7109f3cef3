//! Architecture detection and thread placement: the CPU topology (cores and
//! NUMA nodes), the runtime mode chosen for it, and which core each worker
//! thread is pinned to.

pub mod affinity;
pub mod cpu_info;
pub mod runtime_mode;
pub mod thread_builder;

pub use cpu_info::{CpuInfo, NumaNode};
pub use runtime_mode::RuntimeMode;
pub use thread_builder::{PinningResult, ThreadBuilder};

use cpu_info::spec_numa_nodes;
use runtime_mode::spec_select;
use vstd::prelude::*;

verus! {

/// Gets the CPU topology of the current system, with the NUMA nodes taken
/// from the sysfs listing handed in (`None` when it could not be read).
pub fn detect_cpu_topology(listing: Option<Vec<(String, Option<String>)>>) -> (info: CpuInfo)
    ensures
        info@.logical_cores >= 1,
        info@.physical_cores matches Some(p) && p >= 1,
        (info@.numa_nodes, info@.numa_available) == spec_numa_nodes(
            info@.logical_cores,
            match listing {
                Some(v) => Some(v@),
                None => None,
            },
        ),
{
    CpuInfo::detect(listing)
}

/// Selects the most appropriate runtime mode for the system.
pub fn select_runtime_mode(cpu_info: &CpuInfo) -> (mode: RuntimeMode)
    ensures
        mode == spec_select(cpu_info@.logical_cores, cpu_info@.numa_available),
{
    RuntimeMode::select_for_system(cpu_info)
}

/// Creates a thread builder for worker threads, starting at worker 0.
pub fn create_thread_builder(mode: RuntimeMode, cpu_info: &CpuInfo) -> (b: ThreadBuilder)
    ensures
        b@.mode == mode,
        b@.cpu_info == cpu_info@,
        b@.worker_idx == 0,
{
    ThreadBuilder::new(mode, cpu_info)
}

} // verus!
