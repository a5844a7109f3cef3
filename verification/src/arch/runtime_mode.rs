//! Runtime modes: how many worker threads to run and whether to pin them,
//! chosen from the hardware the engine runs on.

use crate::arch::cpu_info::CpuInfo;
use crate::text::{bool_text, decimal_text, push_bool, push_decimal};
use vstd::prelude::*;

verus! {

/// The operational modes the engine can run in.
#[derive(Clone, PartialEq, Eq, Structural)]
pub enum RuntimeMode {
    /// Single-threaded mode for small systems or when simplicity matters
    /// most.
    SingleThread,
    /// Worker threads pinned to cores, with NUMA-aware work distribution.
    PinnedSharded {
        /// Number of worker threads to create.
        worker_count: usize,
        /// Whether to keep NUMA locality.
        numa_aware: bool,
    },
    /// Single-threaded regardless of the available resources (for debugging
    /// and testing).
    ForcedSingle,
    /// A stub that creates no real threads (for unit tests).
    TestStub,
}

/// The mode for a system with `logical_cores` cores: one thread on a single
/// core; otherwise pinned workers, one per core on up to four cores and one
/// core left to the OS beyond that, NUMA-aware when the topology allows.
pub open spec fn spec_select(logical_cores: usize, numa_available: bool) -> RuntimeMode {
    if logical_cores <= 1 {
        RuntimeMode::SingleThread
    } else {
        RuntimeMode::PinnedSharded {
            worker_count: if logical_cores <= 4 {
                logical_cores
            } else {
                (logical_cores - 1) as usize
            },
            numa_aware: numa_available,
        }
    }
}

/// `yes` or `no`.
pub open spec fn yes_no(b: bool) -> Seq<char> {
    if b {
        seq!['y', 'e', 's']
    } else {
        seq!['n', 'o']
    }
}

impl RuntimeMode {
    /// Number of worker threads the mode asks for.
    pub open spec fn spec_worker_count(self) -> usize {
        match self {
            RuntimeMode::PinnedSharded { worker_count, .. } => worker_count,
            _ => 1,
        }
    }

    /// Whether the mode keeps NUMA locality.
    pub open spec fn spec_numa_aware(self) -> bool {
        match self {
            RuntimeMode::PinnedSharded { numa_aware, .. } => numa_aware,
            _ => false,
        }
    }

    /// Whether the mode pins threads to cores.
    pub open spec fn spec_supports_pinning(self) -> bool {
        self is PinnedSharded
    }

    /// The human-readable description of the mode.
    pub open spec fn spec_description(self) -> Seq<char> {
        match self {
            RuntimeMode::SingleThread => "Single-threaded mode"@,
            RuntimeMode::PinnedSharded { worker_count, numa_aware } => "Pinned sharded mode with "@
                + decimal_text(worker_count as nat) + " workers (NUMA-aware: "@ + yes_no(numa_aware)
                + ")"@,
            RuntimeMode::ForcedSingle => "Forced single-threaded mode"@,
            RuntimeMode::TestStub => "Test stub mode"@,
        }
    }

    /// The debugging form of the mode, such as
    /// `PinnedSharded(workers=4, numa=true)`.
    pub open spec fn spec_debug_text(self) -> Seq<char> {
        match self {
            RuntimeMode::SingleThread => "SingleThread"@,
            RuntimeMode::PinnedSharded { worker_count, numa_aware } => "PinnedSharded(workers="@
                + decimal_text(worker_count as nat) + ", numa="@ + bool_text(numa_aware) + ")"@,
            RuntimeMode::ForcedSingle => "ForcedSingle"@,
            RuntimeMode::TestStub => "TestStub"@,
        }
    }

    /// Selects the most appropriate runtime mode for the system.
    pub fn select_for_system(cpu_info: &CpuInfo) -> (mode: RuntimeMode)
        ensures
            mode == spec_select(cpu_info@.logical_cores, cpu_info@.numa_available),
    {
        let logical_cores = cpu_info.logical_cores();
        if logical_cores <= 1 {
            return RuntimeMode::SingleThread;
        }
        let worker_count = if logical_cores <= 4 {
            logical_cores
        } else {
            logical_cores - 1
        };
        RuntimeMode::PinnedSharded { worker_count, numa_aware: cpu_info.is_numa_available() }
    }

    /// Returns the number of worker threads for this mode.
    pub fn worker_count(&self) -> (n: usize)
        ensures
            n == self.spec_worker_count(),
    {
        match self {
            RuntimeMode::PinnedSharded { worker_count, .. } => *worker_count,
            _ => 1,
        }
    }

    /// Checks whether this mode uses NUMA awareness.
    pub fn is_numa_aware(&self) -> (b: bool)
        ensures
            b == self.spec_numa_aware(),
    {
        match self {
            RuntimeMode::PinnedSharded { numa_aware, .. } => *numa_aware,
            _ => false,
        }
    }

    /// Checks whether this mode pins threads to cores.
    pub fn supports_pinning(&self) -> (b: bool)
        ensures
            b == self.spec_supports_pinning(),
    {
        match self {
            RuntimeMode::PinnedSharded { .. } => true,
            _ => false,
        }
    }

    /// Returns a human-readable description of this mode.
    pub fn description(&self) -> (d: String)
        ensures
            d@ == self.spec_description(),
    {
        match self {
            RuntimeMode::SingleThread => "Single-threaded mode".to_owned(),
            RuntimeMode::PinnedSharded { worker_count, numa_aware } => {
                let mut d = "Pinned sharded mode with ".to_owned();
                push_decimal(&mut d, *worker_count);
                d.append(" workers (NUMA-aware: ");
                if *numa_aware {
                    d.append("yes");
                } else {
                    d.append("no");
                }
                d.append(")");
                proof {
                    reveal_strlit("yes");
                    reveal_strlit("no");
                }
                d
            },
            RuntimeMode::ForcedSingle => "Forced single-threaded mode".to_owned(),
            RuntimeMode::TestStub => "Test stub mode".to_owned(),
        }
    }

    /// Returns the debugging form of this mode.
    pub fn debug_string(&self) -> (d: String)
        ensures
            d@ == self.spec_debug_text(),
    {
        match self {
            RuntimeMode::SingleThread => "SingleThread".to_owned(),
            RuntimeMode::PinnedSharded { worker_count, numa_aware } => {
                let mut d = "PinnedSharded(workers=".to_owned();
                push_decimal(&mut d, *worker_count);
                d.append(", numa=");
                push_bool(&mut d, *numa_aware);
                d.append(")");
                d
            },
            RuntimeMode::ForcedSingle => "ForcedSingle".to_owned(),
            RuntimeMode::TestStub => "TestStub".to_owned(),
        }
    }
}

/// A NUMA-aware mode always pins its threads.
pub proof fn lemma_numa_aware_pins(mode: RuntimeMode)
    ensures
        mode.spec_numa_aware() ==> mode.spec_supports_pinning(),
{
}

/// The selected mode never asks for more workers than there are logical
/// cores (beyond the single thread every mode has), pins exactly when the
/// system has more than one core, and is NUMA-aware only when the topology
/// is.
pub proof fn lemma_selection_fits_system(logical_cores: usize, numa_available: bool)
    ensures
        spec_select(logical_cores, numa_available).spec_worker_count() >= 1,
        logical_cores >= 1 ==> spec_select(logical_cores, numa_available).spec_worker_count()
            <= logical_cores,
        spec_select(logical_cores, numa_available).spec_supports_pinning() <==> logical_cores > 1,
        spec_select(logical_cores, numa_available).spec_numa_aware() ==> numa_available,
{
}

/// How many workers the selection gives: a single thread on at most one
/// core; on two to four cores one pinned worker per core; beyond four
/// cores exactly one core is left to the OS, so there are `logical_cores - 1`
/// pinned workers, however many cores there are. The mode is NUMA-aware
/// exactly when the topology is.
pub proof fn lemma_selection_worker_counts(logical_cores: usize, numa_available: bool)
    ensures
        logical_cores <= 1 ==> spec_select(logical_cores, numa_available)
            == RuntimeMode::SingleThread,
        2 <= logical_cores <= 4 ==> spec_select(logical_cores, numa_available)
            == (RuntimeMode::PinnedSharded {
            worker_count: logical_cores,
            numa_aware: numa_available,
        }),
        logical_cores > 4 ==> spec_select(logical_cores, numa_available)
            == (RuntimeMode::PinnedSharded {
            worker_count: (logical_cores - 1) as usize,
            numa_aware: numa_available,
        }),
        logical_cores > 4 ==> spec_select(logical_cores, numa_available).spec_worker_count() + 1
            == logical_cores,
{
}

} // verus!
