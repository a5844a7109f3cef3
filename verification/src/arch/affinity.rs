//! The thread-affinity calls, each handing back a receipt of what it did.
//!
//! A receipt records what went into or came out of one call: the cores read
//! from the system, or the core handed over and whether the system accepted
//! it. Receipts are made only here, by the calls themselves, so a contract
//! stated over a receipt speaks of a call that was really made.

use vstd::prelude::*;

verus! {

/// Size of the CPU set that affinities are read from and written to.
pub const CPU_SET_SIZE: usize = 1024;

/// Receipt of a read of the cores the current thread may run on.
pub struct CoreList {
    ids: Option<Vec<usize>>,
}

impl CoreList {
    /// The ids read, or `None` when the affinity mask could not be read.
    pub closed spec fn spec_ids(&self) -> Option<Seq<usize>> {
        match self.ids {
            Some(v) => Some(v@),
            None => None,
        }
    }

    /// Returns the ids read.
    pub fn ids(&self) -> (ids: &Option<Vec<usize>>)
        ensures
            match ids {
                Some(v) => self.spec_ids() == Some(v@),
                None => self.spec_ids() is None,
            },
    {
        &self.ids
    }
}

/// Receipt of a request to run the current thread on one core.
pub struct AffinityReceipt {
    core: usize,
    accepted: bool,
}

impl AffinityReceipt {
    /// The core handed to the system.
    pub closed spec fn spec_core(&self) -> usize {
        self.core
    }

    /// Whether the system accepted the request.
    pub closed spec fn spec_accepted(&self) -> bool {
        self.accepted
    }

    /// Returns whether the system accepted the request.
    pub fn accepted(&self) -> (b: bool)
        ensures
            b == self.spec_accepted(),
    {
        self.accepted
    }
}

/// `core_affinity::get_core_ids`: the ids of the cores the current thread may
/// run on, or `None` when the affinity mask cannot be read. What it returns
/// depends on the machine and the process; on Linux the crate reads them
/// from a CPU set of 1024 entries, so every id is below that.
#[verifier::external_body]
pub(crate) fn available_core_ids() -> (list: CoreList)
    ensures
        list.spec_ids() matches Some(v) ==> forall|i: int| 0 <= i < v.len() ==> v[i] < CPU_SET_SIZE,
{
    match core_affinity::get_core_ids() {
        Some(ids) => CoreList { ids: Some(ids.into_iter().map(|c| c.id).collect()) },
        None => CoreList { ids: None },
    }
}

/// `core_affinity::set_for_current`: asks the system to run the current
/// thread only on core `id` and reports whether it agreed. The receipt
/// records the core handed over; whether the system agrees depends on it.
/// The id must fit the 1024-entry CPU set the crate writes it into.
#[verifier::external_body]
pub(crate) fn pin_current_thread(id: usize) -> (receipt: AffinityReceipt)
    requires
        id < CPU_SET_SIZE,
    ensures
        receipt.spec_core() == id,
{
    AffinityReceipt { core: id, accepted: core_affinity::set_for_current(core_affinity::CoreId { id }) }
}

} // verus!
