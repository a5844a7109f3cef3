//! Worker placement: which core each new worker thread is pinned to, and how
//! a thread pins itself to a core.
//!
//! Spawning the threads is left to the caller; the builder decides, for each
//! worker in turn, whether it is pinned and to which core.

use crate::arch::cpu_info::{
    core_for_worker_defined, lemma_mock_round_robin, mock_view, spec_core_for_worker, CpuInfo,
    CpuInfoView,
};
use crate::arch::affinity::{
    available_core_ids, pin_current_thread, AffinityReceipt, CoreList, CPU_SET_SIZE,
};
use crate::arch::runtime_mode::RuntimeMode;
use vstd::prelude::*;

verus! {

/// Result of attempting to pin a thread to a core.
#[derive(Debug, Clone, Copy, PartialEq, Eq, Structural)]
pub enum PinningResult {
    /// Pinned to the requested core.
    Success,
    /// Pinned, but to the core at this position among the available ones
    /// rather than to the requested core.
    SuccessDifferentCore(usize),
    /// Pinning is not supported on this platform.
    Unsupported,
    /// Pinning failed for some other reason.
    Failed,
}

/// What the builder decided for one worker.
#[derive(Debug, Clone, Copy, PartialEq, Eq, Structural)]
pub struct WorkerPlan {
    /// The core the worker is to be pinned to, if any. The worker's thread
    /// pins itself with `pin_planned_worker`, whose outcome is the worker's
    /// pinning result.
    pub core_id: Option<usize>,
    /// Whether the worker is a test stub, run without a name or pinning.
    pub stub: bool,
}

/// What a `ThreadBuilder` holds.
pub struct ThreadBuilderView {
    /// The runtime mode that decides how threads are made.
    pub mode: RuntimeMode,
    /// The topology cores are chosen from.
    pub cpu_info: CpuInfoView,
    /// Index of the next worker.
    pub worker_idx: usize,
}

/// Builder for worker threads: hands out cores to workers in turn.
pub struct ThreadBuilder {
    mode: RuntimeMode,
    cpu_info: CpuInfo,
    worker_idx: usize,
}

impl View for ThreadBuilder {
    type V = ThreadBuilderView;

    closed spec fn view(&self) -> ThreadBuilderView {
        ThreadBuilderView {
            mode: self.mode,
            cpu_info: self.cpu_info@,
            worker_idx: self.worker_idx,
        }
    }
}

/// What the builder decides for the worker at `worker_idx`: a test stub runs
/// unpinned; otherwise a pinning mode pins it to its core and any other mode
/// leaves it unpinned.
pub open spec fn spec_plan(mode: RuntimeMode, info: CpuInfoView, worker_idx: usize) -> WorkerPlan {
    if mode is TestStub {
        WorkerPlan { core_id: None, stub: true }
    } else if mode.spec_supports_pinning() {
        WorkerPlan { core_id: Some(spec_core_for_worker(info, worker_idx)), stub: false }
    } else {
        WorkerPlan { core_id: None, stub: false }
    }
}

/// The builder can plan the worker at its current index: a pinning mode
/// needs a core for it, and a real thread needs a next index.
pub open spec fn can_plan(b: ThreadBuilderView) -> bool {
    !(b.mode is TestStub) ==> {
        &&& b.worker_idx < usize::MAX
        &&& b.mode.spec_supports_pinning() ==> core_for_worker_defined(b.cpu_info, b.worker_idx)
    }
}

impl ThreadBuilder {
    /// Creates a thread builder that starts at worker 0.
    pub fn new(mode: RuntimeMode, cpu_info: &CpuInfo) -> (b: ThreadBuilder)
        ensures
            b@.mode == mode,
            b@.cpu_info == cpu_info@,
            b@.worker_idx == 0,
    {
        ThreadBuilder { mode, cpu_info: cpu_info.clone(), worker_idx: 0 }
    }

    /// Whether the builder can plan its next worker (see `can_plan`).
    pub fn can_plan_next(&self) -> (b: bool)
        ensures
            b == can_plan(self@),
    {
        if matches!(self.mode, RuntimeMode::TestStub) {
            return true;
        }
        if self.worker_idx == usize::MAX {
            return false;
        }
        !self.mode.supports_pinning() || self.cpu_info.assigns_worker(self.worker_idx)
    }

    /// Decides where the next worker goes. A test stub leaves the worker
    /// index unchanged; any other worker moves it on by one.
    pub fn plan_next_worker(&mut self) -> (plan: WorkerPlan)
        requires
            can_plan(old(self)@),
        ensures
            plan == spec_plan(old(self)@.mode, old(self)@.cpu_info, old(self)@.worker_idx),
            final(self)@.mode == old(self)@.mode,
            final(self)@.cpu_info == old(self)@.cpu_info,
            final(self)@.worker_idx == if old(self)@.mode is TestStub {
                old(self)@.worker_idx
            } else {
                (old(self)@.worker_idx + 1) as usize
            },
    {
        if matches!(self.mode, RuntimeMode::TestStub) {
            return WorkerPlan { core_id: None, stub: true };
        }
        let core_id = if self.mode.supports_pinning() {
            Some(self.cpu_info.get_core_for_worker(self.worker_idx))
        } else {
            None
        };
        self.worker_idx = self.worker_idx + 1;
        WorkerPlan { core_id, stub: false }
    }
}

/// The position among the available cores that a thread asking for
/// `core_id` is pinned to: the requested position when it exists, otherwise
/// the request wrapped around the available cores; none when there are no
/// cores.
pub open spec fn spec_pin_choice(core_id: usize, available: Seq<usize>) -> Option<usize> {
    if core_id < available.len() {
        Some(core_id)
    } else if available.len() > 0 {
        Some((core_id as nat % available.len()) as usize)
    } else {
        None
    }
}

/// The result of pinning to `core_id`, given the cores the thread may run on
/// (`None` when they cannot be read) and whether setting the affinity
/// succeeded.
pub open spec fn spec_pinning_outcome(
    core_id: usize,
    available: Option<Seq<usize>>,
    pinned: bool,
) -> PinningResult {
    match available {
        None => PinningResult::Unsupported,
        Some(cores) => match spec_pin_choice(core_id, cores) {
            None => PinningResult::Failed,
            Some(pos) => if !pinned {
                PinningResult::Failed
            } else if core_id < cores.len() {
                PinningResult::Success
            } else {
                PinningResult::SuccessDifferentCore(pos)
            },
        },
    }
}

/// Chooses the position among the available cores to pin to.
pub fn pin_choice(core_id: usize, available: &Vec<usize>) -> (pos: Option<usize>)
    ensures
        pos == spec_pin_choice(core_id, available@),
        pos matches Some(p) ==> p < available@.len(),
{
    if core_id < available.len() {
        Some(core_id)
    } else if available.len() > 0 {
        Some(core_id % available.len())
    } else {
        None
    }
}

/// The pinning result for a request, given the available cores and whether
/// setting the affinity succeeded.
pub fn pinning_outcome(core_id: usize, available: &Option<Vec<usize>>, pinned: bool) -> (r:
    PinningResult)
    ensures
        r == spec_pinning_outcome(
            core_id,
            match available {
                Some(v) => Some(v@),
                None => None,
            },
            pinned,
        ),
{
    match available {
        None => PinningResult::Unsupported,
        Some(cores) => match pin_choice(core_id, cores) {
            None => PinningResult::Failed,
            Some(pos) => {
                if !pinned {
                    PinningResult::Failed
                } else if core_id < cores.len() {
                    PinningResult::Success
                } else {
                    PinningResult::SuccessDifferentCore(pos)
                }
            },
        },
    }
}

/// The core a thread asking for `core_id` hands to the affinity call, given
/// the cores it may run on: the available core at the chosen position, none
/// when the cores cannot be read or there are none.
pub open spec fn spec_pin_target(core_id: usize, available: Option<Seq<usize>>) -> Option<usize> {
    match available {
        None => None,
        Some(cores) => match spec_pin_choice(core_id, cores) {
            Some(pos) => Some(cores[pos as int]),
            None => None,
        },
    }
}

/// One attempt to pin the current thread: its result, with the receipts of
/// the calls it made.
pub struct PinAttempt {
    /// The pinning result.
    pub result: PinningResult,
    /// Receipt of the read of the available cores.
    pub cores: CoreList,
    /// Receipt of the request to run on one core, when one was made.
    pub request: Option<AffinityReceipt>,
}

impl PinAttempt {
    /// The attempt answers a request for `core_id`: the core handed to the
    /// system is `spec_pin_target` of the cores read (none when no request
    /// was made), and the result is `spec_pinning_outcome` of those cores and
    /// of whether the system accepted the request.
    pub open spec fn follows(&self, core_id: usize) -> bool {
        let pinned = match self.request {
            Some(r) => r.spec_accepted(),
            None => false,
        };
        &&& self.result == spec_pinning_outcome(core_id, self.cores.spec_ids(), pinned)
        &&& match self.request {
            Some(r) => Some(r.spec_core()),
            None => None,
        } == spec_pin_target(core_id, self.cores.spec_ids())
    }
}

/// Attempts to pin the current thread to core `core_id`: reads the cores the
/// thread may run on and asks the system to run it on the one at the chosen
/// position (the requested position when it exists, otherwise the request
/// wrapped around them). The result is that of `pinning_outcome` for the
/// cores read and the system's answer.
pub fn pin_thread_to_core(core_id: usize) -> (attempt: PinAttempt)
    ensures
        attempt.follows(core_id),
{
    let cores = available_core_ids();
    let request = match cores.ids() {
        None => None,
        Some(ids) => match pin_choice(core_id, ids) {
            None => None,
            Some(pos) => {
                proof {
                    let read = cores.spec_ids()->0;
                    assert(read == ids@);
                    assert(read[pos as int] < CPU_SET_SIZE);
                }
                Some(pin_current_thread(ids[pos]))
            },
        },
    };
    let pinned = match &request {
        Some(r) => r.accepted(),
        None => false,
    };
    let result = pinning_outcome(core_id, cores.ids(), pinned);
    PinAttempt { result, cores, request }
}

/// The pinning result of a worker planned on core `core_id`: for a planned
/// core, the result of pinning its thread there, with the attempt behind it;
/// `Unsupported` for a worker left unpinned.
pub fn pin_planned_worker(core_id: Option<usize>) -> (r: (PinningResult, Option<PinAttempt>))
    ensures
        core_id is None ==> r.0 == PinningResult::Unsupported && r.1 is None,
        core_id matches Some(c) ==> (r.1 matches Some(a) && a.follows(c) && r.0 == a.result),
{
    match core_id {
        Some(c) => {
            let attempt = pin_thread_to_core(c);
            (attempt.result, Some(attempt))
        },
        None => (PinningResult::Unsupported, None),
    }
}

/// A worker pinned to a different core is told a position among the
/// available cores, and pinning succeeds only where setting the affinity
/// did.
pub proof fn lemma_pinning_outcome_sound(core_id: usize, available: Seq<usize>, pinned: bool)
    ensures
        spec_pinning_outcome(core_id, Some(available), pinned) matches PinningResult::SuccessDifferentCore(
            pos,
        ) ==> pos < available.len() && core_id >= available.len(),
        spec_pinning_outcome(core_id, Some(available), pinned) is Success ==> pinned && core_id
            < available.len(),
        !pinned ==> spec_pinning_outcome(core_id, Some(available), pinned) is Failed,
{
}

/// On a mock topology of `l` cores, a pinning mode pins worker `w` to core
/// `w % l`, so every pinned worker gets a core the system has; a mode that
/// does not pin leaves every worker unpinned.
pub proof fn lemma_planned_cores(mode: RuntimeMode, l: usize, m: usize, w: usize)
    requires
        l > 0,
    ensures
        can_plan(ThreadBuilderView { mode, cpu_info: mock_view(l, m), worker_idx: w })
            || w == usize::MAX,
        mode.spec_supports_pinning() ==> spec_plan(mode, mock_view(l, m), w).core_id == Some(
            (w % l) as usize,
        ),
        !mode.spec_supports_pinning() ==> spec_plan(mode, mock_view(l, m), w).core_id is None,
{
    lemma_mock_round_robin(l, m, w);
}

/// A new builder in a pinning mode can plan its first worker wherever a
/// core can be computed for worker 0, and pins it to the core
/// `get_core_for_worker(0)` gives; each later plan moves on to the next
/// worker index (see `plan_next_worker`).
pub proof fn lemma_first_plan(mode: RuntimeMode, info: CpuInfoView)
    requires
        mode.spec_supports_pinning(),
        core_for_worker_defined(info, 0),
    ensures
        can_plan(ThreadBuilderView { mode, cpu_info: info, worker_idx: 0 }),
        spec_plan(mode, info, 0) == (WorkerPlan {
            core_id: Some(spec_core_for_worker(info, 0)),
            stub: false,
        }),
{
}

/// The builder after `k` workers are planned, each as `plan_next_worker`
/// leaves it: a test stub stays where it is, any other mode moves on by one
/// worker each time.
pub open spec fn after_plans(b: ThreadBuilderView, k: nat) -> ThreadBuilderView
    decreases k,
{
    if k == 0 {
        b
    } else {
        let prev = after_plans(b, (k - 1) as nat);
        if prev.mode is TestStub {
            prev
        } else {
            ThreadBuilderView { worker_idx: (prev.worker_idx + 1) as usize, ..prev }
        }
    }
}

/// Workers are planned in turn: after `k` plans a new builder in a pinning
/// mode plans worker `k`, on the core `get_core_for_worker(k)` gives, as
/// long as a core can be computed for it.
pub proof fn lemma_plans_in_turn(mode: RuntimeMode, info: CpuInfoView, k: nat)
    requires
        mode.spec_supports_pinning(),
        k < usize::MAX,
        core_for_worker_defined(info, k as usize),
    ensures
        after_plans(ThreadBuilderView { mode, cpu_info: info, worker_idx: 0 }, k).worker_idx == k,
        after_plans(ThreadBuilderView { mode, cpu_info: info, worker_idx: 0 }, k).mode == mode,
        after_plans(ThreadBuilderView { mode, cpu_info: info, worker_idx: 0 }, k).cpu_info == info,
        can_plan(after_plans(ThreadBuilderView { mode, cpu_info: info, worker_idx: 0 }, k)),
        spec_plan(mode, info, k as usize).core_id == Some(spec_core_for_worker(info, k as usize)),
{
    lemma_plans_in_turn_idx(mode, info, k);
}

/// After `k` plans from worker 0 in a pinning mode, the builder is at worker
/// `k` with its mode and topology unchanged.
proof fn lemma_plans_in_turn_idx(mode: RuntimeMode, info: CpuInfoView, k: nat)
    requires
        mode.spec_supports_pinning(),
        k < usize::MAX,
    ensures
        after_plans(ThreadBuilderView { mode, cpu_info: info, worker_idx: 0 }, k).worker_idx == k,
        after_plans(ThreadBuilderView { mode, cpu_info: info, worker_idx: 0 }, k).mode == mode,
        after_plans(ThreadBuilderView { mode, cpu_info: info, worker_idx: 0 }, k).cpu_info == info,
    decreases k,
{
    if k > 0 {
        lemma_plans_in_turn_idx(mode, info, (k - 1) as nat);
    }
}

/// A thread asking for the core at position `c` among the cores it may run
/// on is handed exactly the core at that position when there is one; a
/// request past the end wraps around the available cores; with no cores, or
/// none read, nothing is handed over.
pub proof fn lemma_pin_target_position(c: usize, available: Seq<usize>)
    ensures
        c < available.len() ==> spec_pin_target(c, Some(available)) == Some(available[c as int]),
        c >= available.len() > 0 ==> spec_pin_target(c, Some(available)) == Some(
            available[(c as int) % (available.len() as int)],
        ),
        available.len() == 0 ==> spec_pin_target(c, Some(available)) is None,
        spec_pin_target(c, None) is None,
{
}

} // verus!
