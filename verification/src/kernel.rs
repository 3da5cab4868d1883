//! The kernel: process table, dispatch and the main-loop steps.
//!
//! The kernel owns the table of process slots and everything that crosses
//! process boundaries: loading images into free slots, decoding and
//! dispatching traps, faulting and restarting processes, asking the
//! scheduler whom to run, and the deferred-call flags interrupt handlers
//! leave for the next loop iteration. Every mutating operation here touches
//! at most the one slot it addresses — the other processes' records are
//! stated unchanged, which is the isolation the whole design exists for.

use vstd::prelude::*;

use crate::caps::{MainLoopCapability, MemoryAllocationCapability, ProcessManagementCapability};
use crate::mem::Region;
use crate::mpu::{Permissions, ProtectedRegion};
use crate::image::{image_valid, spec_load_error, LoadError};
use crate::process::{
    spec_delivery_context, spec_syscall_outcome, spec_syscall_transition, Callback,
    DispatchOutcome, FaultAction, FaultPolicy, GrantError, GrantHandle, Process, State,
};
use crate::sched::{Scheduler, SchedulingDecision, StoppedReason};
use crate::syscall::{decode, spec_decode, Syscall};

verus! {

/// The driver numbers a board has registered. The dispatcher routes a call
/// to a driver exactly when its number is in here; any other number gets
/// `RETURN_NO_SUCH_DRIVER`, never a fault.
pub struct DriverRegistry {
    pub drivers: Vec<usize>,
}

impl DriverRegistry {
    /// Whether `d` addresses a registered driver.
    pub open spec fn spec_has(self, d: int) -> bool {
        exists|i: int| 0 <= i < self.drivers@.len() && (#[trigger] self.drivers@[i]) == d
    }

    pub fn new(drivers: Vec<usize>) -> (r: DriverRegistry)
        ensures
            r.drivers == drivers,
    {
        DriverRegistry { drivers }
    }

    /// Runtime lookup, equal to [`DriverRegistry::spec_has`].
    #[verifier::loop_isolation(false)]
    pub fn has_driver(&self, d: usize) -> (r: bool)
        ensures
            r == self.spec_has(d as int),
    {
        let n = self.drivers.len();
        let mut i: usize = 0;
        while i < n
            invariant
                i <= n,
                forall|j: int| 0 <= j < i ==> (#[trigger] self.drivers@[j]) != d,
            decreases n - i,
        {
            if self.drivers[i] == d {
                return true;
            }
            i = i + 1;
        }
        false
    }
}

/// What became of a faulted process.
#[derive(Clone, Copy, PartialEq, Eq, Structural, Debug)]
pub enum FaultOutcome {
    /// Its policy said restart: memory wiped, generation bumped.
    Restarted,
    /// Its policy said stop: the slot stays but is never scheduled again.
    Stopped,
}

/// The first free slot of a process table, scanning from `i`.
pub open spec fn first_free_from(t: Seq<Option<Process>>, i: int) -> Option<int>
    decreases t.len() - i,
{
    if i < 0 || i >= t.len() {
        None
    } else if t[i] is None {
        Some(i)
    } else {
        first_free_from(t, i + 1)
    }
}


/// How many of the first `upto` applications get a slot when the table has
/// `nslots` slots and each process is offered `ram_each` bytes of RAM:
/// valid images are placed in order into successive slots until the table
/// is full; invalid images are skipped.
pub open spec fn placed_count(
    apps: Seq<(Vec<u8>, usize, usize)>,
    ram_each: int,
    nslots: int,
    upto: int,
) -> int
    decreases upto,
{
    if upto <= 0 {
        0
    } else {
        let prev = placed_count(apps, ram_each, nslots, upto - 1);
        if prev < nslots && image_valid(apps[upto - 1].0@, ram_each) {
            prev + 1
        } else {
            prev
        }
    }
}

/// The placed count never exceeds the images seen or the table size.
proof fn lemma_placed_count_bounds(
    apps: Seq<(Vec<u8>, usize, usize)>,
    ram_each: int,
    nslots: int,
    upto: int,
)
    requires
        0 <= upto,
        0 <= nslots,
    ensures
        0 <= placed_count(apps, ram_each, nslots, upto) <= upto,
        placed_count(apps, ram_each, nslots, upto) <= nslots,
    decreases upto,
{
    if upto > 0 {
        lemma_placed_count_bounds(apps, ram_each, nslots, upto - 1);
    }
}

/// Scanning for a free slot skips a fully occupied prefix.
proof fn lemma_first_free_skip(t: Seq<Option<Process>>, k: int, s: int)
    requires
        0 <= k <= s <= t.len(),
        forall|j: int| k <= j < s ==> (#[trigger] t[j]) is Some,
    ensures
        first_free_from(t, k) == first_free_from(t, s),
    decreases s - k,
{
    if k < s {
        lemma_first_free_skip(t, k + 1, s);
    }
}

/// What a fault does to the faulting process: the outcome its policy
/// picks.
pub open spec fn spec_fault_outcome(p: Process) -> FaultOutcome {
    match p.fault_policy.spec_decide(p.restarts) {
        FaultAction::Restart => FaultOutcome::Restarted,
        FaultAction::Stop => FaultOutcome::Stopped,
    }
}

/// The fault relation for the process in `slot`: under a restart policy
/// the record becomes a fresh load of its own image at the next
/// generation; under a stop policy only the state moves, terminally, to
/// `Stopped`. (`Faulted` is a transient step of the lifecycle: the kernel
/// applies the policy atomically, so the stored state goes straight to the
/// policy's outcome.)
pub open spec fn spec_fault_transition(p: Process, q: Process, slot: int) -> bool {
    &&& (p.fault_policy.spec_decide(p.restarts) == FaultAction::Restart ==> q.loaded_from(
        p.flash@,
        slot,
        p.flash_base as int,
        p.ram_base as int,
        p.ram@.len() as int,
        p.fault_policy,
        p.callbacks.spec_capacity(),
        (p.generation + 1) as u64,
        (p.restarts + 1) as u32,
    ) && q.generation > p.generation)
    &&& (p.fault_policy.spec_decide(p.restarts) == FaultAction::Stop ==> q == (Process {
        state: State::Stopped,
        ..p
    }))
}

/// The kernel's owned state: one slot per loadable process, plus the
/// pending flags of the deferred-call mechanism.
pub struct Kernel {
    pub processes: Vec<Option<Process>>,
    pub deferred: Vec<bool>,
}

impl Kernel {
    /// Every occupied slot holds a well-formed process that knows its own
    /// slot index.
    pub open spec fn wf(self) -> bool {
        forall|i: int|
            0 <= i < self.processes@.len() ==> ((#[trigger] self.processes@[i]) matches Some(p)
                ==> p.wf() && p.slot == i)
    }

    /// A kernel with `nslots` empty process slots and `deferred_slots`
    /// deferred-call flags, all clear.
    pub fn new(nslots: usize, deferred_slots: usize) -> (k: Kernel)
        ensures
            k.wf(),
            k.processes@.len() == nslots,
            forall|i: int| 0 <= i < nslots ==> (#[trigger] k.processes@[i]) is None,
            k.deferred@.len() == deferred_slots,
            forall|i: int| 0 <= i < deferred_slots ==> !(#[trigger] k.deferred@[i]),
    {
        let mut processes: Vec<Option<Process>> = Vec::new();
        let mut i: usize = 0;
        while i < nslots
            invariant
                i <= nslots,
                processes@.len() == i,
                forall|j: int| 0 <= j < i ==> (#[trigger] processes@[j]) is None,
            decreases nslots - i,
        {
            processes.push(None);
            i = i + 1;
        }
        let mut deferred: Vec<bool> = Vec::new();
        let mut d: usize = 0;
        while d < deferred_slots
            invariant
                d <= deferred_slots,
                deferred@.len() == d,
                forall|j: int| 0 <= j < d ==> !(#[trigger] deferred@[j]),
            decreases deferred_slots - d,
        {
            deferred.push(false);
            d = d + 1;
        }
        Kernel { processes, deferred }
    }

    /// Number of process slots.
    pub fn num_slots(&self) -> (r: usize)
        ensures
            r == self.processes@.len(),
    {
        self.processes.len()
    }

    /// The first free slot, exactly [`first_free_from`] at zero.
    #[verifier::loop_isolation(false)]
    fn first_free_slot(&self) -> (r: Option<usize>)
        ensures
            r matches Some(s) ==> first_free_from(self.processes@, 0) == Some(s as int) && s
                < self.processes@.len(),
            r is None ==> first_free_from(self.processes@, 0) is None,
    {
        let n = self.processes.len();
        let mut i: usize = 0;
        while i < n
            invariant
                i <= n,
                first_free_from(self.processes@, i as int) == first_free_from(self.processes@, 0),
            decreases n - i,
        {
            if self.processes[i].is_none() {
                return Some(i);
            }
            i = i + 1;
        }
        None
    }

    /// Loads a process image into the first free slot. The header is
    /// validated against `ram_size` bytes of RAM before anything changes;
    /// an invalid image or a full table is reported with the exact error
    /// and mutates no kernel state. Requires the process-management
    /// capability: only board-integration code may load processes.
    #[verifier::rlimit(100)]
    pub fn load_process(
        &mut self,
        image: Vec<u8>,
        flash_base: usize,
        ram_base: usize,
        ram_size: usize,
        policy: FaultPolicy,
        queue_cap: usize,
        _cap: &ProcessManagementCapability,
    ) -> (r: Result<usize, LoadError>)
        requires
            old(self).wf(),
            queue_cap >= 1,
            flash_base + image@.len() <= usize::MAX,
            ram_base + ram_size <= usize::MAX,
        ensures
            final(self).wf(),
            final(self).deferred == old(self).deferred,
            final(self).processes@.len() == old(self).processes@.len(),
            r is Ok <==> (first_free_from(old(self).processes@, 0) is Some && image_valid(
                image@,
                ram_size as int,
            )),
            first_free_from(old(self).processes@, 0) is None ==> r == Err::<usize, LoadError>(
                LoadError::OutOfSlots,
            ) && final(self).processes@ == old(self).processes@,
            first_free_from(old(self).processes@, 0) matches Some(s) ==> {
                &&& !image_valid(image@, ram_size as int) ==> r == Err::<usize, LoadError>(
                    spec_load_error(image@, ram_size as int),
                ) && final(self).processes@ == old(self).processes@
                &&& image_valid(image@, ram_size as int) ==> r == Ok::<usize, LoadError>(s as usize)
                    && (final(self).processes@[s] matches Some(p) && p.wf() && p.loaded_from(
                    image@,
                    s,
                    flash_base as int,
                    ram_base as int,
                    ram_size as int,
                    policy,
                    queue_cap as int,
                    0,
                    0,
                )) && (forall|j: int|
                    0 <= j < old(self).processes@.len() && j != s ==> final(self).processes@[j]
                        == old(self).processes@[j])
            },
    {
        let slot = match self.first_free_slot() {
            Some(s) => s,
            None => {
                return Err(LoadError::OutOfSlots);
            },
        };
        let p = match Process::load(slot, image, flash_base, ram_base, ram_size, policy, queue_cap)
        {
            Ok(p) => p,
            Err(e) => {
                return Err(e);
            },
        };
        self.processes[slot] = Some(p);
        Ok(slot)
    }


    /// Loads a batch of applications at boot, the board-integration entry
    /// point: each element carries an image and the flash and RAM base
    /// addresses the board assigned it, and every process is offered
    /// `ram_each` bytes of RAM. Valid images fill successive slots from
    /// zero until the table is full; invalid images are skipped without
    /// mutating anything. Returns how many processes were placed — exactly
    /// [`placed_count`]. To be called once, on an empty table, before the
    /// main loop is entered.
    #[verifier::loop_isolation(false)]
    #[verifier::rlimit(100)]
    pub fn load_processes(
        &mut self,
        apps: &Vec<(Vec<u8>, usize, usize)>,
        ram_each: usize,
        policy: FaultPolicy,
        queue_cap: usize,
        cap: &ProcessManagementCapability,
    ) -> (n: usize)
        requires
            old(self).wf(),
            queue_cap >= 1,
            forall|i: int|
                0 <= i < apps@.len() ==> (#[trigger] apps@[i]).1 + apps@[i].0@.len() <= usize::MAX
                    && apps@[i].2 + ram_each <= usize::MAX,
            forall|i: int|
                0 <= i < old(self).processes@.len() ==> (#[trigger] old(self).processes@[i])
                    is None,
        ensures
            final(self).wf(),
            final(self).deferred == old(self).deferred,
            final(self).processes@.len() == old(self).processes@.len(),
            n == placed_count(
                apps@,
                ram_each as int,
                old(self).processes@.len() as int,
                apps@.len() as int,
            ),
            forall|s: int|
                n <= s < final(self).processes@.len() ==> (#[trigger] final(self).processes@[s])
                    is None,
            forall|i: int|
                0 <= i < apps@.len() ==> {
                    let s = placed_count(
                        apps@,
                        ram_each as int,
                        old(self).processes@.len() as int,
                        i,
                    );
                    s < old(self).processes@.len() && image_valid(
                        (#[trigger] apps@[i]).0@,
                        ram_each as int,
                    ) ==> (final(self).processes@[s] matches Some(p) && p.loaded_from(
                        apps@[i].0@,
                        s,
                        apps@[i].1 as int,
                        apps@[i].2 as int,
                        ram_each as int,
                        policy,
                        queue_cap as int,
                        0,
                        0,
                    ))
                },
    {
        let nslots = self.processes.len();
        let napps = apps.len();
        let mut i: usize = 0;
        let mut placed: usize = 0;
        while i < napps
            invariant
                i <= napps,
                placed == placed_count(apps@, ram_each as int, nslots as int, i as int),
                placed <= nslots,
                self.wf(),
                self.deferred == old(self).deferred,
                self.processes@.len() == nslots,
                forall|j: int| 0 <= j < placed ==> (#[trigger] self.processes@[j]) is Some,
                forall|j: int|
                    placed <= j < nslots ==> (#[trigger] self.processes@[j]) is None,
                forall|m: int|
                    0 <= m < i ==> {
                        let s = placed_count(apps@, ram_each as int, nslots as int, m);
                        s < nslots && image_valid((#[trigger] apps@[m]).0@, ram_each as int) ==> (
                        self.processes@[s] matches Some(p) && p.loaded_from(
                            apps@[m].0@,
                            s,
                            apps@[m].1 as int,
                            apps@[m].2 as int,
                            ram_each as int,
                            policy,
                            queue_cap as int,
                            0,
                            0,
                        ))
                    },
            decreases napps - i,
        {
            let entry = &apps[i];
            let image = entry.0.clone();
            proof {
                assert(image@ =~= apps@[i as int].0@);
            }
            if placed < nslots {
                proof {
                    lemma_first_free_skip(self.processes@, 0, placed as int);
                }
                let r = self.load_process(
                    image,
                    entry.1,
                    entry.2,
                    ram_each,
                    policy,
                    queue_cap,
                    cap,
                );
                if r.is_ok() {
                    placed = placed + 1;
                }
            }
            i = i + 1;
        }
        placed
    }

    /// Applies the process's fault policy to the process in `slot`: restart
    /// (memory wiped back to a fresh load of its image, generation strictly
    /// increased) or stop (terminal). Every other slot is untouched — one
    /// process's fault can never reach another process's record.
    #[verifier::rlimit(100)]
    pub fn handle_fault(&mut self, slot: usize) -> (r: FaultOutcome)
        requires
            old(self).wf(),
            slot < old(self).processes@.len(),
            old(self).processes@[slot as int] matches Some(p) && (p.fault_policy.spec_decide(
                p.restarts,
            ) == FaultAction::Restart ==> p.generation < u64::MAX && p.restarts < u32::MAX),
        ensures
            final(self).wf(),
            final(self).deferred == old(self).deferred,
            final(self).processes@.len() == old(self).processes@.len(),
            forall|j: int|
                0 <= j < old(self).processes@.len() && j != slot ==> final(self).processes@[j]
                    == old(self).processes@[j],
            old(self).processes@[slot as int] matches Some(p) ==> r == spec_fault_outcome(p) && (
            final(self).processes@[slot as int] matches Some(q) && spec_fault_transition(
                p,
                q,
                slot as int,
            )),
    {
        let popt = &mut self.processes[slot];
        match popt {
            Some(p) => {
                let action = p.fault_policy.decide(p.restarts);
                match action {
                    FaultAction::Restart => {
                        p.restart();
                        FaultOutcome::Restarted
                    },
                    FaultAction::Stop => {
                        p.state = State::Stopped;
                        FaultOutcome::Stopped
                    },
                }
            },
            None => {
                proof {
                    assert(false);
                }
                FaultOutcome::Stopped
            },
        }
    }

    /// The isolation boundary, exercised: code running as the process in
    /// `slot` touches `addr`. An address inside the process's own flash or
    /// RAM changes nothing and returns `None`; any other address always
    /// faults the process — and only it: every other slot is stated
    /// unchanged. No access outside a process's configured regions can
    /// observe or modify anything.
    #[verifier::rlimit(100)]
    pub fn memory_access(&mut self, slot: usize, addr: usize) -> (r: Option<FaultOutcome>)
        requires
            old(self).wf(),
            slot < old(self).processes@.len(),
            old(self).processes@[slot as int] matches Some(p) && (p.fault_policy.spec_decide(
                p.restarts,
            ) == FaultAction::Restart ==> p.generation < u64::MAX && p.restarts < u32::MAX),
        ensures
            final(self).wf(),
            final(self).deferred == old(self).deferred,
            final(self).processes@.len() == old(self).processes@.len(),
            forall|j: int|
                0 <= j < old(self).processes@.len() && j != slot ==> final(self).processes@[j]
                    == old(self).processes@[j],
            old(self).processes@[slot as int] matches Some(p) ==> {
                &&& p.allows_addr(addr as int) ==> r is None && final(self).processes@ == old(self).processes@
                &&& !p.allows_addr(addr as int) ==> r == Some(spec_fault_outcome(p)) && (final(self).processes@[slot as int] matches Some(q) && spec_fault_transition(
                    p,
                    q,
                    slot as int,
                ))
            },
    {
        let allowed = match &self.processes[slot] {
            Some(p) => {
                proof {
                    p.lemma_wf_region_bounds();
                }
                p.allows_address(addr)
            },
            None => {
                proof {
                    assert(false);
                }
                false
            },
        };
        if allowed {
            None
        } else {
            Some(self.handle_fault(slot))
        }
    }

    /// The driver number the decoded call addresses is registered; calls
    /// that address no driver count as known.
    pub open spec fn driver_known(registry: DriverRegistry, sc: crate::syscall::Syscall) -> bool {
        match crate::process::syscall_driver(sc) {
            Some(d) => registry.spec_has(d as int),
            None => true,
        }
    }

    /// The system-call dispatcher: decodes the trap the process in `slot`
    /// raised and applies it. A trap outside the ABI faults the process —
    /// per the kernel-wide rule that anything unexplained is treated as a
    /// protection fault of the process that caused it. A decoded call is
    /// applied to the one addressed process: an unknown driver number is
    /// answered with `RETURN_NO_SUCH_DRIVER`, an Allow buffer outside the
    /// caller's RAM with `RETURN_INVALID_BUFFER` (the record unchanged), a
    /// Command on a registered driver is routed out as `InvokeDriver`.
    /// Every other slot is untouched.
    #[verifier::rlimit(100)]
    pub fn handle_trap(
        &mut self,
        slot: usize,
        class: usize,
        arg0: usize,
        arg1: usize,
        arg2: usize,
        arg3: usize,
        registry: &DriverRegistry,
    ) -> (r: DispatchOutcome)
        requires
            old(self).wf(),
            slot < old(self).processes@.len(),
            old(self).processes@[slot as int] matches Some(p) && (p.fault_policy.spec_decide(
                p.restarts,
            ) == FaultAction::Restart ==> p.generation < u64::MAX && p.restarts < u32::MAX),
        ensures
            final(self).wf(),
            final(self).deferred == old(self).deferred,
            final(self).processes@.len() == old(self).processes@.len(),
            forall|j: int|
                0 <= j < old(self).processes@.len() && j != slot ==> final(self).processes@[j]
                    == old(self).processes@[j],
            spec_decode(class, arg0, arg1, arg2, arg3) is None <==> r
                == DispatchOutcome::FaultedCall,
            spec_decode(class, arg0, arg1, arg2, arg3) matches Some(sc) ==> r
                == spec_syscall_outcome(sc, Self::driver_known(*registry, sc)),
            spec_decode(class, arg0, arg1, arg2, arg3) matches Some(sc) ==> (old(self).processes@[
                slot as int
            ] matches Some(p) && final(self).processes@[slot as int] matches Some(q)
                && spec_syscall_transition(p, q, sc, Self::driver_known(*registry, sc))),
            r == DispatchOutcome::FaultedCall ==> (old(self).processes@[slot as int] matches Some(p) && final(self).processes@[slot as int] matches Some(q) && spec_fault_transition(
                p,
                q,
                slot as int,
            )),
    {
        let sc = match decode(class, arg0, arg1, arg2, arg3) {
            Some(sc) => sc,
            None => {
                self.handle_fault(slot);
                return DispatchOutcome::FaultedCall;
            },
        };
        let has_driver = match sc {
            crate::syscall::Syscall::Subscribe { driver, .. } => registry.has_driver(driver),
            crate::syscall::Syscall::Command { driver, .. } => registry.has_driver(driver),
            crate::syscall::Syscall::ReadWriteAllow { driver, .. } => registry.has_driver(driver),
            crate::syscall::Syscall::ReadOnlyAllow { driver, .. } => registry.has_driver(driver),
            _ => true,
        };
        let popt = &mut self.processes[slot];
        match popt {
            Some(p) => p.apply_syscall(sc, has_driver),
            None => {
                proof {
                    assert(false);
                }
                DispatchOutcome::Handled
            },
        }
    }

    /// Writes a driver's Command reply into the process's saved argument
    /// registers, so the process sees it when it resumes. Every other slot
    /// is untouched.
    pub fn complete_command(&mut self, slot: usize, code: usize, val0: usize, val1: usize)
        requires
            old(self).wf(),
            slot < old(self).processes@.len(),
            old(self).processes@[slot as int] is Some,
        ensures
            final(self).wf(),
            final(self).deferred == old(self).deferred,
            final(self).processes@.len() == old(self).processes@.len(),
            forall|j: int|
                0 <= j < old(self).processes@.len() && j != slot ==> final(self).processes@[j]
                    == old(self).processes@[j],
            old(self).processes@[slot as int] matches Some(p) ==> final(self).processes@[
                slot as int
            ] == Some(crate::process::with_result_words(p, code, val0, val1)),
    {
        let popt = &mut self.processes[slot];
        match popt {
            Some(p) => {
                p.write_result_words(code, val0, val1);
            },
            None => {
                proof {
                    assert(false);
                }
            },
        }
    }

    /// Queues a callback for the process in `slot`, on behalf of a driver
    /// that holds a reference from generation `generation`. A stale
    /// reference — the process restarted since — is detected and the
    /// callback safely dropped rather than delivered to the wrong
    /// incarnation. A full queue drops the callback and counts it. Every
    /// other slot is untouched.
    #[verifier::rlimit(100)]
    pub fn schedule_callback(&mut self, slot: usize, generation: u64, cb: Callback) -> (r: bool)
        requires
            old(self).wf(),
            slot < old(self).processes@.len(),
        ensures
            final(self).wf(),
            final(self).deferred == old(self).deferred,
            final(self).processes@.len() == old(self).processes@.len(),
            forall|j: int|
                0 <= j < old(self).processes@.len() && j != slot ==> final(self).processes@[j]
                    == old(self).processes@[j],
            old(self).processes@[slot as int] is None ==> !r && final(self).processes@ == old(self).processes@,
            old(self).processes@[slot as int] matches Some(p) ==> {
                &&& p.generation != generation ==> !r && final(self).processes@ == old(self).processes@
                &&& p.generation == generation ==> (final(self).processes@[
                    slot as int
                ] matches Some(q) && {
                    &&& r <==> p.callbacks.view().len() < p.callbacks.spec_capacity()
                    &&& r ==> q.callbacks.view() == p.callbacks.view().push(cb)
                        && q.dropped_callbacks == p.dropped_callbacks
                    &&& !r ==> q.callbacks.view() == p.callbacks.view() && q.dropped_callbacks == (
                    if p.dropped_callbacks < u64::MAX {
                        p.dropped_callbacks + 1
                    } else {
                        p.dropped_callbacks as int
                    })
                    &&& q.ram@ == p.ram@ && q.state == p.state && q.generation == p.generation
                        && q.grants@ == p.grants@ && q.subscriptions@ == p.subscriptions@
                        && q.context == p.context
                })
            },
    {
        let popt = &mut self.processes[slot];
        match popt {
            Some(p) => {
                if p.generation != generation {
                    return false;
                }
                p.enqueue_callback(cb)
            },
            None => false,
        }
    }

    /// Carves grant storage for `capsule` out of the RAM of the process in
    /// `slot`, as [`Process::allocate_grant`] states: a capsule that
    /// already holds a grant gets its existing handle back; a grant that
    /// would collide with the process-owned area is refused with
    /// `OutOfMemory` and changes nothing. Every other slot is untouched.
    /// Requires the memory-allocation capability.
    #[verifier::rlimit(100)]
    pub fn allocate_grant(
        &mut self,
        slot: usize,
        capsule: usize,
        size: usize,
        _cap: &MemoryAllocationCapability,
    ) -> (r: Result<GrantHandle, GrantError>)
        requires
            old(self).wf(),
            slot < old(self).processes@.len(),
            old(self).processes@[slot as int] is Some,
        ensures
            final(self).wf(),
            final(self).deferred == old(self).deferred,
            final(self).processes@.len() == old(self).processes@.len(),
            forall|j: int|
                0 <= j < old(self).processes@.len() && j != slot ==> final(self).processes@[j]
                    == old(self).processes@[j],
            old(self).processes@[slot as int] matches Some(p) ==> {
                &&& (r is Ok <==> (p.has_grant_for(capsule as int) || size <= p.grant_room()))
                &&& r is Err ==> final(self).processes@ == old(self).processes@ && r == Err::<
                    GrantHandle,
                    GrantError,
                >(GrantError::OutOfMemory)
                &&& r matches Ok(h) ==> h.slot == slot && h.generation == p.generation && h.capsule
                    == capsule && (final(self).processes@[slot as int] matches Some(q)
                    && q.has_grant_for(capsule as int) && q.ram@ == p.ram@ && q.state == p.state
                    && q.generation == p.generation && q.subscriptions@ == p.subscriptions@
                    && q.context == p.context)
                &&& p.has_grant_for(capsule as int) ==> final(self).processes@ == old(self).processes@
            },
    {
        let r = {
            let popt = &mut self.processes[slot];
            match popt {
                Some(p) => p.allocate_grant(capsule, size),
                None => {
                    proof {
                        assert(false);
                    }
                    Err(GrantError::OutOfMemory)
                },
            }
        };
        proof {
            if self.processes@[slot as int] == old(self).processes@[slot as int] {
                assert(self.processes@ =~= old(self).processes@);
            }
        }
        r
    }

    /// Which slots hold a runnable process right now.
    #[verifier::loop_isolation(false)]
    fn runnable_map(&self) -> (r: Vec<bool>)
        requires
            self.wf(),
        ensures
            r@.len() == self.processes@.len(),
            forall|i: int|
                0 <= i < self.processes@.len() ==> r@[i] == (self.processes@[i] matches Some(p)
                    && p.spec_runnable()),
    {
        let n = self.processes.len();
        let mut map: Vec<bool> = Vec::new();
        let mut i: usize = 0;
        while i < n
            invariant
                i <= n,
                map@.len() == i,
                forall|j: int|
                    0 <= j < i ==> map@[j] == (self.processes@[j] matches Some(p)
                        && p.spec_runnable()),
            decreases n - i,
        {
            let runnable = match &self.processes[i] {
                Some(p) => p.runnable(),
                None => false,
            };
            map.push(runnable);
            i = i + 1;
        }
        map
    }

    /// One selection of the main loop: asks the scheduler whom to run.
    /// A `Run` decision names a slot that held a runnable process; that
    /// process is made `Running` — a yielded process first gets its oldest
    /// pending callback set up for delivery — and every other slot is
    /// untouched. `Sleep` comes back exactly when no process is runnable,
    /// and changes nothing. Requires the main-loop capability: only
    /// board-integration code drives the loop.
    #[verifier::rlimit(100)]
    pub fn next_decision<S: Scheduler>(
        &mut self,
        sched: &mut S,
        _cap: &MainLoopCapability,
    ) -> (d: SchedulingDecision)
        requires
            old(self).wf(),
            old(sched).wf(),
            old(sched).slots() == old(self).processes@.len(),
        ensures
            final(self).wf(),
            final(sched).wf(),
            final(sched).slots() == old(sched).slots(),
            final(self).deferred == old(self).deferred,
            final(self).processes@.len() == old(self).processes@.len(),
            d matches SchedulingDecision::Run { slot, timeslice_us } ==> {
                &&& slot < old(self).processes@.len()
                &&& (old(self).processes@[slot as int] matches Some(p) && p.spec_runnable())
                &&& (forall|j: int|
                    0 <= j < old(self).processes@.len() && j != slot ==> final(self).processes@[j]
                        == old(self).processes@[j])
                &&& (old(self).processes@[slot as int] matches Some(p) && final(self).processes@[
                    slot as int
                ] matches Some(q) && q.state == State::Running && q.generation == p.generation
                    && q.ram@ == p.ram@ && q.flash@ == p.flash@ && q.grants@ == p.grants@ && (
                p.state == State::Yielded ==> q.callbacks.view() == p.callbacks.view().skip(1)
                    && spec_delivery_context(p, q) && q.subscriptions@ == p.subscriptions@) && (
                p.state != State::Yielded ==> q.callbacks == p.callbacks && q.context == p.context))
            },
            d == SchedulingDecision::Sleep ==> final(self).processes@ == old(self).processes@ && (
            forall|i: int|
                0 <= i < old(self).processes@.len() ==> ((#[trigger] old(self).processes@[
                    i
                ]) matches Some(p) ==> !p.spec_runnable())),
    {
        let runnable = self.runnable_map();
        let d = sched.next(&runnable);
        match d {
            SchedulingDecision::Run { slot, timeslice_us } => {
                let popt = &mut self.processes[slot];
                match popt {
                    Some(p) => {
                        match p.state {
                            State::Yielded => {
                                p.deliver_pending_callback();
                            },
                            _ => {
                            },
                        }
                        p.state = State::Running;
                    },
                    None => {
                        proof {
                            assert(false);
                        }
                    },
                }
            },
            SchedulingDecision::Sleep => {
                proof {
                    assert(self.processes@ =~= old(self).processes@);
                    assert forall|i: int|
                        0 <= i < old(self).processes@.len() implies ((#[trigger] old(self).processes@[i]) matches Some(p) ==> !p.spec_runnable()) by {
                        assert(!runnable@[i]);
                    }
                }
            },
        }
        d
    }

    /// The other half of one loop iteration: control came back from the
    /// process in `slot`. A trap is dispatched (see
    /// [`Kernel::handle_trap`]), a reported protection fault handled per
    /// the process's policy, an expired time slice merely noted; then the
    /// scheduler learns why the process stopped. Every other slot is
    /// untouched.
    /// The stopped reason the scheduler is told for a dispatched trap: a
    /// trap outside the ABI faulted the process, an Exit terminated it,
    /// every other call is a voluntary return.
    pub open spec fn spec_stop_reason(class: usize, a0: usize, a1: usize, a2: usize, a3: usize) -> StoppedReason {
        match spec_decode(class, a0, a1, a2, a3) {
            None => StoppedReason::Faulted,
            Some(sc) => match sc {
                Syscall::Exit { code } => StoppedReason::Terminated,
                _ => StoppedReason::Yielded,
            },
        }
    }

    /// The other half of one loop iteration: control came back from the
    /// process in `slot`. A trap is dispatched exactly as
    /// [`Kernel::handle_trap`] states — the outcome comes back so the
    /// board can invoke the addressed driver — and a reported protection
    /// fault is handled exactly as [`Kernel::handle_fault`] states; an
    /// expired time slice changes no process. The scheduler then learns
    /// why the process stopped: faulted for a protection fault or a trap
    /// outside the ABI, terminated for an Exit, the time-slice expiry
    /// itself, and a voluntary return otherwise. Every other slot is
    /// untouched.
    pub fn process_returned<S: Scheduler>(
        &mut self,
        sched: &mut S,
        slot: usize,
        ret: RunReturn,
        registry: &DriverRegistry,
    ) -> (r: Option<DispatchOutcome>)
        requires
            old(self).wf(),
            old(sched).wf(),
            slot < old(self).processes@.len(),
            old(self).processes@[slot as int] matches Some(p) && (p.fault_policy.spec_decide(
                p.restarts,
            ) == FaultAction::Restart ==> p.generation < u64::MAX && p.restarts < u32::MAX),
        ensures
            final(self).wf(),
            final(sched).wf(),
            final(sched).slots() == old(sched).slots(),
            final(self).deferred == old(self).deferred,
            final(self).processes@.len() == old(self).processes@.len(),
            forall|j: int|
                0 <= j < old(self).processes@.len() && j != slot ==> final(self).processes@[j]
                    == old(self).processes@[j],
            r is Some <==> ret matches RunReturn::Syscall { class, arg0, arg1, arg2, arg3 },
            ret matches RunReturn::Syscall { class, arg0, arg1, arg2, arg3 } ==> {
                &&& spec_decode(class, arg0, arg1, arg2, arg3) is None ==> r == Some(
                    DispatchOutcome::FaultedCall,
                ) && (old(self).processes@[slot as int] matches Some(p) && final(self).processes@[
                    slot as int
                ] matches Some(q) && spec_fault_transition(p, q, slot as int))
                &&& spec_decode(class, arg0, arg1, arg2, arg3) matches Some(sc) ==> r == Some(
                    spec_syscall_outcome(sc, Self::driver_known(*registry, sc)),
                ) && (old(self).processes@[slot as int] matches Some(p) && final(self).processes@[
                    slot as int
                ] matches Some(q) && spec_syscall_transition(
                    p,
                    q,
                    sc,
                    Self::driver_known(*registry, sc),
                ))
            },
            ret == RunReturn::Fault ==> r is None && (old(self).processes@[
                slot as int
            ] matches Some(p) && final(self).processes@[slot as int] matches Some(q)
                && spec_fault_transition(p, q, slot as int)),
            ret == RunReturn::TimesliceExpired ==> r is None && final(self).processes@ == old(self).processes@,
    {
        let r = match ret {
            RunReturn::Syscall { class, arg0, arg1, arg2, arg3 } => {
                let outcome = self.handle_trap(slot, class, arg0, arg1, arg2, arg3, registry);
                let reason = match outcome {
                    DispatchOutcome::FaultedCall => StoppedReason::Faulted,
                    _ => match decode(class, arg0, arg1, arg2, arg3) {
                        Some(Syscall::Exit { .. }) => StoppedReason::Terminated,
                        _ => StoppedReason::Yielded,
                    },
                };
                proof {
                    assert(reason == Self::spec_stop_reason(class, arg0, arg1, arg2, arg3));
                }
                sched.result(slot, reason);
                Some(outcome)
            },
            RunReturn::Fault => {
                self.handle_fault(slot);
                sched.result(slot, StoppedReason::Faulted);
                None
            },
            RunReturn::TimesliceExpired => {
                proof {
                    assert(self.processes@ =~= old(self).processes@);
                }
                sched.result(slot, StoppedReason::TimesliceExpired);
                None
            },
        };
        r
    }

    /// Marks deferred work `idx` pending, from interrupt context:    /// Marks deferred work `idx` pending, from interrupt context: the short
    /// handler records the event and the main loop services it later,
    /// which bounds interrupt latency. Returns whether the flag exists.
    pub fn set_deferred(&mut self, idx: usize) -> (r: bool)
        requires
            old(self).wf(),
        ensures
            final(self).wf(),
            final(self).processes == old(self).processes,
            r == (idx < old(self).deferred@.len()),
            r ==> final(self).deferred@ == old(self).deferred@.update(idx as int, true),
            !r ==> final(self).deferred@ == old(self).deferred@,
    {
        if idx < self.deferred.len() {
            self.deferred[idx] = true;
            true
        } else {
            false
        }
    }

    /// Takes the lowest pending deferred-call flag, clearing it: the main
    /// loop calls this between context switches until nothing is pending.
    #[verifier::loop_isolation(false)]
    pub fn take_deferred(&mut self) -> (r: Option<usize>)
        requires
            old(self).wf(),
        ensures
            final(self).wf(),
            final(self).processes == old(self).processes,
            final(self).deferred@.len() == old(self).deferred@.len(),
            r is None ==> final(self).deferred@ == old(self).deferred@ && (forall|i: int|
                0 <= i < old(self).deferred@.len() ==> !(#[trigger] old(self).deferred@[i])),
            r matches Some(i) ==> i < old(self).deferred@.len() && old(self).deferred@[i as int]
                && final(self).deferred@ == old(self).deferred@.update(i as int, false) && (forall|
                j: int,
            |
                0 <= j < i ==> !(#[trigger] old(self).deferred@[j])),
    {
        match self.first_pending() {
            Some(i) => {
                self.deferred[i] = false;
                Some(i)
            },
            None => None,
        }
    }

    /// The lowest pending deferred-call flag, if any.
    #[verifier::loop_isolation(false)]
    fn first_pending(&self) -> (r: Option<usize>)
        ensures
            r matches Some(i) ==> i < self.deferred@.len() && self.deferred@[i as int] && (forall|
                j: int,
            |
                0 <= j < i ==> !(#[trigger] self.deferred@[j])),
            r is None ==> forall|j: int|
                0 <= j < self.deferred@.len() ==> !(#[trigger] self.deferred@[j]),
    {
        let n = self.deferred.len();
        let mut i: usize = 0;
        while i < n
            invariant
                i <= n,
                forall|j: int| 0 <= j < i ==> !(#[trigger] self.deferred@[j]),
            decreases n - i,
        {
            if self.deferred[i] {
                return Some(i);
            }
            i = i + 1;
        }
        None
    }


    /// Validates a cross-process shared-buffer window, the kernel's share
    /// of IPC: the window is accepted exactly when it lies inside the
    /// owning process's RAM, and comes back as a read-only protection
    /// region tagged with the owner's generation. The IPC capsule hands
    /// the region to the consumer's protection configuration; the
    /// generation lets every later use detect that the owner restarted —
    /// the binding is then stale and must be dropped, never dereferenced.
    /// Nothing is mutated.
    pub fn ipc_share_region(&self, from: usize, ptr: usize, len: usize) -> (r: Option<
        (ProtectedRegion, u64),
    >)
        requires
            self.wf(),
            from < self.processes@.len(),
        ensures
            r is Some <==> (self.processes@[from as int] matches Some(p)
                && p.ram_region().spec_contains_range(ptr as int, len as int)),
            r matches Some((reg, generation)) ==> (self.processes@[from as int] matches Some(p)
                && reg.perms == Permissions::ReadOnly && reg.region == (Region {
                start: ptr,
                size: len,
            }) && generation == p.generation),
    {
        match &self.processes[from] {
            Some(p) => {
                let ram = Region { start: p.ram_base, size: p.ram.len() };
                if ram.contains_range(ptr, len) {
                    Some(
                        (
                            ProtectedRegion {
                                region: Region { start: ptr, size: len },
                                perms: Permissions::ReadOnly,
                            },
                            p.generation,
                        ),
                    )
                } else {
                    None
                }
            },
            None => None,
        }
    }

    /// Whether an IPC binding made against generation `generation` of the
    /// process in `from` is stale: the owner restarted (or its slot was
    /// emptied) since the binding was made.
    pub fn ipc_binding_stale(&self, from: usize, generation: u64) -> (r: bool)
        requires
            from < self.processes@.len(),
        ensures
            r == !(self.processes@[from as int] matches Some(p) && p.generation == generation),
    {
        match &self.processes[from] {
            Some(p) => p.generation != generation,
            None => true,
        }
    }

    /// The lifecycle state of the process in `slot`, or `None` for an empty
    /// slot.
    pub fn process_state(&self, slot: usize) -> (r: Option<State>)
        requires
            slot < self.processes@.len(),
        ensures
            r is Some <==> self.processes@[slot as int] is Some,
            self.processes@[slot as int] matches Some(p) ==> r == Some(p.state),
    {
        match &self.processes[slot] {
            Some(p) => Some(p.state),
            None => None,
        }
    }

    /// The generation counter of the process in `slot`.
    pub fn process_generation(&self, slot: usize) -> (r: Option<u64>)
        requires
            slot < self.processes@.len(),
        ensures
            r is Some <==> self.processes@[slot as int] is Some,
            self.processes@[slot as int] matches Some(p) ==> r == Some(p.generation),
    {
        match &self.processes[slot] {
            Some(p) => Some(p.generation),
            None => None,
        }
    }

    /// How many callbacks the process in `slot` has had dropped on a full
    /// queue: the visible overflow counter.
    pub fn dropped_callbacks(&self, slot: usize) -> (r: Option<u64>)
        requires
            slot < self.processes@.len(),
        ensures
            r is Some <==> self.processes@[slot as int] is Some,
            self.processes@[slot as int] matches Some(p) ==> r == Some(p.dropped_callbacks),
    {
        match &self.processes[slot] {
            Some(p) => Some(p.dropped_callbacks),
            None => None,
        }
    }
}

/// Why control returned from the running process to the kernel loop.
#[derive(Clone, Copy, PartialEq, Eq, Structural, Debug)]
pub enum RunReturn {
    /// The process raised a trap with a class number and four argument
    /// words.
    Syscall { class: usize, arg0: usize, arg1: usize, arg2: usize, arg3: usize },
    /// The hardware reported a protection violation or an illegal
    /// instruction.
    Fault,
    /// The platform timer expired the process's time slice.
    TimesliceExpired,
}

} // verus!
