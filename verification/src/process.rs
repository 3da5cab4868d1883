//! Process representation.
//!
//! One [`Process`] is the in-kernel record of one loaded application: its
//! flash image, its RAM contents and layout, the register file saved at its
//! last exit into the kernel, its lifecycle state, its pending callbacks and
//! its fault policy. RAM is partitioned: the process owns the bytes below
//! `app_break` (data, heap and stack); grant memory is carved downward from
//! the top, one slot per capsule, and allocation fails rather than let the
//! two areas collide. Restarting wipes RAM back to a fresh load of the
//! flash image and bumps the generation counter, so that references issued
//! before the restart can be detected as stale instead of dereferenced.

use vstd::prelude::*;

use crate::image::{
    fresh_ram, image_valid, initialize_ram, parse_header, spec_entry_offset, spec_load_error,
    spec_ram_size, ImageHeader, LoadError, STACK_GUARD_BYTES,
};
use crate::mem::Region;
use crate::ring::RingBuffer;
use crate::syscall::{
    Syscall, SyscallError, RETURN_INVALID_BUFFER, RETURN_NO_SUCH_DRIVER, RETURN_SUCCESS,
};

verus! {

/// Lifecycle state of a process slot.
#[derive(Clone, Copy, PartialEq, Eq, Structural, Debug)]
pub enum State {
    /// Loaded but never yet run.
    Unstarted,
    /// Has run and may be scheduled again.
    Running,
    /// Blocked until a callback is pending.
    Yielded,
    /// Hit a protection violation; its fault policy decides what follows.
    /// The kernel applies the policy atomically, so a faulting process is
    /// stored directly at the policy's outcome (`Unstarted` after a
    /// restart, or `Stopped`); this transient step names the lifecycle
    /// stage for callers that track it themselves.
    Faulted,
    /// Terminal: the slot stays allocated but is never scheduled again.
    Stopped,
}

/// What to do with a faulted process.
#[derive(Clone, Copy, PartialEq, Eq, Structural, Debug)]
pub enum FaultAction {
    Restart,
    Stop,
}

/// Board-chosen strategy deciding a faulted process's fate: the board
/// injects one value per process at load time and the kernel consults it
/// on every fault. The strategies are data, not a trait, so that a
/// process record can own its policy without making the whole kernel
/// generic; a new strategy is a new variant, parameterized like
/// [`FaultPolicy::RestartUpTo`].
#[derive(Clone, Copy, PartialEq, Eq, Structural, Debug)]
pub enum FaultPolicy {
    /// Always wipe and reload the process.
    RestartAlways,
    /// Always stop the process.
    StopOnFault,
    /// Restart at most this many times, then stop.
    RestartUpTo(u32),
}

impl FaultPolicy {
    /// The action the policy picks after `prior_restarts` earlier restarts.
    pub open spec fn spec_decide(self, prior_restarts: u32) -> FaultAction {
        match self {
            FaultPolicy::RestartAlways => FaultAction::Restart,
            FaultPolicy::StopOnFault => FaultAction::Stop,
            FaultPolicy::RestartUpTo(limit) => if prior_restarts < limit {
                FaultAction::Restart
            } else {
                FaultAction::Stop
            },
        }
    }

    /// Picks the action, exactly as [`FaultPolicy::spec_decide`] states.
    pub fn decide(&self, prior_restarts: u32) -> (r: FaultAction)
        ensures
            r == self.spec_decide(prior_restarts),
    {
        match self {
            FaultPolicy::RestartAlways => FaultAction::Restart,
            FaultPolicy::StopOnFault => FaultAction::Stop,
            FaultPolicy::RestartUpTo(limit) => if prior_restarts < *limit {
                FaultAction::Restart
            } else {
                FaultAction::Stop
            },
        }
    }
}

/// The register file captured when a process last left user mode: program
/// counter, stack pointer and the four argument words of the ABI.
#[derive(Clone, Copy, PartialEq, Eq, Structural, Debug)]
pub struct SavedContext {
    pub pc: usize,
    pub sp: usize,
    pub a0: usize,
    pub a1: usize,
    pub a2: usize,
    pub a3: usize,
}

/// A callback awaiting delivery: which subscription it belongs to and up to
/// three argument words.
#[derive(Clone, Copy, PartialEq, Eq, Structural, Debug)]
pub struct Callback {
    pub driver: usize,
    pub subscribe_id: usize,
    pub arg0: usize,
    pub arg1: usize,
    pub arg2: usize,
}

/// A registered callback pointer for one subscription of one driver.
#[derive(Clone, Copy, PartialEq, Eq, Structural, Debug)]
pub struct Subscription {
    pub driver: usize,
    pub subscribe_id: usize,
    pub callback_ptr: usize,
    pub appdata: usize,
}

/// A buffer the process has shared with a driver.
#[derive(Clone, Copy, PartialEq, Eq, Structural, Debug)]
pub struct AllowedBuffer {
    pub driver: usize,
    pub allow_id: usize,
    pub ptr: usize,
    pub len: usize,
    pub writable: bool,
}

/// Grant storage carved for one capsule: `[offset, offset + size)` within
/// the process's RAM.
#[derive(Clone, Copy, PartialEq, Eq, Structural, Debug)]
pub struct GrantEntry {
    pub capsule: usize,
    pub offset: usize,
    pub size: usize,
}

/// A capsule's reference to its grant. It records the generation it was
/// issued under; after a restart the generations differ and the handle is
/// stale.
#[derive(Clone, Copy, PartialEq, Eq, Structural, Debug)]
pub struct GrantHandle {
    pub slot: usize,
    pub generation: u64,
    pub capsule: usize,
    pub offset: usize,
    pub size: usize,
}

/// Why a grant allocation was refused.
#[derive(Clone, Copy, PartialEq, Eq, Structural, Debug)]
pub enum GrantError {
    /// The grant area would collide with the process-owned area.
    OutOfMemory,
}

/// The in-kernel record of one loaded application.
///
/// Cross-process (IPC) sharing is built on this record rather than stored
/// in it: the IPC capsule asks the kernel to validate a window of the
/// owning process's RAM ([`crate::kernel::Kernel::ipc_share_region`]) and
/// installs it as a read-only protection region for the consumer; the
/// owner's generation tags the binding so a restart makes it detectably
/// stale.
pub struct Process {
    /// Index of the table slot holding this process.
    pub slot: usize,
    /// Bumped on every restart; stale references carry an older value.
    pub generation: u64,
    /// How many times this process has been restarted after a fault.
    pub restarts: u32,
    pub state: State,
    pub fault_policy: FaultPolicy,
    /// First address of the flash image.
    pub flash_base: usize,
    /// The flash image, header included. Immutable for the process's life.
    pub flash: Vec<u8>,
    /// The validated header words of `flash`.
    pub header: ImageHeader,
    /// First address of the RAM region assigned to this process.
    pub ram_base: usize,
    /// Contents of the assigned RAM region.
    pub ram: Vec<u8>,
    /// The process owns `[0, app_break)` of its RAM.
    pub app_break: usize,
    /// Grants occupy `[grant_head, ram.len())`; the head moves down.
    pub grant_head: usize,
    pub grants: Vec<GrantEntry>,
    pub subscriptions: Vec<Subscription>,
    pub allows: Vec<AllowedBuffer>,
    pub context: SavedContext,
    pub callbacks: RingBuffer<Callback>,
    /// Callbacks refused because the queue was full.
    pub dropped_callbacks: u64,
}

/// The register file a process starts (or restarts) with: the program
/// counter at the image's entry point, the stack pointer one guard below
/// the top of the process-owned area, argument words cleared.
pub open spec fn initial_context(img: Seq<u8>, flash_base: int, ram_base: int) -> SavedContext {
    SavedContext {
        pc: (flash_base + spec_entry_offset(img)) as usize,
        sp: (ram_base + spec_ram_size(img) - STACK_GUARD_BYTES) as usize,
        a0: 0,
        a1: 0,
        a2: 0,
        a3: 0,
    }
}

impl Process {
    /// Upper bound of grant entry `i`: the previous entry's offset, or the
    /// top of RAM for the first entry.
    pub open spec fn grant_bound(self, i: int) -> int {
        if i == 0 {
            self.ram@.len() as int
        } else {
            self.grants@[i - 1].offset as int
        }
    }

    /// The grant area is a stack of entries growing down from the top of
    /// RAM: each entry ends where the previous one begins, every entry lies
    /// above `grant_head`, and no capsule owns two entries.
    pub open spec fn grants_wf(self) -> bool {
        &&& forall|i: int|
            0 <= i < self.grants@.len() ==> (#[trigger] self.grants@[i]).offset + self.grants@[
                i
            ].size <= self.grant_bound(i) && self.grants@[i].offset >= self.grant_head
        &&& self.grants@.len() == 0 ==> self.grant_head == self.ram@.len()
        &&& self.grants@.len() > 0 ==> self.grant_head == self.grants@[
            self.grants@.len() - 1
        ].offset
        &&& forall|i: int, j: int|
            0 <= i < j < self.grants@.len() ==> (#[trigger] self.grants@[i]).capsule != (
            #[trigger] self.grants@[j]).capsule
    }

    /// No two subscriptions name the same (driver, subscribe) pair.
    pub open spec fn subscriptions_wf(self) -> bool {
        forall|i: int, j: int|
            0 <= i < j < self.subscriptions@.len() ==> !((#[trigger] self.subscriptions@[i]).driver
                == (#[trigger] self.subscriptions@[j]).driver && self.subscriptions@[i].subscribe_id
                == self.subscriptions@[j].subscribe_id)
    }

    /// No two allowed buffers name the same (driver, allow) pair, and every
    /// one lies inside the process's own RAM.
    pub open spec fn allows_wf(self) -> bool {
        &&& forall|i: int, j: int|
            0 <= i < j < self.allows@.len() ==> !((#[trigger] self.allows@[i]).driver == (
            #[trigger] self.allows@[j]).driver && self.allows@[i].allow_id
                == self.allows@[j].allow_id)
        &&& forall|i: int|
            0 <= i < self.allows@.len() ==> self.ram_region().spec_contains_range(
                (#[trigger] self.allows@[i]).ptr as int,
                self.allows@[i].len as int,
            )
    }

    /// Well-formedness of the whole record. Constructors establish it and
    /// every method preserves it.
    pub open spec fn wf(self) -> bool {
        &&& image_valid(self.flash@, self.ram@.len() as int)
        &&& self.header.matches(self.flash@)
        &&& self.app_break == self.header.ram_size
        &&& self.app_break <= self.grant_head <= self.ram@.len()
        &&& self.flash_base + self.flash@.len() <= usize::MAX
        &&& self.ram_base + self.ram@.len() <= usize::MAX
        &&& self.grants_wf()
        &&& self.subscriptions_wf()
        &&& self.allows_wf()
        &&& self.callbacks.wf()
    }

    /// The flash region configured for this process: exactly the bytes its
    /// header declares.
    pub open spec fn flash_region(self) -> Region {
        Region { start: self.flash_base, size: self.header.total_size as usize }
    }

    /// The RAM region assigned to this process.
    pub open spec fn ram_region(self) -> Region {
        Region { start: self.ram_base, size: self.ram@.len() as usize }
    }

    /// Whether code running as this process may touch `addr`: only its own
    /// flash and its own RAM; everything else traps.
    pub open spec fn allows_addr(self, addr: int) -> bool {
        self.flash_region().spec_contains(addr) || self.ram_region().spec_contains(addr)
    }

    /// The scheduler may pick this process: it has never run, it is ready
    /// to run on, or it yielded and a callback is now pending.
    pub open spec fn spec_runnable(self) -> bool {
        ||| self.state == State::Unstarted
        ||| self.state == State::Running
        ||| (self.state == State::Yielded && self.callbacks.view().len() > 0)
    }

    /// The region bounds a well-formed process's address checks need: its
    /// regions do not wrap the address space.
    pub proof fn lemma_wf_region_bounds(self)
        requires
            self.wf(),
        ensures
            self.flash_base + self.header.total_size <= usize::MAX,
            self.ram_base + self.ram@.len() <= usize::MAX,
    {
    }

    /// Runtime test of [`Process::allows_addr`]: may code running as this
    /// process touch `addr`?
    pub fn allows_address(&self, addr: usize) -> (r: bool)
        requires
            self.flash_base + self.header.total_size <= usize::MAX,
            self.ram_base + self.ram@.len() <= usize::MAX,
        ensures
            r == self.allows_addr(addr as int),
    {
        let flash = Region { start: self.flash_base, size: self.header.total_size as usize };
        let ram = Region { start: self.ram_base, size: self.ram.len() };
        flash.contains(addr) || ram.contains(addr)
    }

    /// Runtime test, equal to [`Process::spec_runnable`].
    pub fn runnable(&self) -> (r: bool)
        ensures
            r == self.spec_runnable(),
    {
        match self.state {
            State::Unstarted => true,
            State::Running => true,
            State::Yielded => self.callbacks.len() > 0,
            State::Faulted => false,
            State::Stopped => false,
        }
    }

    /// The record is exactly what loading `img` into the given slot and
    /// regions produces, at the given generation and restart count.
    pub open spec fn loaded_from(
        self,
        img: Seq<u8>,
        slot: int,
        flash_base: int,
        ram_base: int,
        ram_size: int,
        policy: FaultPolicy,
        queue_cap: int,
        generation: u64,
        restarts: u32,
    ) -> bool {
        &&& self.slot == slot
        &&& self.generation == generation
        &&& self.restarts == restarts
        &&& self.state == State::Unstarted
        &&& self.fault_policy == policy
        &&& self.flash_base == flash_base
        &&& self.flash@ == img
        &&& self.header.matches(img)
        &&& self.ram_base == ram_base
        &&& self.ram@ == fresh_ram(img, ram_size as nat)
        &&& self.app_break == spec_ram_size(img)
        &&& self.grant_head == ram_size
        &&& self.grants@ == Seq::<GrantEntry>::empty()
        &&& self.subscriptions@ == Seq::<Subscription>::empty()
        &&& self.allows@ == Seq::<AllowedBuffer>::empty()
        &&& self.context == initial_context(img, flash_base, ram_base)
        &&& self.callbacks.view() == Seq::<Callback>::empty()
        &&& self.callbacks.spec_capacity() == queue_cap
        &&& self.dropped_callbacks == 0
    }

    /// Validates `image` and builds the process record for it: RAM seeded
    /// from the image's data template and zeroed elsewhere, layout and
    /// registers as [`Process::loaded_from`] states. Fails with the exact
    /// header error on an invalid image, mutating nothing.
    pub fn load(
        slot: usize,
        image: Vec<u8>,
        flash_base: usize,
        ram_base: usize,
        ram_size: usize,
        policy: FaultPolicy,
        queue_cap: usize,
    ) -> (r: Result<Process, LoadError>)
        requires
            queue_cap >= 1,
            flash_base + image@.len() <= usize::MAX,
            ram_base + ram_size <= usize::MAX,
        ensures
            r is Ok <==> image_valid(image@, ram_size as int),
            r matches Err(e) ==> e == spec_load_error(image@, ram_size as int),
            r matches Ok(p) ==> p.wf() && p.loaded_from(
                image@,
                slot as int,
                flash_base as int,
                ram_base as int,
                ram_size as int,
                policy,
                queue_cap as int,
                0,
                0,
            ),
    {
        let header = match parse_header(&image, ram_size) {
            Ok(h) => h,
            Err(e) => {
                return Err(e);
            },
        };
        let ram = initialize_ram(&image, ram_size);
        let context = SavedContext {
            pc: flash_base + header.entry_offset as usize,
            sp: ram_base + (header.ram_size as usize - STACK_GUARD_BYTES as usize),
            a0: 0,
            a1: 0,
            a2: 0,
            a3: 0,
        };
        let fill = Callback { driver: 0, subscribe_id: 0, arg0: 0, arg1: 0, arg2: 0 };
        let p = Process {
            slot,
            generation: 0,
            restarts: 0,
            state: State::Unstarted,
            fault_policy: policy,
            flash_base,
            flash: image,
            header,
            ram_base,
            ram,
            app_break: header.ram_size as usize,
            grant_head: ram_size,
            grants: Vec::new(),
            subscriptions: Vec::new(),
            allows: Vec::new(),
            context,
            callbacks: RingBuffer::new(queue_cap, fill),
            dropped_callbacks: 0,
        };
        Ok(p)
    }

    /// Wipes the process back to a fresh load of its own flash image: RAM
    /// re-seeded from the image, registers reset, queue and grants cleared,
    /// and the generation strictly increased so that every reference issued
    /// before the restart is detectable as stale.
    pub fn restart(&mut self)
        requires
            old(self).wf(),
            old(self).generation < u64::MAX,
            old(self).restarts < u32::MAX,
        ensures
            final(self).wf(),
            final(self).loaded_from(
                old(self).flash@,
                old(self).slot as int,
                old(self).flash_base as int,
                old(self).ram_base as int,
                old(self).ram@.len() as int,
                old(self).fault_policy,
                old(self).callbacks.spec_capacity(),
                (old(self).generation + 1) as u64,
                (old(self).restarts + 1) as u32,
            ),
            final(self).generation > old(self).generation,
            final(self).flash@ == old(self).flash@,
    {
        let ram_size = self.ram.len();
        self.ram = initialize_ram(&self.flash, ram_size);
        self.context = SavedContext {
            pc: self.flash_base + self.header.entry_offset as usize,
            sp: self.ram_base + (self.header.ram_size as usize - STACK_GUARD_BYTES as usize),
            a0: 0,
            a1: 0,
            a2: 0,
            a3: 0,
        };
        self.state = State::Unstarted;
        self.generation = self.generation + 1;
        self.restarts = self.restarts + 1;
        self.app_break = self.header.ram_size as usize;
        self.grant_head = ram_size;
        self.grants = Vec::new();
        self.subscriptions = Vec::new();
        self.allows = Vec::new();
        self.callbacks.clear();
        self.dropped_callbacks = 0;
    }

    /// Some capsule already owns grant storage here.
    pub open spec fn has_grant_for(self, capsule: int) -> bool {
        exists|i: int| 0 <= i < self.grants@.len() && (#[trigger] self.grants@[i]).capsule == capsule
    }

    /// Bytes still free between the process-owned area and the grant area.
    pub open spec fn grant_room(self) -> int {
        self.grant_head - self.app_break
    }

    /// Index of the grant entry owned by `capsule`, if any.
    #[verifier::loop_isolation(false)]
    fn grant_index(&self, capsule: usize) -> (r: Option<usize>)
        ensures
            r matches Some(i) ==> i < self.grants@.len() && self.grants@[i as int].capsule
                == capsule,
            r is None ==> forall|j: int|
                0 <= j < self.grants@.len() ==> (#[trigger] self.grants@[j]).capsule != capsule,
    {
        let n = self.grants.len();
        let mut i: usize = 0;
        while i < n
            invariant
                i <= n,
                forall|j: int| 0 <= j < i ==> (#[trigger] self.grants@[j]).capsule != capsule,
            decreases n - i,
        {
            if self.grants[i].capsule == capsule {
                return Some(i);
            }
            i = i + 1;
        }
        None
    }

    /// Lazily carves `size` bytes of grant storage for `capsule` from the
    /// top of unused RAM. A capsule that already holds a grant gets its
    /// existing handle back, nothing changed. The allocation fails —
    /// changing nothing — exactly when the new entry would collide with the
    /// process-owned area. RAM contents are never touched: grant memory is
    /// possibly stale after a restart and holders must check the
    /// generation.
    pub fn allocate_grant(&mut self, capsule: usize, size: usize) -> (r: Result<
        GrantHandle,
        GrantError,
    >)
        requires
            old(self).wf(),
        ensures
            final(self).wf(),
            r is Ok <==> (old(self).has_grant_for(capsule as int) || size <= old(self).grant_room()),
            r matches Ok(h) ==> h.slot == final(self).slot && h.generation == final(self).generation && h.capsule == capsule && final(self).has_grant_for(capsule as int) && (
            exists|i: int|
                0 <= i < final(self).grants@.len() && (#[trigger] final(self).grants@[i]) == (
                GrantEntry { capsule, offset: h.offset, size: h.size })),
            old(self).has_grant_for(capsule as int) ==> *final(self) == *old(self),
            !old(self).has_grant_for(capsule as int) && size <= old(self).grant_room() ==> {
                &&& final(self).grants@ == old(self).grants@.push(
                    GrantEntry { capsule, offset: (old(self).grant_head - size) as usize, size },
                )
                &&& final(self).grant_head == old(self).grant_head - size
                &&& final(self).ram@ == old(self).ram@
                &&& final(self).generation == old(self).generation
                &&& final(self).state == old(self).state
                &&& final(self).app_break == old(self).app_break
            },
            r is Err ==> *final(self) == *old(self) && r == Err::<GrantHandle, GrantError>(
                GrantError::OutOfMemory,
            ),
            final(self).slot == old(self).slot && final(self).flash_base == old(self).flash_base
                && final(self).flash@ == old(self).flash@ && final(self).header == old(self).header
                && final(self).ram_base == old(self).ram_base && final(self).ram@ == old(self).ram@
                && final(self).app_break == old(self).app_break && final(self).restarts == old(self).restarts
                && final(self).fault_policy == old(self).fault_policy && final(self).generation == old(self).generation
                && final(self).state == old(self).state && final(self).subscriptions@ == old(self).subscriptions@
                && final(self).allows@ == old(self).allows@ && final(self).callbacks == old(self).callbacks
                && final(self).context == old(self).context && final(self).dropped_callbacks == old(self).dropped_callbacks,
    {
        match self.grant_index(capsule) {
            Some(i) => {
                let e = self.grants[i];
                Ok(
                    GrantHandle {
                        slot: self.slot,
                        generation: self.generation,
                        capsule,
                        offset: e.offset,
                        size: e.size,
                    },
                )
            },
            None => {
                if size <= self.grant_head - self.app_break {
                    let offset = self.grant_head - size;
                    let entry = GrantEntry { capsule, offset, size };
                    self.grants.push(entry);
                    self.grant_head = offset;
                    proof {
                        assert(self.grants@[self.grants@.len() - 1] == entry);
                    }
                    Ok(
                        GrantHandle {
                            slot: self.slot,
                            generation: self.generation,
                            capsule,
                            offset,
                            size,
                        },
                    )
                } else {
                    Err(GrantError::OutOfMemory)
                }
            },
        }
    }

    /// Every grant entry lies inside the process's RAM: the entries chain
    /// down from the top of RAM, so each one ends at or below it.
    pub proof fn lemma_grant_in_ram(self, i: int)
        requires
            self.grants_wf(),
            0 <= i < self.grants@.len(),
        ensures
            self.grants@[i].offset + self.grants@[i].size <= self.ram@.len(),
        decreases i,
    {
        if i > 0 {
            self.lemma_grant_in_ram(i - 1);
        }
    }

    /// Whether a handle was issued under an older generation, i.e. before
    /// the last restart. A stale handle must never be dereferenced.
    pub fn grant_is_stale(&self, handle: &GrantHandle) -> (r: bool)
        ensures
            r == (handle.generation != self.generation),
    {
        handle.generation != self.generation
    }

    /// Index of the grant entry matching `handle`'s capsule, offset and
    /// size, if any.
    #[verifier::loop_isolation(false)]
    fn grant_match_index(&self, capsule: usize, offset: usize, size: usize) -> (r: Option<usize>)
        ensures
            r matches Some(i) ==> i < self.grants@.len() && self.grants@[i as int].capsule
                == capsule && self.grants@[i as int].offset == offset && self.grants@[
                i as int
            ].size == size,
            r is None ==> forall|j: int|
                0 <= j < self.grants@.len() ==> !((#[trigger] self.grants@[j]).capsule == capsule
                    && self.grants@[j].offset == offset && self.grants@[j].size == size),
    {
        let n = self.grants.len();
        let mut i: usize = 0;
        while i < n
            invariant
                i <= n,
                forall|j: int|
                    0 <= j < i ==> !((#[trigger] self.grants@[j]).capsule == capsule
                        && self.grants@[j].offset == offset && self.grants@[j].size == size),
            decreases n - i,
        {
            let e = self.grants[i];
            if e.capsule == capsule && e.offset == offset && e.size == size {
                return Some(i);
            }
            i = i + 1;
        }
        None
    }

    /// Resolves a handle to the grant's region in RAM, or `None` when the
    /// handle is stale or names no current grant — a stale handle is
    /// detected, never dereferenced.
    pub fn grant_region(&self, handle: &GrantHandle) -> (r: Option<Region>)
        requires
            self.wf(),
        ensures
            r is Some <==> handle.generation == self.generation && (exists|i: int|
                0 <= i < self.grants@.len() && (#[trigger] self.grants@[i]).capsule
                    == handle.capsule && self.grants@[i].offset == handle.offset && self.grants@[
                    i
                ].size == handle.size),
            r matches Some(reg) ==> reg.start == self.ram_base + handle.offset && reg.size
                == handle.size,
    {
        if handle.generation != self.generation {
            return None;
        }
        match self.grant_match_index(handle.capsule, handle.offset, handle.size) {
            Some(i) => {
                let e = self.grants[i];
                proof {
                    self.lemma_grant_in_ram(i as int);
                }
                Some(Region { start: self.ram_base + e.offset, size: e.size })
            },
            None => None,
        }
    }

    /// Queues a callback for later delivery. A full queue drops the newest
    /// callback — the one being enqueued — and counts it; queued callbacks
    /// and all adjacent state are untouched either way.
    pub fn enqueue_callback(&mut self, cb: Callback) -> (r: bool)
        requires
            old(self).wf(),
        ensures
            final(self).wf(),
            r == (old(self).callbacks.view().len() < old(self).callbacks.spec_capacity()),
            r ==> final(self).callbacks.view() == old(self).callbacks.view().push(cb) && final(self).dropped_callbacks == old(self).dropped_callbacks,
            !r ==> final(self).callbacks.view() == old(self).callbacks.view() && final(self).dropped_callbacks == (if old(self).dropped_callbacks < u64::MAX {
                old(self).dropped_callbacks + 1
            } else {
                old(self).dropped_callbacks as int
            }),
            final(self).callbacks.spec_capacity() == old(self).callbacks.spec_capacity(),
            final(self).ram@ == old(self).ram@ && final(self).state == old(self).state && final(self).grants@ == old(self).grants@ && final(self).generation == old(self).generation,
            final(self).subscriptions@ == old(self).subscriptions@ && final(self).allows@ == old(self).allows@ && final(self).context == old(self).context,
            final(self).slot == old(self).slot && final(self).flash_base == old(self).flash_base
                && final(self).flash@ == old(self).flash@ && final(self).header == old(self).header
                && final(self).ram_base == old(self).ram_base && final(self).app_break == old(self).app_break
                && final(self).grant_head == old(self).grant_head && final(self).restarts == old(self).restarts
                && final(self).fault_policy == old(self).fault_policy,
    {
        let stored = self.callbacks.enqueue(cb);
        if !stored {
            if self.dropped_callbacks < u64::MAX {
                self.dropped_callbacks = self.dropped_callbacks + 1;
            }
        }
        stored
    }

    /// Index of the subscription for `(driver, subscribe_id)`, if any.
    #[verifier::loop_isolation(false)]
    fn subscription_index(&self, driver: usize, subscribe_id: usize) -> (r: Option<usize>)
        ensures
            r matches Some(i) ==> i < self.subscriptions@.len() && self.subscriptions@[
                i as int
            ].driver == driver && self.subscriptions@[i as int].subscribe_id == subscribe_id,
            r is None ==> forall|j: int|
                0 <= j < self.subscriptions@.len() ==> !((#[trigger] self.subscriptions@[j]).driver
                    == driver && self.subscriptions@[j].subscribe_id == subscribe_id),
    {
        let n = self.subscriptions.len();
        let mut i: usize = 0;
        while i < n
            invariant
                i <= n,
                forall|j: int|
                    0 <= j < i ==> !((#[trigger] self.subscriptions@[j]).driver == driver
                        && self.subscriptions@[j].subscribe_id == subscribe_id),
            decreases n - i,
        {
            let sub = self.subscriptions[i];
            if sub.driver == driver && sub.subscribe_id == subscribe_id {
                return Some(i);
            }
            i = i + 1;
        }
        None
    }

    /// The subscription registered for `(driver, subscribe_id)`, if any.
    pub fn find_subscription(&self, driver: usize, subscribe_id: usize) -> (r: Option<
        Subscription,
    >)
        ensures
            r is Some <==> (exists|i: int|
                0 <= i < self.subscriptions@.len() && (#[trigger] self.subscriptions@[i]).driver
                    == driver && self.subscriptions@[i].subscribe_id == subscribe_id),
            r matches Some(sub) ==> sub.driver == driver && sub.subscribe_id == subscribe_id && (
            exists|i: int|
                0 <= i < self.subscriptions@.len() && (#[trigger] self.subscriptions@[i]) == sub),
    {
        match self.subscription_index(driver, subscribe_id) {
            Some(i) => Some(self.subscriptions[i]),
            None => None,
        }
    }

    /// Registers `callback_ptr` for `(driver, subscribe_id)`, replacing any
    /// earlier registration of that pair, and hands back the pointer it
    /// replaces — zero when the pair was not yet subscribed.
    pub fn subscribe(
        &mut self,
        driver: usize,
        subscribe_id: usize,
        callback_ptr: usize,
        appdata: usize,
    ) -> (prev: usize)
        requires
            old(self).wf(),
        ensures
            final(self).wf(),
            (exists|i: int|
                0 <= i < old(self).subscriptions@.len() && (
                #[trigger] old(self).subscriptions@[i]).driver == driver && old(self).subscriptions@[i].subscribe_id == subscribe_id) ==> (exists|i: int|
                0 <= i < old(self).subscriptions@.len() && (
                #[trigger] old(self).subscriptions@[i]).driver == driver && old(self).subscriptions@[i].subscribe_id == subscribe_id && prev == old(self).subscriptions@[i].callback_ptr && final(self).subscriptions@ == old(self).subscriptions@.update(
                    i,
                    Subscription { driver, subscribe_id, callback_ptr, appdata },
                )),
            !(exists|i: int|
                0 <= i < old(self).subscriptions@.len() && (
                #[trigger] old(self).subscriptions@[i]).driver == driver && old(self).subscriptions@[i].subscribe_id == subscribe_id) ==> prev == 0 && final(self).subscriptions@ == old(self).subscriptions@.push(
                Subscription { driver, subscribe_id, callback_ptr, appdata },
            ),
            exists|i: int|
                0 <= i < final(self).subscriptions@.len() && (#[trigger] final(self).subscriptions@[
                    i
                ]) == (Subscription { driver, subscribe_id, callback_ptr, appdata }),
            final(self).ram@ == old(self).ram@ && final(self).state == old(self).state && final(self).grants@ == old(self).grants@ && final(self).callbacks == old(self).callbacks && final(self).allows@ == old(self).allows@ && final(self).context == old(self).context && final(self).generation == old(self).generation,
            final(self).dropped_callbacks == old(self).dropped_callbacks,
            final(self).slot == old(self).slot && final(self).flash_base == old(self).flash_base
                && final(self).flash@ == old(self).flash@ && final(self).header == old(self).header
                && final(self).ram_base == old(self).ram_base && final(self).app_break == old(self).app_break
                && final(self).grant_head == old(self).grant_head && final(self).restarts == old(self).restarts
                && final(self).fault_policy == old(self).fault_policy,
    {
        match self.subscription_index(driver, subscribe_id) {
            Some(i) => {
                let prev = self.subscriptions[i].callback_ptr;
                self.subscriptions[i] = Subscription {
                    driver,
                    subscribe_id,
                    callback_ptr,
                    appdata,
                };
                proof {
                    assert(self.subscriptions@[i as int] == (Subscription {
                        driver,
                        subscribe_id,
                        callback_ptr,
                        appdata,
                    }));
                }
                prev
            },
            None => {
                self.subscriptions.push(
                    Subscription { driver, subscribe_id, callback_ptr, appdata },
                );
                proof {
                    assert(self.subscriptions@[self.subscriptions@.len() - 1] == (Subscription {
                        driver,
                        subscribe_id,
                        callback_ptr,
                        appdata,
                    }));
                }
                0
            },
        }
    }

    /// Index of the allowed buffer for `(driver, allow_id)`, if any.
    #[verifier::loop_isolation(false)]
    fn allow_index(&self, driver: usize, allow_id: usize) -> (r: Option<usize>)
        ensures
            r matches Some(i) ==> i < self.allows@.len() && self.allows@[i as int].driver == driver
                && self.allows@[i as int].allow_id == allow_id,
            r is None ==> forall|j: int|
                0 <= j < self.allows@.len() ==> !((#[trigger] self.allows@[j]).driver == driver
                    && self.allows@[j].allow_id == allow_id),
    {
        let n = self.allows.len();
        let mut i: usize = 0;
        while i < n
            invariant
                i <= n,
                forall|j: int|
                    0 <= j < i ==> !((#[trigger] self.allows@[j]).driver == driver
                        && self.allows@[j].allow_id == allow_id),
            decreases n - i,
        {
            let b = self.allows[i];
            if b.driver == driver && b.allow_id == allow_id {
                return Some(i);
            }
            i = i + 1;
        }
        None
    }

    /// Shares `[ptr, ptr + len)` with `driver` under `allow_id`, replacing
    /// any buffer previously shared under that pair and returning it (or
    /// `(0, 0)` when the pair had none). The buffer is accepted exactly
    /// when it lies entirely inside the calling process's own RAM — this
    /// check is the isolation boundary between untrusted process memory and
    /// kernel code; a rejected buffer changes nothing.
    pub fn allow(
        &mut self,
        driver: usize,
        allow_id: usize,
        ptr: usize,
        len: usize,
        writable: bool,
    ) -> (r: Result<(usize, usize), SyscallError>)
        requires
            old(self).wf(),
        ensures
            final(self).wf(),
            r is Ok <==> old(self).ram_region().spec_contains_range(ptr as int, len as int),
            r is Err ==> *final(self) == *old(self) && r == Err::<(usize, usize), SyscallError>(
                SyscallError::InvalidBuffer,
            ),
            r is Ok ==> exists|i: int|
                0 <= i < final(self).allows@.len() && (#[trigger] final(self).allows@[i]) == (
                AllowedBuffer { driver, allow_id, ptr, len, writable }),
            r is Ok ==> {
                &&& (exists|i: int|
                    0 <= i < old(self).allows@.len() && (#[trigger] old(self).allows@[i]).driver
                        == driver && old(self).allows@[i].allow_id == allow_id) ==> (exists|i: int|
                    0 <= i < old(self).allows@.len() && (#[trigger] old(self).allows@[i]).driver
                        == driver && old(self).allows@[i].allow_id == allow_id && r == Ok::<
                    (usize, usize),
                    SyscallError,
                >((old(self).allows@[i].ptr, old(self).allows@[i].len)) && final(self).allows@
                        == old(self).allows@.update(
                        i,
                        AllowedBuffer { driver, allow_id, ptr, len, writable },
                    ))
                &&& !(exists|i: int|
                    0 <= i < old(self).allows@.len() && (#[trigger] old(self).allows@[i]).driver
                        == driver && old(self).allows@[i].allow_id == allow_id) ==> r == Ok::<
                    (usize, usize),
                    SyscallError,
                >((0, 0)) && final(self).allows@ == old(self).allows@.push(
                    AllowedBuffer { driver, allow_id, ptr, len, writable },
                )
            },
            final(self).ram@ == old(self).ram@ && final(self).state == old(self).state && final(self).grants@ == old(self).grants@ && final(self).callbacks == old(self).callbacks && final(self).subscriptions@ == old(self).subscriptions@ && final(self).context == old(self).context && final(self).generation == old(self).generation,
            final(self).dropped_callbacks == old(self).dropped_callbacks,
            final(self).slot == old(self).slot && final(self).flash_base == old(self).flash_base
                && final(self).flash@ == old(self).flash@ && final(self).header == old(self).header
                && final(self).ram_base == old(self).ram_base && final(self).app_break == old(self).app_break
                && final(self).grant_head == old(self).grant_head && final(self).restarts == old(self).restarts
                && final(self).fault_policy == old(self).fault_policy,
    {
        let region = Region { start: self.ram_base, size: self.ram.len() };
        if !region.contains_range(ptr, len) {
            return Err(SyscallError::InvalidBuffer);
        }
        match self.allow_index(driver, allow_id) {
            Some(i) => {
                let b = self.allows[i];
                let prev = (b.ptr, b.len);
                self.allows[i] = AllowedBuffer { driver, allow_id, ptr, len, writable };
                proof {
                    assert(self.allows@[i as int] == (AllowedBuffer {
                        driver,
                        allow_id,
                        ptr,
                        len,
                        writable,
                    }));
                }
                Ok(prev)
            },
            None => {
                self.allows.push(AllowedBuffer { driver, allow_id, ptr, len, writable });
                proof {
                    assert(self.allows@[self.allows@.len() - 1] == (AllowedBuffer {
                        driver,
                        allow_id,
                        ptr,
                        len,
                        writable,
                    }));
                }
                Ok((0, 0))
            },
        }
    }

    /// Delivers the oldest pending callback by rewriting the saved context
    /// to enter the registered callback: program counter at the callback
    /// pointer, the callback's arguments and the subscription's appdata in
    /// the argument registers, and the process set runnable. A callback
    /// whose subscription has been replaced or never existed is discarded
    /// without touching the context. Returns whether a callback entry was
    /// set up.
    pub fn deliver_pending_callback(&mut self) -> (r: bool)
        requires
            old(self).wf(),
        ensures
            final(self).wf(),
            old(self).callbacks.view().len() == 0 ==> !r && *final(self) == *old(self),
            old(self).callbacks.view().len() > 0 ==> spec_delivery_transition(
                *old(self),
                *final(self),
            ) && (r <==> (exists|i: int|
                0 <= i < old(self).subscriptions@.len() && (
                #[trigger] old(self).subscriptions@[i]).driver == old(self).callbacks.view()[0].driver && old(self).subscriptions@[i].subscribe_id == old(self).callbacks.view()[0].subscribe_id)),
            spec_syscall_frame(*old(self), *final(self)),
    {
        let popped = self.callbacks.dequeue();
        let cb = match popped {
            Some(cb) => cb,
            None => {
                return false;
            },
        };
        let sub = match self.find_subscription(cb.driver, cb.subscribe_id) {
            Some(sub) => sub,
            None => {
                return false;
            },
        };
        self.context = SavedContext {
            pc: sub.callback_ptr,
            sp: self.context.sp,
            a0: cb.arg0,
            a1: cb.arg1,
            a2: cb.arg2,
            a3: sub.appdata,
        };
        self.state = State::Running;
        true
    }

    /// Writes result words into the saved argument registers, so the
    /// process sees them when it resumes.
    pub fn write_result_words(&mut self, a0: usize, a1: usize, a2: usize)
        requires
            old(self).wf(),
        ensures
            final(self).wf(),
            *final(self) == with_result_words(*old(self), a0, a1, a2),
    {
        self.context = SavedContext {
            pc: self.context.pc,
            sp: self.context.sp,
            a0,
            a1,
            a2,
            a3: self.context.a3,
        };
    }

    /// Handles a Yield. A no-wait Yield only relinquishes the rest of the
    /// time slice: the process stays runnable and nothing is delivered. A
    /// waiting Yield takes the oldest pending callback if one is queued,
    /// and blocks the process until one arrives otherwise.
    #[verifier::rlimit(100)]
    pub fn apply_yield(&mut self, wait: bool)
        requires
            old(self).wf(),
        ensures
            final(self).wf(),
            spec_yield_transition(*old(self), *final(self), wait),
            spec_syscall_frame(*old(self), *final(self)),
    {
        if wait {
            if self.callbacks.len() > 0 {
                self.deliver_pending_callback();
            } else {
                self.state = State::Yielded;
            }
        }
    }

    /// Handles a Subscribe: registers the callback pointer and writes the
    /// result words, or reports `RETURN_NO_SUCH_DRIVER` and changes nothing
    /// else.
    #[verifier::rlimit(100)]
    pub fn apply_subscribe(
        &mut self,
        driver: usize,
        subscribe_id: usize,
        callback_ptr: usize,
        appdata: usize,
        has_driver: bool,
    )
        requires
            old(self).wf(),
        ensures
            final(self).wf(),
            !has_driver ==> *final(self) == with_result_words(
                *old(self),
                RETURN_NO_SUCH_DRIVER,
                0,
                0,
            ),
            has_driver ==> spec_subscribe_transition(
                *old(self),
                *final(self),
                driver,
                subscribe_id,
                callback_ptr,
                appdata,
            ),
            spec_syscall_frame(*old(self), *final(self)),
    {
        if !has_driver {
            self.write_result_words(RETURN_NO_SUCH_DRIVER, 0, 0);
        } else {
            let prev = self.subscribe(driver, subscribe_id, callback_ptr, appdata);
            let ghost mid: Process = *self;
            self.write_result_words(RETURN_SUCCESS, prev, 0);
            proof {
                assert(self.subscriptions@ == mid.subscriptions@);
                if exists|i: int|
                    0 <= i < old(self).subscriptions@.len() && (
                    #[trigger] old(self).subscriptions@[i]).driver == driver && old(self).subscriptions@[i].subscribe_id == subscribe_id {
                    let i = choose|i: int|
                        0 <= i < old(self).subscriptions@.len() && (
                        #[trigger] old(self).subscriptions@[i]).driver == driver && old(self).subscriptions@[i].subscribe_id == subscribe_id && prev == old(self).subscriptions@[i].callback_ptr && mid.subscriptions@ == old(self).subscriptions@.update(
                            i,
                            Subscription { driver, subscribe_id, callback_ptr, appdata },
                        );
                    assert(self.subscriptions@ == old(self).subscriptions@.update(
                        i,
                        Subscription { driver, subscribe_id, callback_ptr, appdata },
                    ));
                    assert(self.context == (SavedContext {
                        a0: RETURN_SUCCESS,
                        a1: old(self).subscriptions@[i].callback_ptr,
                        a2: 0,
                        ..old(self).context
                    }));
                } else {
                    assert(self.subscriptions@ == old(self).subscriptions@.push(
                        Subscription { driver, subscribe_id, callback_ptr, appdata },
                    ));
                }
            }
        }
    }

    /// Handles an Allow of either flavor: records the buffer when it lies
    /// inside the caller's own RAM, otherwise writes
    /// `RETURN_INVALID_BUFFER` and leaves the process exactly as it was.
    #[verifier::rlimit(100)]
    pub fn apply_allow(
        &mut self,
        driver: usize,
        allow_id: usize,
        ptr: usize,
        len: usize,
        writable: bool,
        has_driver: bool,
    )
        requires
            old(self).wf(),
        ensures
            final(self).wf(),
            !has_driver ==> *final(self) == with_result_words(
                *old(self),
                RETURN_NO_SUCH_DRIVER,
                0,
                0,
            ),
            has_driver ==> spec_allow_transition(
                *old(self),
                *final(self),
                driver,
                allow_id,
                ptr,
                len,
                writable,
            ),
            spec_syscall_frame(*old(self), *final(self)),
    {
        if !has_driver {
            self.write_result_words(RETURN_NO_SUCH_DRIVER, 0, 0);
        } else {
            match self.allow(driver, allow_id, ptr, len, writable) {
                Ok((prev_ptr, prev_len)) => {
                    let ghost mid: Process = *self;
                    self.write_result_words(RETURN_SUCCESS, prev_ptr, prev_len);
                    proof {
                        assert(self.allows@ == mid.allows@);
                        if exists|i: int|
                            0 <= i < old(self).allows@.len() && (
                            #[trigger] old(self).allows@[i]).driver == driver && old(self).allows@[i].allow_id == allow_id {
                            let i = choose|i: int|
                                0 <= i < old(self).allows@.len() && (
                                #[trigger] old(self).allows@[i]).driver == driver && old(self).allows@[i].allow_id == allow_id && (prev_ptr, prev_len) == (
                                old(self).allows@[i].ptr,
                                old(self).allows@[i].len,
                            ) && mid.allows@ == old(self).allows@.update(
                                i,
                                AllowedBuffer { driver, allow_id, ptr, len, writable },
                            );
                            assert(self.allows@ == old(self).allows@.update(
                                i,
                                AllowedBuffer { driver, allow_id, ptr, len, writable },
                            ));
                            assert(self.context == (SavedContext {
                                a0: RETURN_SUCCESS,
                                a1: old(self).allows@[i].ptr,
                                a2: old(self).allows@[i].len,
                                ..old(self).context
                            }));
                        } else {
                            assert(self.allows@ == old(self).allows@.push(
                                AllowedBuffer { driver, allow_id, ptr, len, writable },
                            ));
                        }
                    }
                },
                Err(_) => {
                    self.write_result_words(RETURN_INVALID_BUFFER, 0, 0);
                },
            }
        }
    }

    /// Applies one decoded system call to this process. `has_driver` says
    /// whether the addressed driver number is registered; calls that
    /// address a driver when it is not get `RETURN_NO_SUCH_DRIVER` written
    /// back and change nothing else — never a fault. The outcome is
    /// [`spec_syscall_outcome`]: only a Command on a registered driver
    /// leaves the kernel, everything else is handled here. A waiting Yield
    /// takes the oldest pending callback; a no-wait Yield delivers nothing.
    #[verifier::rlimit(100)]
    pub fn apply_syscall(&mut self, sc: Syscall, has_driver: bool) -> (r: DispatchOutcome)
        requires
            old(self).wf(),
        ensures
            final(self).wf(),
            r == spec_syscall_outcome(sc, has_driver),
            spec_syscall_transition(*old(self), *final(self), sc, has_driver),
    {
        match sc {
            Syscall::Yield { wait } => {
                self.apply_yield(wait);
                DispatchOutcome::Handled
            },
            Syscall::Exit { code: _ } => {
                self.state = State::Stopped;
                DispatchOutcome::Handled
            },
            Syscall::Subscribe { driver, subscribe_id, callback_ptr, appdata } => {
                self.apply_subscribe(driver, subscribe_id, callback_ptr, appdata, has_driver);
                DispatchOutcome::Handled
            },
            Syscall::Command { driver, command_id, arg0, arg1 } => {
                if !has_driver {
                    self.write_result_words(RETURN_NO_SUCH_DRIVER, 0, 0);
                    DispatchOutcome::Handled
                } else {
                    DispatchOutcome::InvokeDriver { driver, command_id, arg0, arg1 }
                }
            },
            Syscall::ReadWriteAllow { driver, allow_id, ptr, len } => {
                self.apply_allow(driver, allow_id, ptr, len, true, has_driver);
                DispatchOutcome::Handled
            },
            Syscall::ReadOnlyAllow { driver, allow_id, ptr, len } => {
                self.apply_allow(driver, allow_id, ptr, len, false, has_driver);
                DispatchOutcome::Handled
            },
        }
    }
}

/// The process record with three result words written into the saved
/// argument registers and everything else untouched.
pub open spec fn with_result_words(p: Process, a0: usize, a1: usize, a2: usize) -> Process {
    Process { context: SavedContext { a0, a1, a2, ..p.context }, ..p }
}


/// The fields no system call ever touches: identity, layout, memory
/// contents, grants and the queue's capacity.
pub open spec fn spec_syscall_frame(p: Process, q: Process) -> bool {
    &&& q.slot == p.slot
    &&& q.generation == p.generation
    &&& q.restarts == p.restarts
    &&& q.fault_policy == p.fault_policy
    &&& q.flash_base == p.flash_base
    &&& q.flash@ == p.flash@
    &&& q.header == p.header
    &&& q.ram_base == p.ram_base
    &&& q.ram@ == p.ram@
    &&& q.app_break == p.app_break
    &&& q.grant_head == p.grant_head
    &&& q.grants@ == p.grants@
    &&& q.callbacks.spec_capacity() == p.callbacks.spec_capacity()
}

/// The context `q` ends with when `p`'s oldest callback is delivered:
/// entry at the registered callback pointer with the callback's arguments
/// and the subscription's appdata, or the context untouched when the
/// subscription no longer exists. Meaningful when `p`'s queue is
/// non-empty.
pub open spec fn spec_delivery_context(p: Process, q: Process) -> bool {
    let cb = p.callbacks.view()[0];
    &&& ((exists|i: int|
        0 <= i < p.subscriptions@.len() && (#[trigger] p.subscriptions@[i]).driver == cb.driver
            && p.subscriptions@[i].subscribe_id == cb.subscribe_id) ==> (exists|i: int|
        0 <= i < p.subscriptions@.len() && (#[trigger] p.subscriptions@[i]).driver == cb.driver
            && p.subscriptions@[i].subscribe_id == cb.subscribe_id && q.context == (SavedContext {
            pc: p.subscriptions@[i].callback_ptr,
            sp: p.context.sp,
            a0: cb.arg0,
            a1: cb.arg1,
            a2: cb.arg2,
            a3: p.subscriptions@[i].appdata,
        })))
    &&& (!(exists|i: int|
        0 <= i < p.subscriptions@.len() && (#[trigger] p.subscriptions@[i]).driver == cb.driver
            && p.subscriptions@[i].subscribe_id == cb.subscribe_id) ==> q.context == p.context)
}

/// One delivery of the oldest pending callback: the queue loses its head;
/// with the subscription still registered the process is made runnable at
/// the callback entry context, without it the callback is discarded and
/// context and state are untouched. Meaningful when `p`'s queue is
/// non-empty.
pub open spec fn spec_delivery_transition(p: Process, q: Process) -> bool {
    let cb = p.callbacks.view()[0];
    &&& q.callbacks.view() == p.callbacks.view().skip(1)
    &&& q.subscriptions@ == p.subscriptions@
    &&& q.allows@ == p.allows@
    &&& q.dropped_callbacks == p.dropped_callbacks
    &&& spec_delivery_context(p, q)
    &&& ((exists|i: int|
        0 <= i < p.subscriptions@.len() && (#[trigger] p.subscriptions@[i]).driver == cb.driver
            && p.subscriptions@[i].subscribe_id == cb.subscribe_id) ==> q.state == State::Running)
    &&& (!(exists|i: int|
        0 <= i < p.subscriptions@.len() && (#[trigger] p.subscriptions@[i]).driver == cb.driver
            && p.subscriptions@[i].subscribe_id == cb.subscribe_id) ==> q.state == p.state)
}

/// What a Yield does: a no-wait Yield only gives up the time slice; a
/// waiting Yield delivers the oldest pending callback, or blocks the
/// process when nothing is pending.
pub open spec fn spec_yield_transition(p: Process, q: Process, wait: bool) -> bool {
    &&& !wait ==> q == p
    &&& (wait && p.callbacks.view().len() == 0) ==> q == (Process { state: State::Yielded, ..p })
    &&& (wait && p.callbacks.view().len() > 0) ==> spec_delivery_transition(p, q)
}

/// What a Subscribe on a registered driver does: the pair's registration
/// is replaced (or appended when new), the replaced callback pointer comes
/// back in the result words, and nothing else moves.
pub open spec fn spec_subscribe_transition(
    p: Process,
    q: Process,
    driver: usize,
    subscribe_id: usize,
    callback_ptr: usize,
    appdata: usize,
) -> bool {
    let sub = Subscription { driver, subscribe_id, callback_ptr, appdata };
    &&& q.state == p.state
    &&& q.allows@ == p.allows@
    &&& q.callbacks == p.callbacks
    &&& q.dropped_callbacks == p.dropped_callbacks
    &&& ((exists|i: int|
        0 <= i < p.subscriptions@.len() && (#[trigger] p.subscriptions@[i]).driver == driver
            && p.subscriptions@[i].subscribe_id == subscribe_id) ==> (exists|i: int|
        0 <= i < p.subscriptions@.len() && (#[trigger] p.subscriptions@[i]).driver == driver
            && p.subscriptions@[i].subscribe_id == subscribe_id && q.subscriptions@
            == p.subscriptions@.update(i, sub) && q.context == (SavedContext {
            a0: RETURN_SUCCESS,
            a1: p.subscriptions@[i].callback_ptr,
            a2: 0,
            ..p.context
        })))
    &&& (!(exists|i: int|
        0 <= i < p.subscriptions@.len() && (#[trigger] p.subscriptions@[i]).driver == driver
            && p.subscriptions@[i].subscribe_id == subscribe_id) ==> q.subscriptions@
        == p.subscriptions@.push(sub) && q.context == (SavedContext {
        a0: RETURN_SUCCESS,
        a1: 0,
        a2: 0,
        ..p.context
    }))
}

/// What an Allow on a registered driver does: a buffer inside the caller's
/// own RAM replaces (or adds) the pair's shared buffer, handing the
/// previous one back in the result words; a buffer outside is refused with
/// the error word and the record otherwise bit-for-bit unchanged.
pub open spec fn spec_allow_transition(
    p: Process,
    q: Process,
    driver: usize,
    allow_id: usize,
    ptr: usize,
    len: usize,
    writable: bool,
) -> bool {
    let buf = AllowedBuffer { driver, allow_id, ptr, len, writable };
    &&& (!p.ram_region().spec_contains_range(ptr as int, len as int) ==> q == with_result_words(
        p,
        RETURN_INVALID_BUFFER,
        0,
        0,
    ))
    &&& (p.ram_region().spec_contains_range(ptr as int, len as int) ==> {
        &&& q.state == p.state
        &&& q.subscriptions@ == p.subscriptions@
        &&& q.callbacks == p.callbacks
        &&& q.dropped_callbacks == p.dropped_callbacks
        &&& ((exists|i: int|
            0 <= i < p.allows@.len() && (#[trigger] p.allows@[i]).driver == driver
                && p.allows@[i].allow_id == allow_id) ==> (exists|i: int|
            0 <= i < p.allows@.len() && (#[trigger] p.allows@[i]).driver == driver
                && p.allows@[i].allow_id == allow_id && q.allows@ == p.allows@.update(i, buf)
                && q.context == (SavedContext {
                a0: RETURN_SUCCESS,
                a1: p.allows@[i].ptr,
                a2: p.allows@[i].len,
                ..p.context
            })))
        &&& (!(exists|i: int|
            0 <= i < p.allows@.len() && (#[trigger] p.allows@[i]).driver == driver
                && p.allows@[i].allow_id == allow_id) ==> q.allows@ == p.allows@.push(buf)
            && q.context == (SavedContext { a0: RETURN_SUCCESS, a1: 0, a2: 0, ..p.context }))
    })
}

/// The whole dispatch relation for one decoded call: the frame is kept,
/// and the addressed case's transition holds. A call that addresses an
/// unregistered driver only gets the error word written back.
pub open spec fn spec_syscall_transition(
    p: Process,
    q: Process,
    sc: Syscall,
    has_driver: bool,
) -> bool {
    &&& spec_syscall_frame(p, q)
    &&& (syscall_driver(sc) is Some && !has_driver ==> q == with_result_words(
        p,
        RETURN_NO_SUCH_DRIVER,
        0,
        0,
    ))
    &&& (sc matches Syscall::Yield { wait } ==> spec_yield_transition(p, q, wait))
    &&& (sc matches Syscall::Exit { code } ==> q == (Process { state: State::Stopped, ..p }))
    &&& (has_driver ==> (sc matches Syscall::Command { driver, command_id, arg0, arg1 } ==> q
        == p))
    &&& (has_driver ==> (sc matches Syscall::Subscribe {
        driver,
        subscribe_id,
        callback_ptr,
        appdata,
    } ==> spec_subscribe_transition(p, q, driver, subscribe_id, callback_ptr, appdata)))
    &&& (has_driver ==> (sc matches Syscall::ReadWriteAllow { driver, allow_id, ptr, len }
        ==> spec_allow_transition(p, q, driver, allow_id, ptr, len, true)))
    &&& (has_driver ==> (sc matches Syscall::ReadOnlyAllow { driver, allow_id, ptr, len }
        ==> spec_allow_transition(p, q, driver, allow_id, ptr, len, false)))
}

/// What the dispatcher did with a trap.
#[derive(Clone, Copy, PartialEq, Eq, Structural, Debug)]
pub enum DispatchOutcome {
    /// The call was handled inside the kernel; any result words are already
    /// in the process's saved registers.
    Handled,
    /// A Command addressed a registered driver: the board invokes the
    /// driver and reports its reply back to the kernel.
    InvokeDriver { driver: usize, command_id: usize, arg0: usize, arg1: usize },
    /// The trap was not part of the ABI; the process was faulted.
    FaultedCall,
}

/// The driver number a system call addresses, if it addresses one.
pub open spec fn syscall_driver(sc: Syscall) -> Option<usize> {
    match sc {
        Syscall::Yield { wait } => None,
        Syscall::Subscribe { driver, subscribe_id, callback_ptr, appdata } => Some(driver),
        Syscall::Command { driver, command_id, arg0, arg1 } => Some(driver),
        Syscall::ReadWriteAllow { driver, allow_id, ptr, len } => Some(driver),
        Syscall::ReadOnlyAllow { driver, allow_id, ptr, len } => Some(driver),
        Syscall::Exit { code } => None,
    }
}

/// The dispatch outcome of a decoded call: only a Command on a registered
/// driver is routed out of the kernel.
pub open spec fn spec_syscall_outcome(sc: Syscall, has_driver: bool) -> DispatchOutcome {
    match sc {
        Syscall::Command { driver, command_id, arg0, arg1 } => if has_driver {
            DispatchOutcome::InvokeDriver { driver, command_id, arg0, arg1 }
        } else {
            DispatchOutcome::Handled
        },
        _ => DispatchOutcome::Handled,
    }
}

/// Restart correctness: a process restarted from its flash image holds
/// exactly the RAM and registers a fresh load of that image produces, its
/// generation is strictly newer than any reference issued before the
/// restart, and every such reference is detectably stale.
pub proof fn lemma_restart_matches_fresh_load(
    restarted: Process,
    fresh: Process,
    img: Seq<u8>,
    slot: int,
    flash_base: int,
    ram_base: int,
    ram_size: int,
    policy: FaultPolicy,
    queue_cap: int,
    generation: u64,
    restarts: u32,
    handle: GrantHandle,
)
    requires
        restarted.loaded_from(
            img,
            slot,
            flash_base,
            ram_base,
            ram_size,
            policy,
            queue_cap,
            generation,
            restarts,
        ),
        fresh.loaded_from(img, slot, flash_base, ram_base, ram_size, policy, queue_cap, 0, 0),
        handle.generation < generation,
    ensures
        restarted.ram@ == fresh.ram@,
        restarted.context == fresh.context,
        restarted.generation > handle.generation,
        handle.generation != restarted.generation,
{
}

} // verus!
