use kernel_core::caps::{
    MainLoopCapability, MemoryAllocationCapability, ProcessManagementCapability,
};
use kernel_core::image::{LoadError, HEADER_BYTES, IMAGE_MAGIC, IMAGE_VERSION};
use kernel_core::kernel::{DriverRegistry, FaultOutcome, Kernel, RunReturn};
use kernel_core::process::{Callback, DispatchOutcome, FaultPolicy, GrantError, State};
use kernel_core::sched::{RoundRobinSched, SchedulingDecision};
use kernel_core::syscall::{
    decode, Syscall, CLASS_ALLOW_RW, CLASS_COMMAND, CLASS_EXIT, CLASS_SUBSCRIBE, CLASS_YIELD,
    RETURN_INVALID_BUFFER, RETURN_NO_SUCH_DRIVER, RETURN_SUCCESS, YIELD_WAIT,
};

fn push_le32(v: &mut Vec<u8>, word: u32) {
    v.push((word & 0xFF) as u8);
    v.push(((word >> 8) & 0xFF) as u8);
    v.push(((word >> 16) & 0xFF) as u8);
    v.push(((word >> 24) & 0xFF) as u8);
}

fn make_image(ram_size: u32, entry: u32, data: &[u8], code: usize) -> Vec<u8> {
    let total = (HEADER_BYTES + data.len() + code) as u32;
    let mut img = Vec::new();
    push_le32(&mut img, IMAGE_MAGIC);
    push_le32(&mut img, IMAGE_VERSION);
    push_le32(&mut img, total);
    push_le32(&mut img, ram_size);
    push_le32(&mut img, entry);
    push_le32(&mut img, data.len() as u32);
    img.extend_from_slice(data);
    for i in 0..code {
        img.push((i & 0xFF) as u8);
    }
    img
}

const FLASH0: usize = 0x1000_0000;
const FLASH1: usize = 0x1000_4000;
const RAM0: usize = 0x2000_0000;
const RAM1: usize = 0x2000_4000;
const RAM_SIZE: usize = 256;

/// A kernel with two loaded processes (slots 0 and 1) in a three-slot
/// table. Each image declares 128 bytes of RAM out of the 256 assigned.
fn two_process_kernel(policy: FaultPolicy) -> Kernel {
    let cap = ProcessManagementCapability::create();
    let mut k = Kernel::new(3, 4);
    let s0 = k
        .load_process(make_image(128, 4, &[1, 2], 32), FLASH0, RAM0, RAM_SIZE, policy, 4, &cap)
        .expect("image 0 loads");
    let s1 = k
        .load_process(make_image(128, 4, &[3, 4], 32), FLASH1, RAM1, RAM_SIZE, policy, 4, &cap)
        .expect("image 1 loads");
    assert_eq!(s0, 0);
    assert_eq!(s1, 1);
    k
}

#[test]
fn two_images_fill_the_first_two_slots() {
    let k = two_process_kernel(FaultPolicy::RestartAlways);
    assert_eq!(k.process_state(0), Some(State::Unstarted));
    assert_eq!(k.process_state(1), Some(State::Unstarted));
    assert_eq!(k.process_state(2), None);
    assert_eq!(k.process_generation(0), Some(0));
    assert_eq!(k.process_generation(1), Some(0));
}

#[test]
fn full_table_reports_out_of_slots() {
    let cap = ProcessManagementCapability::create();
    let mut k = Kernel::new(1, 0);
    k.load_process(
        make_image(128, 4, &[], 32),
        FLASH0,
        RAM0,
        RAM_SIZE,
        FaultPolicy::RestartAlways,
        4,
        &cap,
    )
    .expect("first image loads");
    let r = k.load_process(
        make_image(128, 4, &[], 32),
        FLASH1,
        RAM1,
        RAM_SIZE,
        FaultPolicy::RestartAlways,
        4,
        &cap,
    );
    assert_eq!(r, Err(LoadError::OutOfSlots));
    // The loaded process was not disturbed.
    assert_eq!(k.process_state(0), Some(State::Unstarted));
    assert_eq!(k.process_generation(0), Some(0));
}

#[test]
fn invalid_image_loads_nothing() {
    let cap = ProcessManagementCapability::create();
    let mut k = Kernel::new(2, 0);
    let mut bad = make_image(128, 4, &[], 32);
    bad[0] = 0;
    let r = k.load_process(bad, FLASH0, RAM0, RAM_SIZE, FaultPolicy::RestartAlways, 4, &cap);
    assert_eq!(r, Err(LoadError::BadMagic));
    // The slot is still free: a valid image goes to slot 0.
    let s = k
        .load_process(
            make_image(128, 4, &[], 32),
            FLASH0,
            RAM0,
            RAM_SIZE,
            FaultPolicy::RestartAlways,
            4,
            &cap,
        )
        .expect("valid image loads");
    assert_eq!(s, 0);
}

#[test]
fn grant_exhaustion_leaves_neighbors_and_existing_grants_intact() {
    // Three slots, two loaded processes; the third allocation for process 1
    // collides with its app-owned area and is refused, while processes 0
    // and 2 and process 1's existing grants stay exactly as they were.
    let mem_cap = MemoryAllocationCapability::create();
    let mut k = two_process_kernel(FaultPolicy::RestartAlways);
    // 256 assigned - 128 app-owned = 128 bytes of grant room.
    let h1 = k.allocate_grant(1, 10, 64, &mem_cap).expect("first grant fits");
    let h2 = k.allocate_grant(1, 11, 64, &mem_cap).expect("second grant fits");
    assert_eq!(h1.offset, 192);
    assert_eq!(h2.offset, 128);
    let r = k.allocate_grant(1, 12, 1, &mem_cap);
    assert_eq!(r, Err(GrantError::OutOfMemory));
    // Process 1's existing grants are intact and resolvable.
    let p1 = k.processes[1].as_ref().expect("process 1 present");
    let region1 = p1.grant_region(&h1).expect("first grant still resolvable");
    assert_eq!(region1.start, RAM1 + 192);
    assert_eq!(region1.size, 64);
    assert!(p1.grant_region(&h2).is_some());
    // Processes 0 and 2 are unaffected.
    assert_eq!(k.process_state(0), Some(State::Unstarted));
    assert_eq!(k.process_generation(0), Some(0));
    assert!(k.processes[0].as_ref().expect("process 0 present").grants.is_empty());
    assert_eq!(k.process_state(2), None);
    // Asking again for an already-granted capsule returns the same handle.
    let again = k.allocate_grant(1, 10, 64, &mem_cap).expect("existing grant returned");
    assert_eq!(again, h1);
}

#[test]
fn fault_restart_matches_fresh_load() {
    let mut k = two_process_kernel(FaultPolicy::RestartAlways);
    // Make the restarted process differ from a fresh one first: queue a
    // callback and dirty its RAM.
    assert!(k.schedule_callback(0, 0, Callback {
        driver: 7,
        subscribe_id: 0,
        arg0: 1,
        arg1: 2,
        arg2: 3,
    }));
    k.processes[0].as_mut().expect("process 0 present").ram[5] = 0xEE;
    // An access outside every configured region always faults the process.
    let outcome = k.memory_access(0, 0x3000_0000);
    assert_eq!(outcome, Some(FaultOutcome::Restarted));
    assert_eq!(k.process_state(0), Some(State::Unstarted));
    assert_eq!(k.process_generation(0), Some(1));
    // The restarted RAM is exactly what a fresh load produces.
    let fresh = two_process_kernel(FaultPolicy::RestartAlways);
    let restarted_ram = &k.processes[0].as_ref().expect("present").ram;
    let fresh_ram = &fresh.processes[0].as_ref().expect("present").ram;
    assert_eq!(restarted_ram, fresh_ram);
    // The queued callback died with the old incarnation.
    assert_eq!(k.processes[0].as_ref().expect("present").callbacks.len(), 0);
}

#[test]
fn fault_with_stop_policy_is_terminal() {
    let mut k = two_process_kernel(FaultPolicy::StopOnFault);
    let outcome = k.memory_access(0, 0x3000_0000);
    assert_eq!(outcome, Some(FaultOutcome::Stopped));
    assert_eq!(k.process_state(0), Some(State::Stopped));
    // A stopped process is never scheduled again: with process 1 also
    // stopped, the scheduler sleeps.
    let outcome1 = k.memory_access(1, 0x3000_0000);
    assert_eq!(outcome1, Some(FaultOutcome::Stopped));
    let mut rr = RoundRobinSched::new(3, 10_000);
    let loop_cap = MainLoopCapability::create();
    assert_eq!(k.next_decision(&mut rr, &loop_cap), SchedulingDecision::Sleep);
}

#[test]
fn restart_limit_policy_stops_after_budget() {
    let mut k = two_process_kernel(FaultPolicy::RestartUpTo(1));
    assert_eq!(k.memory_access(0, 0x3000_0000), Some(FaultOutcome::Restarted));
    assert_eq!(k.process_generation(0), Some(1));
    assert_eq!(k.memory_access(0, 0x3000_0000), Some(FaultOutcome::Stopped));
    assert_eq!(k.process_state(0), Some(State::Stopped));
}

#[test]
fn out_of_bounds_access_faults_only_the_offender() {
    let mut k = two_process_kernel(FaultPolicy::RestartAlways);
    let before_gen1 = k.process_generation(1);
    let before_ram1 = k.processes[1].as_ref().expect("present").ram.clone();
    // Process 0 reaches into process 1's RAM: process 0 faults, process 1
    // never notices.
    let outcome = k.memory_access(0, RAM1 + 8);
    assert_eq!(outcome, Some(FaultOutcome::Restarted));
    assert_eq!(k.process_generation(0), Some(1));
    assert_eq!(k.process_generation(1), before_gen1);
    assert_eq!(k.process_state(1), Some(State::Unstarted));
    assert_eq!(k.processes[1].as_ref().expect("present").ram, before_ram1);
}

#[test]
fn in_bounds_access_changes_nothing() {
    let mut k = two_process_kernel(FaultPolicy::RestartAlways);
    assert_eq!(k.memory_access(0, RAM0 + 8), None);
    assert_eq!(k.memory_access(0, FLASH0 + 4), None);
    assert_eq!(k.process_generation(0), Some(0));
    assert_eq!(k.process_state(0), Some(State::Unstarted));
}

#[test]
fn grant_handles_from_before_a_restart_are_stale() {
    let mem_cap = MemoryAllocationCapability::create();
    let mut k = two_process_kernel(FaultPolicy::RestartAlways);
    let h = k.allocate_grant(0, 10, 32, &mem_cap).expect("grant fits");
    assert_eq!(k.memory_access(0, 0x3000_0000), Some(FaultOutcome::Restarted));
    let p0 = k.processes[0].as_ref().expect("present");
    assert!(p0.grant_is_stale(&h));
    // The stale handle resolves to nothing rather than to freed memory.
    assert!(p0.grant_region(&h).is_none());
}

#[test]
fn allow_accepts_only_buffers_inside_the_callers_ram() {
    let registry = DriverRegistry::new(vec![3]);
    let mut k = two_process_kernel(FaultPolicy::RestartAlways);
    // A buffer inside process 0's RAM is accepted.
    let r = k.handle_trap(0, CLASS_ALLOW_RW, 3, 0, RAM0 + 16, 8, &registry);
    assert_eq!(r, DispatchOutcome::Handled);
    let p0 = k.processes[0].as_ref().expect("present");
    assert_eq!(p0.context.a0, RETURN_SUCCESS);
    assert_eq!(p0.allows.len(), 1);
    // A buffer reaching into process 1's RAM is refused and nothing
    // changes.
    let r = k.handle_trap(0, CLASS_ALLOW_RW, 3, 1, RAM1, 8, &registry);
    assert_eq!(r, DispatchOutcome::Handled);
    let p0 = k.processes[0].as_ref().expect("present");
    assert_eq!(p0.context.a0, RETURN_INVALID_BUFFER);
    assert_eq!(p0.allows.len(), 1);
    assert_eq!(k.process_state(0), Some(State::Unstarted));
    // A buffer that overruns the end of the caller's RAM is refused too.
    let r = k.handle_trap(0, CLASS_ALLOW_RW, 3, 2, RAM0 + 250, 7, &registry);
    assert_eq!(r, DispatchOutcome::Handled);
    assert_eq!(k.processes[0].as_ref().expect("present").allows.len(), 1);
}

#[test]
fn unknown_driver_gets_an_error_code_not_a_fault() {
    let registry = DriverRegistry::new(vec![3]);
    let mut k = two_process_kernel(FaultPolicy::RestartAlways);
    let r = k.handle_trap(0, CLASS_COMMAND, 99, 1, 0, 0, &registry);
    assert_eq!(r, DispatchOutcome::Handled);
    let p0 = k.processes[0].as_ref().expect("present");
    assert_eq!(p0.context.a0, RETURN_NO_SUCH_DRIVER);
    assert_eq!(k.process_state(0), Some(State::Unstarted));
    assert_eq!(k.process_generation(0), Some(0));
}

#[test]
fn command_on_registered_driver_is_routed_and_completed() {
    let registry = DriverRegistry::new(vec![3]);
    let mut k = two_process_kernel(FaultPolicy::RestartAlways);
    let r = k.handle_trap(0, CLASS_COMMAND, 3, 42, 7, 8, &registry);
    assert_eq!(
        r,
        DispatchOutcome::InvokeDriver { driver: 3, command_id: 42, arg0: 7, arg1: 8 }
    );
    // The board invokes the driver and reports its reply.
    k.complete_command(0, RETURN_SUCCESS, 1111, 2222);
    let p0 = k.processes[0].as_ref().expect("present");
    assert_eq!(p0.context.a0, RETURN_SUCCESS);
    assert_eq!(p0.context.a1, 1111);
    assert_eq!(p0.context.a2, 2222);
}

#[test]
fn subscribed_callback_is_delivered_on_yield() {
    let registry = DriverRegistry::new(vec![3]);
    let mut k = two_process_kernel(FaultPolicy::RestartAlways);
    let r = k.handle_trap(0, CLASS_SUBSCRIBE, 3, 5, 0x1000_0100, 0xDDDD, &registry);
    assert_eq!(r, DispatchOutcome::Handled);
    assert!(k.schedule_callback(0, 0, Callback {
        driver: 3,
        subscribe_id: 5,
        arg0: 21,
        arg1: 22,
        arg2: 23,
    }));
    let r = k.handle_trap(0, CLASS_YIELD, YIELD_WAIT, 0, 0, 0, &registry);
    assert_eq!(r, DispatchOutcome::Handled);
    let p0 = k.processes[0].as_ref().expect("present");
    assert_eq!(p0.context.pc, 0x1000_0100);
    assert_eq!(p0.context.a0, 21);
    assert_eq!(p0.context.a1, 22);
    assert_eq!(p0.context.a2, 23);
    assert_eq!(p0.context.a3, 0xDDDD);
    assert_eq!(p0.state, State::Running);
}

#[test]
fn yield_wait_blocks_until_a_callback_arrives() {
    let registry = DriverRegistry::new(vec![3]);
    let loop_cap = MainLoopCapability::create();
    let mut k = two_process_kernel(FaultPolicy::RestartAlways);
    k.handle_trap(0, CLASS_SUBSCRIBE, 3, 5, 0x1000_0200, 0, &registry);
    // Nothing pending: the process blocks.
    k.handle_trap(0, CLASS_YIELD, YIELD_WAIT, 0, 0, 0, &registry);
    assert_eq!(k.process_state(0), Some(State::Yielded));
    // A blocked process without callbacks is not runnable; slot 1 runs.
    let mut rr = RoundRobinSched::new(3, 10_000);
    match k.next_decision(&mut rr, &loop_cap) {
        SchedulingDecision::Run { slot, .. } => assert_eq!(slot, 1),
        SchedulingDecision::Sleep => panic!("slot 1 is runnable"),
    }
    // A callback makes it runnable again; selection delivers the callback.
    assert!(k.schedule_callback(0, 0, Callback {
        driver: 3,
        subscribe_id: 5,
        arg0: 1,
        arg1: 2,
        arg2: 3,
    }));
    let mut rr0 = RoundRobinSched::new(3, 10_000);
    match k.next_decision(&mut rr0, &loop_cap) {
        SchedulingDecision::Run { slot, .. } => assert_eq!(slot, 0),
        SchedulingDecision::Sleep => panic!("slot 0 is runnable again"),
    }
    let p0 = k.processes[0].as_ref().expect("present");
    assert_eq!(p0.state, State::Running);
    assert_eq!(p0.context.pc, 0x1000_0200);
}

#[test]
fn yield_without_wait_only_gives_up_the_timeslice() {
    let registry = DriverRegistry::new(vec![3]);
    let mut k = two_process_kernel(FaultPolicy::RestartAlways);
    k.handle_trap(0, CLASS_SUBSCRIBE, 3, 5, 0x1000_0300, 0, &registry);
    assert!(k.schedule_callback(0, 0, Callback {
        driver: 3,
        subscribe_id: 5,
        arg0: 1,
        arg1: 2,
        arg2: 3,
    }));
    let pc_before = k.processes[0].as_ref().expect("present").context.pc;
    let r = k.handle_trap(0, CLASS_YIELD, 0, 0, 0, 0, &registry);
    assert_eq!(r, DispatchOutcome::Handled);
    // No delivery, no blocking: the callback stays queued and the process
    // stays runnable at its old program counter.
    let p0 = k.processes[0].as_ref().expect("present");
    assert_eq!(p0.callbacks.len(), 1);
    assert_eq!(p0.context.pc, pc_before);
    assert!(p0.state != State::Yielded);
}

#[test]
fn overflowing_the_callback_queue_drops_the_newest_and_counts_it() {
    let mut k = two_process_kernel(FaultPolicy::RestartAlways);
    let cb = |n: usize| Callback { driver: 3, subscribe_id: 5, arg0: n, arg1: 0, arg2: 0 };
    // Queue capacity is 4.
    assert!(k.schedule_callback(0, 0, cb(1)));
    assert!(k.schedule_callback(0, 0, cb(2)));
    assert!(k.schedule_callback(0, 0, cb(3)));
    assert!(k.schedule_callback(0, 0, cb(4)));
    assert!(!k.schedule_callback(0, 0, cb(5)));
    assert!(!k.schedule_callback(0, 0, cb(6)));
    assert_eq!(k.dropped_callbacks(0), Some(2));
    // The queued callbacks are unharmed and come out oldest first.
    let p0 = k.processes[0].as_mut().expect("present");
    assert_eq!(p0.callbacks.len(), 4);
    assert_eq!(p0.callbacks.dequeue().map(|c| c.arg0), Some(1));
    assert_eq!(p0.callbacks.dequeue().map(|c| c.arg0), Some(2));
}

#[test]
fn trap_outside_the_abi_faults_the_process() {
    let registry = DriverRegistry::new(vec![]);
    let mut k = two_process_kernel(FaultPolicy::RestartAlways);
    let r = k.handle_trap(0, 99, 0, 0, 0, 0, &registry);
    assert_eq!(r, DispatchOutcome::FaultedCall);
    assert_eq!(k.process_generation(0), Some(1));
    // An undecodable Yield argument is outside the ABI too.
    let r = k.handle_trap(1, CLASS_YIELD, 7, 0, 0, 0, &registry);
    assert_eq!(r, DispatchOutcome::FaultedCall);
}

#[test]
fn callbacks_for_an_old_generation_are_dropped_safely() {
    let mut k = two_process_kernel(FaultPolicy::RestartAlways);
    assert_eq!(k.memory_access(0, 0x3000_0000), Some(FaultOutcome::Restarted));
    // A driver still holding a generation-0 reference cannot reach the new
    // incarnation.
    let stale = k.schedule_callback(0, 0, Callback {
        driver: 3,
        subscribe_id: 5,
        arg0: 1,
        arg1: 2,
        arg2: 3,
    });
    assert!(!stale);
    assert_eq!(k.processes[0].as_ref().expect("present").callbacks.len(), 0);
}

#[test]
fn exit_is_terminal() {
    let registry = DriverRegistry::new(vec![]);
    let mut k = two_process_kernel(FaultPolicy::RestartAlways);
    let r = k.handle_trap(0, CLASS_EXIT, 0, 0, 0, 0, &registry);
    assert_eq!(r, DispatchOutcome::Handled);
    assert_eq!(k.process_state(0), Some(State::Stopped));
}

#[test]
fn process_returned_dispatches_and_reports() {
    let registry = DriverRegistry::new(vec![3]);
    let mut rr = RoundRobinSched::new(3, 10_000);
    let mut k = two_process_kernel(FaultPolicy::RestartAlways);
    let r = k.process_returned(
        &mut rr,
        0,
        RunReturn::Syscall { class: CLASS_COMMAND, arg0: 3, arg1: 1, arg2: 0, arg3: 0 },
        &registry,
    );
    assert_eq!(
        r,
        Some(DispatchOutcome::InvokeDriver { driver: 3, command_id: 1, arg0: 0, arg1: 0 })
    );
    assert_eq!(k.process_returned(&mut rr, 0, RunReturn::TimesliceExpired, &registry), None);
    assert_eq!(k.process_returned(&mut rr, 1, RunReturn::Fault, &registry), None);
    assert_eq!(k.process_generation(1), Some(1));
}

#[test]
fn deferred_flags_come_back_lowest_first() {
    let mut k = Kernel::new(0, 4);
    assert!(k.set_deferred(2));
    assert!(k.set_deferred(0));
    assert!(!k.set_deferred(9));
    assert_eq!(k.take_deferred(), Some(0));
    assert_eq!(k.take_deferred(), Some(2));
    assert_eq!(k.take_deferred(), None);
}

#[test]
fn boot_batch_load_places_valid_images_in_order() {
    let cap = ProcessManagementCapability::create();
    let mut k = Kernel::new(2, 0);
    let mut bad = make_image(128, 4, &[], 32);
    bad[0] = 0;
    let apps = vec![
        (make_image(128, 4, &[1], 32), FLASH0, RAM0),
        (bad, FLASH0 + 0x1000, RAM0 + 0x1000),
        (make_image(128, 4, &[2], 32), FLASH1, RAM1),
        (make_image(128, 4, &[3], 32), FLASH1 + 0x1000, RAM1 + 0x1000),
    ];
    let placed = k.load_processes(&apps, RAM_SIZE, FaultPolicy::RestartAlways, 4, &cap);
    // The invalid image is skipped; the fourth finds the table full.
    assert_eq!(placed, 2);
    assert_eq!(k.process_state(0), Some(State::Unstarted));
    assert_eq!(k.process_state(1), Some(State::Unstarted));
    // Slot 0 came from the first image, slot 1 from the third.
    assert_eq!(k.processes[0].as_ref().expect("present").ram[0], 1);
    assert_eq!(k.processes[1].as_ref().expect("present").ram[0], 2);
    assert_eq!(k.processes[1].as_ref().expect("present").flash_base, FLASH1);
}

#[test]
fn ipc_windows_are_validated_against_the_owners_ram() {
    let mut k = two_process_kernel(FaultPolicy::RestartAlways);
    // A window inside process 0's RAM is accepted, read-only, tagged with
    // the owner's generation.
    let (region, generation) = k.ipc_share_region(0, RAM0 + 32, 16).expect("window fits");
    assert_eq!(region.region.start, RAM0 + 32);
    assert_eq!(region.region.size, 16);
    assert_eq!(generation, 0);
    assert!(!k.ipc_binding_stale(0, generation));
    // A window reaching outside the owner's RAM is refused.
    assert!(k.ipc_share_region(0, RAM0 + 250, 16).is_none());
    assert!(k.ipc_share_region(0, RAM1, 8).is_none());
    // After the owner restarts, the binding is detectably stale.
    assert_eq!(k.memory_access(0, 0x3000_0000), Some(FaultOutcome::Restarted));
    assert!(k.ipc_binding_stale(0, generation));
    // An empty slot supports no binding at all.
    assert!(k.ipc_share_region(2, RAM0, 4).is_none());
    assert!(k.ipc_binding_stale(2, 0));
}

#[test]
fn faulting_syscalls_and_exits_report_their_real_reason() {
    // The scheduler is told the true stopped reason: a trap outside the
    // ABI faults, an Exit terminates. The built-in policies keep no
    // per-reason state, so this scenario checks the process-side effects
    // that accompany each reason.
    let registry = DriverRegistry::new(vec![3]);
    let mut rr = RoundRobinSched::new(3, 10_000);
    let mut k = two_process_kernel(FaultPolicy::RestartAlways);
    let r = k.process_returned(
        &mut rr,
        0,
        RunReturn::Syscall { class: 99, arg0: 0, arg1: 0, arg2: 0, arg3: 0 },
        &registry,
    );
    assert_eq!(r, Some(DispatchOutcome::FaultedCall));
    assert_eq!(k.process_generation(0), Some(1));
    let r = k.process_returned(
        &mut rr,
        1,
        RunReturn::Syscall { class: CLASS_EXIT, arg0: 0, arg1: 0, arg2: 0, arg3: 0 },
        &registry,
    );
    assert_eq!(r, Some(DispatchOutcome::Handled));
    assert_eq!(k.process_state(1), Some(State::Stopped));
}

#[test]
fn syscall_decoding_matches_the_abi() {
    assert_eq!(decode(CLASS_YIELD, 0, 0, 0, 0), Some(Syscall::Yield { wait: false }));
    assert_eq!(decode(CLASS_YIELD, 1, 0, 0, 0), Some(Syscall::Yield { wait: true }));
    assert_eq!(decode(CLASS_YIELD, 2, 0, 0, 0), None);
    assert_eq!(
        decode(CLASS_SUBSCRIBE, 3, 5, 0x100, 7),
        Some(Syscall::Subscribe { driver: 3, subscribe_id: 5, callback_ptr: 0x100, appdata: 7 })
    );
    assert_eq!(
        decode(CLASS_COMMAND, 3, 42, 7, 8),
        Some(Syscall::Command { driver: 3, command_id: 42, arg0: 7, arg1: 8 })
    );
    assert_eq!(
        decode(CLASS_ALLOW_RW, 3, 0, 0x200, 16),
        Some(Syscall::ReadWriteAllow { driver: 3, allow_id: 0, ptr: 0x200, len: 16 })
    );
    assert_eq!(
        decode(kernel_core::syscall::CLASS_ALLOW_RO, 3, 0, 0x200, 16),
        Some(Syscall::ReadOnlyAllow { driver: 3, allow_id: 0, ptr: 0x200, len: 16 })
    );
    assert_eq!(decode(CLASS_EXIT, 1, 0, 0, 0), Some(Syscall::Exit { code: 1 }));
    assert_eq!(decode(99, 0, 0, 0, 0), None);
}
