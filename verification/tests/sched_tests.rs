use kernel_core::sched::{
    CooperativeSched, PrioritySched, RoundRobinSched, Scheduler, SchedulingDecision,
};

fn run_slot(d: SchedulingDecision) -> usize {
    match d {
        SchedulingDecision::Run { slot, .. } => slot,
        SchedulingDecision::Sleep => panic!("expected a Run decision"),
    }
}

#[test]
fn round_robin_rotates_through_all_runnable() {
    let mut rr = RoundRobinSched::new(3, 10_000);
    let runnable = vec![true, true, true];
    let first = run_slot(rr.next(&runnable));
    let second = run_slot(rr.next(&runnable));
    let third = run_slot(rr.next(&runnable));
    assert_eq!(first, 0);
    assert_eq!(second, 1);
    assert_eq!(third, 2);
    // Within any window of three selections every slot appeared once.
    let mut seen = vec![false, false, false];
    seen[first] = true;
    seen[second] = true;
    seen[third] = true;
    assert!(seen[0] && seen[1] && seen[2]);
    // The rotation then wraps.
    assert_eq!(run_slot(rr.next(&runnable)), 0);
}

#[test]
fn round_robin_skips_unrunnable_slots() {
    let mut rr = RoundRobinSched::new(3, 10_000);
    let runnable = vec![false, true, false];
    assert_eq!(run_slot(rr.next(&runnable)), 1);
    assert_eq!(run_slot(rr.next(&runnable)), 1);
}

#[test]
fn round_robin_sleeps_when_nothing_runnable() {
    let mut rr = RoundRobinSched::new(2, 10_000);
    let runnable = vec![false, false];
    assert_eq!(rr.next(&runnable), SchedulingDecision::Sleep);
}

#[test]
fn round_robin_hands_out_a_timeslice() {
    let mut rr = RoundRobinSched::new(1, 1234);
    match rr.next(&vec![true]) {
        SchedulingDecision::Run { slot, timeslice_us } => {
            assert_eq!(slot, 0);
            assert_eq!(timeslice_us, Some(1234));
        },
        SchedulingDecision::Sleep => panic!("expected a Run decision"),
    }
}

#[test]
fn round_robin_covers_runnable_peers_within_their_own_count() {
    // Four slots, two runnable: both are picked within any window of two
    // consecutive selections, however large the table.
    let mut rr = RoundRobinSched::new(4, 10_000);
    let runnable = vec![false, true, false, true];
    let first = run_slot(rr.next(&runnable));
    let second = run_slot(rr.next(&runnable));
    assert_eq!(first, 1);
    assert_eq!(second, 3);
    // The next window of two covers both again.
    assert_eq!(run_slot(rr.next(&runnable)), 1);
    assert_eq!(run_slot(rr.next(&runnable)), 3);
}

#[test]
fn cooperative_picks_first_runnable_without_budget() {
    let mut coop = CooperativeSched::new(3);
    match coop.next(&vec![false, true, true]) {
        SchedulingDecision::Run { slot, timeslice_us } => {
            assert_eq!(slot, 1);
            assert_eq!(timeslice_us, None);
        },
        SchedulingDecision::Sleep => panic!("expected a Run decision"),
    }
    // Cooperative never rotates: the same slot is picked again.
    assert_eq!(run_slot(coop.next(&vec![false, true, true])), 1);
    assert_eq!(coop.next(&vec![false, false, false]), SchedulingDecision::Sleep);
}

#[test]
fn priority_picks_highest_declared_priority() {
    let mut ps = PrioritySched::new(vec![1, 9, 5], 10_000);
    assert_eq!(run_slot(ps.next(&vec![true, true, true])), 1);
    // With the high-priority slot blocked, the next one down runs.
    assert_eq!(run_slot(ps.next(&vec![true, false, true])), 2);
    assert_eq!(ps.next(&vec![false, false, false]), SchedulingDecision::Sleep);
}

#[test]
fn priority_breaks_ties_toward_lowest_slot() {
    let mut ps = PrioritySched::new(vec![3, 7, 7], 10_000);
    assert_eq!(run_slot(ps.next(&vec![true, true, true])), 1);
}
