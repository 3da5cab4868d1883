//! Scheduler abstraction and the built-in policies.
//!
//! The kernel loop sees a scheduler only through the [`Scheduler`] trait:
//! given which table slots are runnable, pick one to run (with an optional
//! time-slice budget) or report that the kernel may sleep; afterwards learn
//! why control came back. Three policies implement the contract:
//! round-robin (fair: every runnable process is picked within one full
//! rotation, proved in [`lemma_round_robin_fair`]), cooperative (no
//! preemption budget, first runnable slot), and priority (a higher-declared
//! priority always runs before a lower one, with no fairness promise).

use vstd::prelude::*;

verus! {

/// What the scheduler tells the kernel loop to do next.
#[derive(Clone, Copy, PartialEq, Eq, Debug)]
pub enum SchedulingDecision {
    /// Run the process in `slot`, preempting it after `timeslice_us`
    /// microseconds — or never, when no budget is given.
    Run { slot: usize, timeslice_us: Option<u32> },
    /// No process is runnable; the kernel may sleep until an interrupt.
    Sleep,
}

/// Why the running process handed control back to the kernel.
#[derive(Clone, Copy, PartialEq, Eq, Structural, Debug)]
pub enum StoppedReason {
    /// It yielded voluntarily.
    Yielded,
    /// Its time-slice budget expired.
    TimesliceExpired,
    /// It hit a protection fault.
    Faulted,
    /// It exited or was stopped.
    Terminated,
}

/// A decision is sound for a runnable map when it runs a runnable slot, or
/// sleeps only with nothing runnable.
pub open spec fn decision_valid(runnable: Seq<bool>, d: SchedulingDecision) -> bool {
    match d {
        SchedulingDecision::Run { slot, timeslice_us } => slot < runnable.len()
            && runnable[slot as int],
        SchedulingDecision::Sleep => forall|i: int| 0 <= i < runnable.len() ==> !runnable[i],
    }
}

/// The one contract every scheduling policy meets: `next` picks a runnable
/// slot or sleeps only when none is, and `result` may update internal state
/// but keeps the policy well formed and sized to its table.
pub trait Scheduler: Sized {
    /// Internal consistency of the policy's state.
    spec fn wf(&self) -> bool;

    /// Number of process-table slots the policy was built for.
    spec fn slots(&self) -> nat;

    /// Picks the next process to run, or reports that nothing is runnable.
    fn next(&mut self, runnable: &Vec<bool>) -> (d: SchedulingDecision)
        requires
            old(self).wf(),
            runnable@.len() == old(self).slots(),
        ensures
            final(self).wf(),
            final(self).slots() == old(self).slots(),
            decision_valid(runnable@, d),
    ;

    /// Learns why the process in `slot` stopped executing.
    fn result(&mut self, slot: usize, reason: StoppedReason)
        requires
            old(self).wf(),
        ensures
            final(self).wf(),
            final(self).slots() == old(self).slots(),
    ;
}

/// `i` taken once around a table of `n` slots: `i` itself, or `i - n` after
/// the wrap.
pub open spec fn wrap(i: int, n: int) -> int {
    if i < n {
        i
    } else {
        i - n
    }
}

/// Slots from `start` forward to `p`, counting the wrap: how many `next`
/// steps a cursor at `start` is away from `p`.
pub open spec fn rr_distance(start: int, p: int, n: int) -> int {
    if p >= start {
        p - start
    } else {
        p - start + n
    }
}

/// The round-robin scan: the first runnable slot at or after `start + k`,
/// scanning cyclically, having already skipped `k` slots.
pub open spec fn rr_scan(runnable: Seq<bool>, start: int, k: int) -> Option<int>
    decreases runnable.len() - k,
{
    if k < 0 || k >= runnable.len() {
        None
    } else {
        let idx = wrap(start + k, runnable.len() as int);
        if runnable[idx] {
            Some(idx)
        } else {
            rr_scan(runnable, start, k + 1)
        }
    }
}

/// The slot round-robin picks with its cursor at `start`: the first
/// runnable slot scanning cyclically from `start`.
pub open spec fn rr_choice(runnable: Seq<bool>, start: int) -> Option<int> {
    rr_scan(runnable, start, 0)
}

/// The cursor after one selection: one past the picked slot (wrapped), or
/// unchanged when nothing was runnable.
pub open spec fn rr_next_cursor(runnable: Seq<bool>, start: int) -> int {
    match rr_choice(runnable, start) {
        Some(i) => wrap(i + 1, runnable.len() as int),
        None => start,
    }
}

/// The cursor after `t` selections with the runnable map held fixed.
pub open spec fn rr_cursor_after(runnable: Seq<bool>, start: int, t: nat) -> int
    decreases t,
{
    if t == 0 {
        start
    } else {
        rr_next_cursor(runnable, rr_cursor_after(runnable, start, (t - 1) as nat))
    }
}

/// The slot picked by the `t`-th selection (counting from zero) with the
/// runnable map held fixed.
pub open spec fn rr_pick(runnable: Seq<bool>, start: int, t: nat) -> Option<int> {
    rr_choice(runnable, rr_cursor_after(runnable, start, t))
}

/// Round-robin: a rotating cursor; each selection picks the first runnable
/// slot at or after the cursor and parks the cursor just past it.
pub struct RoundRobinSched {
    /// Number of process-table slots.
    pub nslots: usize,
    /// The slot the next scan starts at.
    pub cursor: usize,
    /// Time-slice budget handed to every selected process.
    pub timeslice_us: u32,
}

impl RoundRobinSched {
    pub fn new(nslots: usize, timeslice_us: u32) -> (r: RoundRobinSched)
        requires
            nslots >= 1,
        ensures
            r.wf(),
            r.slots() == nslots,
            r.cursor == 0,
            r.timeslice_us == timeslice_us,
    {
        RoundRobinSched { nslots, cursor: 0, timeslice_us }
    }
}

impl Scheduler for RoundRobinSched {
    open spec fn wf(&self) -> bool {
        &&& self.nslots >= 1
        &&& (self.cursor as int) < self.nslots
    }

    open spec fn slots(&self) -> nat {
        self.nslots as nat
    }

    /// Picks exactly [`rr_choice`] of the current cursor and advances the
    /// cursor past the picked slot.
    #[verifier::loop_isolation(false)]
    fn next(&mut self, runnable: &Vec<bool>) -> (d: SchedulingDecision)
        ensures
            (d matches SchedulingDecision::Run { slot, timeslice_us } ==> rr_choice(
                runnable@,
                old(self).cursor as int,
            ) == Some(slot as int) && timeslice_us == Some(old(self).timeslice_us) && final(self).cursor
                == wrap(slot + 1, runnable@.len() as int)),
            d == SchedulingDecision::Sleep ==> rr_choice(runnable@, old(self).cursor as int)
                is None && final(self).cursor == old(self).cursor,
            final(self).nslots == old(self).nslots,
            final(self).timeslice_us == old(self).timeslice_us,
    {
        let n = runnable.len();
        let start = self.cursor;
        let mut k: usize = 0;
        while k < n
            invariant
                k <= n,
                self.nslots == old(self).nslots,
                self.timeslice_us == old(self).timeslice_us,
                self.cursor == start,
                rr_scan(runnable@, start as int, k as int) == rr_choice(runnable@, start as int),
                forall|j: int| 0 <= j < k ==> !runnable@[#[trigger] wrap(start + j, n as int)],
            decreases n - k,
        {
            let idx = if start < n - k {
                start + k
            } else {
                start - (n - k)
            };
            proof {
                assert(idx == wrap(start + k, n as int));
            }
            if runnable[idx] {
                self.cursor = if idx < n - 1 {
                    idx + 1
                } else {
                    0
                };
                return SchedulingDecision::Run {
                    slot: idx,
                    timeslice_us: Some(self.timeslice_us),
                };
            }
            k = k + 1;
        }
        proof {
            assert forall|i: int| 0 <= i < runnable@.len() implies !runnable@[i] by {
                let j = rr_distance(start as int, i, n as int);
                assert(wrap(start + j, n as int) == i);
            }
        }
        SchedulingDecision::Sleep
    }

    /// Round-robin keeps no per-outcome state: the cursor already moved
    /// when the slot was picked.
    fn result(&mut self, slot: usize, reason: StoppedReason)
        ensures
            *final(self) == *old(self),
    {
    }
}

/// With `p` runnable and at most `d` slots ahead of the cursor, some
/// selection within the first `d + 1` picks `p`: each selection that misses
/// `p` moves the cursor strictly closer to it.
proof fn lemma_rr_reaches(runnable: Seq<bool>, c: int, p: int)
    requires
        runnable.len() >= 1,
        0 <= c < runnable.len(),
        0 <= p < runnable.len(),
        runnable[p],
    ensures
        exists|t: nat|
            t <= rr_distance(c, p, runnable.len() as int) && rr_pick(runnable, c, t) == Some(p),
    decreases rr_distance(c, p, runnable.len() as int),
{
    let n = runnable.len() as int;
    let dp = rr_distance(c, p, n);
    lemma_rr_scan_finds(runnable, c, 0, p);
    let q = rr_choice(runnable, c)->Some_0;
    if q == p {
        assert(rr_cursor_after(runnable, c, 0) == c);
        assert(rr_pick(runnable, c, 0) == Some(p));
    } else {
        lemma_rr_scan_in_range(runnable, c, 0, q);
        let c2 = wrap(q + 1, n);
        assert(rr_distance(c2, p, n) < dp);
        lemma_rr_reaches(runnable, c2, p);
        let t2 = choose|t2: nat|
            t2 <= rr_distance(c2, p, n) && rr_pick(runnable, c2, t2) == Some(p);
        lemma_rr_cursor_shift(runnable, c, t2);
        assert(rr_cursor_after(runnable, c, (t2 + 1) as nat) == rr_cursor_after(runnable, c2, t2));
        assert(rr_pick(runnable, c, (t2 + 1) as nat) == Some(p));
    }
}

/// A scan that starts at or before a runnable slot finds some slot, and no
/// farther than that one.
proof fn lemma_rr_scan_finds(runnable: Seq<bool>, c: int, k: int, p: int)
    requires
        runnable.len() >= 1,
        0 <= c < runnable.len(),
        0 <= p < runnable.len(),
        runnable[p],
        0 <= k <= rr_distance(c, p, runnable.len() as int),
    ensures
        rr_scan(runnable, c, k) is Some,
        rr_distance(c, rr_scan(runnable, c, k)->Some_0, runnable.len() as int) <= rr_distance(
            c,
            p,
            runnable.len() as int,
        ),
    decreases runnable.len() - k,
{
    let n = runnable.len() as int;
    let idx = wrap(c + k, n);
    if runnable[idx] {
        assert(rr_distance(c, idx, n) == k);
    } else {
        assert(wrap(c + rr_distance(c, p, n), n) == p);
        assert(idx != p);
        assert(k < rr_distance(c, p, n));
        lemma_rr_scan_finds(runnable, c, k + 1, p);
    }
}

/// Whatever a scan starting at skip `k` returns lies at least `k` slots
/// past the cursor.
proof fn lemma_rr_scan_in_range(runnable: Seq<bool>, c: int, k: int, q: int)
    requires
        runnable.len() >= 1,
        0 <= c < runnable.len(),
        0 <= k <= runnable.len(),
        rr_scan(runnable, c, k) == Some(q),
    ensures
        0 <= q < runnable.len(),
        k <= rr_distance(c, q, runnable.len() as int) < runnable.len(),
        runnable[q],
    decreases runnable.len() - k,
{
    let n = runnable.len() as int;
    let idx = wrap(c + k, n);
    if runnable[idx] {
        assert(rr_distance(c, idx, n) == k);
    } else {
        lemma_rr_scan_in_range(runnable, c, k + 1, q);
    }
}

/// Selection `t + 1` from a cursor is selection `t` from the cursor one
/// step later.
proof fn lemma_rr_cursor_shift(runnable: Seq<bool>, c: int, t: nat)
    ensures
        rr_cursor_after(runnable, c, (t + 1) as nat) == rr_cursor_after(
            runnable,
            rr_next_cursor(runnable, c),
            t,
        ),
    decreases t,
{
    if t > 0 {
        lemma_rr_cursor_shift(runnable, c, (t - 1) as nat);
        assert(rr_cursor_after(runnable, c, (t + 1) as nat) == rr_next_cursor(
            runnable,
            rr_cursor_after(runnable, c, t),
        ));
    } else {
        assert(rr_cursor_after(runnable, c, 1) == rr_next_cursor(
            runnable,
            rr_cursor_after(runnable, c, 0),
        ));
        assert(rr_cursor_after(runnable, c, 0) == c);
    }
}

/// Round-robin fairness: with the runnable map held fixed, every runnable
/// slot is picked at least once within any window of `n` consecutive
/// selections, where `n` is the table size — no runnable process starves.
pub proof fn lemma_round_robin_fair(runnable: Seq<bool>, start: int, p: int)
    requires
        runnable.len() >= 1,
        0 <= start < runnable.len(),
        0 <= p < runnable.len(),
        runnable[p],
    ensures
        exists|t: nat| t < runnable.len() && rr_pick(runnable, start, t) == Some(p),
{
    lemma_rr_reaches(runnable, start, p);
    let t = choose|t: nat|
        t <= rr_distance(start, p, runnable.len() as int) && rr_pick(runnable, start, t) == Some(
            p,
        );
    assert(t < runnable.len());
}


/// Runnable slots among the first `upto` of the table.
pub open spec fn count_runnable(runnable: Seq<bool>, upto: int) -> int
    decreases upto,
{
    if upto <= 0 {
        0
    } else {
        count_runnable(runnable, upto - 1) + if runnable[upto - 1] {
            1int
        } else {
            0
        }
    }
}

/// Runnable slots among the `d` slots cyclically ahead of cursor `c`.
pub open spec fn rr_runnable_ahead(runnable: Seq<bool>, c: int, d: int) -> int
    decreases d,
{
    if d <= 0 {
        0
    } else {
        rr_runnable_ahead(runnable, c, d - 1) + if runnable[wrap(
            c + (d - 1),
            runnable.len() as int,
        )] {
            1int
        } else {
            0
        }
    }
}

/// The ahead-count is non-negative and grows with the window.
proof fn lemma_ahead_bounds(runnable: Seq<bool>, c: int, d1: int, d2: int)
    requires
        0 <= d1 <= d2,
    ensures
        0 <= rr_runnable_ahead(runnable, c, d1) <= rr_runnable_ahead(runnable, c, d2),
    decreases d2,
{
    if d2 > d1 {
        lemma_ahead_bounds(runnable, c, d1, d2 - 1);
    } else if d1 > 0 {
        lemma_ahead_bounds(runnable, c, 0, d1 - 1);
    }
}

/// Splitting a cyclic window: the count over `d1 + d2` slots ahead of `c`
/// is the count over the first `d1` plus the count ahead of the cursor
/// moved `d1` slots on.
proof fn lemma_ahead_split(runnable: Seq<bool>, c: int, d1: int, d2: int)
    requires
        runnable.len() >= 1,
        0 <= c < runnable.len(),
        0 <= d1,
        0 <= d2,
        d1 + d2 <= runnable.len(),
    ensures
        rr_runnable_ahead(runnable, c, d1 + d2) == rr_runnable_ahead(runnable, c, d1)
            + rr_runnable_ahead(runnable, wrap(c + d1, runnable.len() as int), d2),
    decreases d2,
{
    let n = runnable.len() as int;
    if d2 > 0 {
        lemma_ahead_split(runnable, c, d1, d2 - 1);
        assert(wrap(wrap(c + d1, n) + (d2 - 1), n) == wrap(c + (d1 + d2 - 1), n));
    }
}

/// A window that never wraps counts the same slots as the plain prefix
/// difference.
proof fn lemma_ahead_plain(runnable: Seq<bool>, c: int, d: int)
    requires
        runnable.len() >= 1,
        0 <= c,
        0 <= d,
        c + d <= runnable.len(),
    ensures
        rr_runnable_ahead(runnable, c, d) == count_runnable(runnable, c + d) - count_runnable(
            runnable,
            c,
        ),
    decreases d,
{
    if d > 0 {
        lemma_ahead_plain(runnable, c, d - 1);
        assert(wrap(c + (d - 1), runnable.len() as int) == c + d - 1);
    }
}

/// One full turn of the table ahead of any cursor counts every runnable
/// slot exactly once.
proof fn lemma_ahead_full_turn(runnable: Seq<bool>, c: int)
    requires
        runnable.len() >= 1,
        0 <= c < runnable.len(),
    ensures
        rr_runnable_ahead(runnable, c, runnable.len() as int) == count_runnable(
            runnable,
            runnable.len() as int,
        ),
{
    let n = runnable.len() as int;
    lemma_ahead_split(runnable, c, n - c, c);
    assert(wrap(c + (n - c), n) == 0);
    lemma_ahead_plain(runnable, c, n - c);
    lemma_ahead_plain(runnable, 0, c);
}

/// With `p` runnable, some selection among the first `1 + (runnable slots
/// strictly ahead of the cursor, before p)` picks `p`: every miss consumes
/// a distinct runnable slot of that arc.
proof fn lemma_rr_reaches_sharp(runnable: Seq<bool>, c: int, p: int)
    requires
        runnable.len() >= 1,
        0 <= c < runnable.len(),
        0 <= p < runnable.len(),
        runnable[p],
    ensures
        exists|t: nat|
            t <= rr_runnable_ahead(runnable, c, rr_distance(c, p, runnable.len() as int))
                && rr_pick(runnable, c, t) == Some(p),
    decreases rr_distance(c, p, runnable.len() as int),
{
    let n = runnable.len() as int;
    let dp = rr_distance(c, p, n);
    lemma_rr_scan_finds(runnable, c, 0, p);
    let q = rr_choice(runnable, c)->Some_0;
    if q == p {
        assert(rr_cursor_after(runnable, c, 0) == c);
        assert(rr_pick(runnable, c, 0) == Some(p));
        lemma_ahead_bounds(runnable, c, 0, dp);
        assert(0 <= rr_runnable_ahead(runnable, c, dp));
    } else {
        lemma_rr_scan_in_range(runnable, c, 0, q);
        let dq = rr_distance(c, q, n);
        let c2 = wrap(q + 1, n);
        let dp2 = rr_distance(c2, p, n);
        assert(dp2 == dp - dq - 1);
        lemma_rr_reaches_sharp(runnable, c2, p);
        let t2 = choose|t2: nat|
            t2 <= rr_runnable_ahead(runnable, c2, dp2) && rr_pick(runnable, c2, t2) == Some(p);
        lemma_rr_cursor_shift(runnable, c, t2);
        assert(rr_cursor_after(runnable, c, (t2 + 1) as nat) == rr_cursor_after(runnable, c2, t2));
        assert(rr_pick(runnable, c, (t2 + 1) as nat) == Some(p));
        lemma_ahead_split(runnable, c, dq + 1, dp2);
        assert(c2 == wrap(c + (dq + 1), n));
        assert(rr_runnable_ahead(runnable, c, dq + 1) == rr_runnable_ahead(runnable, c, dq)
            + 1) by {
            assert(wrap(c + dq, n) == q);
        }
        lemma_ahead_bounds(runnable, c, 0, dq);
        assert(t2 + 1 <= rr_runnable_ahead(runnable, c, dp));
    }
}

/// The sharp round-robin fairness bound: with the runnable map held
/// fixed, every runnable slot is picked at least once within any window
/// of `k` consecutive selections, where `k` is the number of runnable
/// slots — a process waits at most one turn of its runnable peers,
/// however large the table.
pub proof fn lemma_round_robin_fair_window(runnable: Seq<bool>, start: int, p: int)
    requires
        runnable.len() >= 1,
        0 <= start < runnable.len(),
        0 <= p < runnable.len(),
        runnable[p],
    ensures
        exists|t: nat|
            t < count_runnable(runnable, runnable.len() as int) && rr_pick(runnable, start, t)
                == Some(p),
{
    let n = runnable.len() as int;
    let dp = rr_distance(start, p, n);
    lemma_rr_reaches_sharp(runnable, start, p);
    let t = choose|t: nat|
        t <= rr_runnable_ahead(runnable, start, dp) && rr_pick(runnable, start, t) == Some(p);
    assert(rr_runnable_ahead(runnable, start, dp + 1) == rr_runnable_ahead(runnable, start, dp)
        + 1) by {
        assert(wrap(start + dp, n) == p);
    }
    lemma_ahead_bounds(runnable, start, dp + 1, n);
    lemma_ahead_full_turn(runnable, start);
    assert(t < count_runnable(runnable, n));
}

/// Cooperative scheduling: processes run in slot order and are never
/// preempted — the picked slot is always the first runnable one, with no
/// time-slice budget. No fairness is promised: a process that never yields
/// keeps the processor.
pub struct CooperativeSched {
    /// Number of process-table slots.
    pub nslots: usize,
}

impl CooperativeSched {
    pub fn new(nslots: usize) -> (r: CooperativeSched)
        requires
            nslots >= 1,
        ensures
            r.wf(),
            r.slots() == nslots,
    {
        CooperativeSched { nslots }
    }
}

impl Scheduler for CooperativeSched {
    open spec fn wf(&self) -> bool {
        self.nslots >= 1
    }

    open spec fn slots(&self) -> nat {
        self.nslots as nat
    }

    /// Picks the first runnable slot, without a preemption budget.
    #[verifier::loop_isolation(false)]
    fn next(&mut self, runnable: &Vec<bool>) -> (d: SchedulingDecision)
        ensures
            d matches SchedulingDecision::Run { slot, timeslice_us } ==> rr_choice(runnable@, 0)
                == Some(slot as int) && timeslice_us is None,
            d == SchedulingDecision::Sleep ==> rr_choice(runnable@, 0) is None,
            *final(self) == *old(self),
    {
        let n = runnable.len();
        let mut k: usize = 0;
        while k < n
            invariant
                k <= n,
                rr_scan(runnable@, 0, k as int) == rr_choice(runnable@, 0),
                forall|j: int| 0 <= j < k ==> !runnable@[j],
            decreases n - k,
        {
            proof {
                assert(k as int == wrap(0 + k, n as int));
            }
            if runnable[k] {
                return SchedulingDecision::Run { slot: k, timeslice_us: None };
            }
            k = k + 1;
        }
        SchedulingDecision::Sleep
    }

    fn result(&mut self, slot: usize, reason: StoppedReason)
        ensures
            *final(self) == *old(self),
    {
    }
}

/// Priority scheduling: every slot carries a fixed priority; the runnable
/// slot with the highest priority runs, ties broken toward the lowest slot
/// index. Higher priorities always run before lower ones — fairness is
/// explicitly traded for latency, and starvation of low priorities is
/// possible.
pub struct PrioritySched {
    /// Priority of each table slot; higher value runs first.
    pub priorities: Vec<u8>,
    /// Time-slice budget handed to every selected process.
    pub timeslice_us: u32,
}

impl PrioritySched {
    pub fn new(priorities: Vec<u8>, timeslice_us: u32) -> (r: PrioritySched)
        requires
            priorities@.len() >= 1,
        ensures
            r.wf(),
            r.slots() == priorities@.len(),
            r.priorities == priorities,
            r.timeslice_us == timeslice_us,
    {
        PrioritySched { priorities, timeslice_us }
    }
}

impl Scheduler for PrioritySched {
    open spec fn wf(&self) -> bool {
        self.priorities@.len() >= 1
    }

    open spec fn slots(&self) -> nat {
        self.priorities@.len()
    }

    /// Picks the runnable slot of highest priority; among equal priorities
    /// the lowest index wins.
    #[verifier::loop_isolation(false)]
    fn next(&mut self, runnable: &Vec<bool>) -> (d: SchedulingDecision)
        ensures
            d matches SchedulingDecision::Run { slot, timeslice_us } ==> {
                &&& timeslice_us == Some(old(self).timeslice_us)
                &&& forall|j: int|
                    0 <= j < runnable@.len() && runnable@[j] ==> old(self).priorities@[j]
                        <= old(self).priorities@[slot as int]
                &&& forall|j: int|
                    0 <= j < runnable@.len() && runnable@[j] && old(self).priorities@[j]
                        == old(self).priorities@[slot as int] ==> slot <= j
            },
            *final(self) == *old(self),
    {
        let n = runnable.len();
        let mut best: Option<usize> = None;
        let mut k: usize = 0;
        while k < n
            invariant
                k <= n,
                best is None ==> forall|j: int| 0 <= j < k ==> !runnable@[j],
                best matches Some(b) ==> b < k && runnable@[b as int] && (forall|j: int|
                    0 <= j < k && runnable@[j] ==> self.priorities@[j] <= self.priorities@[
                        b as int
                    ]) && (forall|j: int|
                    0 <= j < k && runnable@[j] && self.priorities@[j] == self.priorities@[b as int]
                        ==> b <= j),
            decreases n - k,
        {
            if runnable[k] {
                best = match best {
                    None => Some(k),
                    Some(b) => if self.priorities[k] > self.priorities[b] {
                        Some(k)
                    } else {
                        Some(b)
                    },
                };
            }
            k = k + 1;
        }
        match best {
            Some(b) => SchedulingDecision::Run {
                slot: b,
                timeslice_us: Some(self.timeslice_us),
            },
            None => SchedulingDecision::Sleep,
        }
    }

    fn result(&mut self, slot: usize, reason: StoppedReason)
        ensures
            *final(self) == *old(self),
    {
    }
}

} // verus!
