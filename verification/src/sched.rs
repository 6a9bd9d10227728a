//! The cooperative round-robin scheduler.
//!
//! The 1 kHz tick drives everything. Each tick, the scheduler resumes every
//! `Ready` task once, in task-index order; the task runs one slice and switches
//! back. Blocked tasks are skipped: they consume no CPU until the kernel wakes
//! them at rendezvous.
//!
//! The register switch itself belongs to the machine. What is decided here is
//! whom to resume, when a round is over, what a fresh context holds and how a
//! faulted task comes back.

use vstd::prelude::*;

use crate::ipc;
use crate::ipc::N_TASKS;
use crate::protocol;
use crate::protocol::{ContextView, KernelView};
use crate::task::{task_entry_addr, Kernel, TaskState};

verus! {

/// Suspended register state: one per task, plus one for the scheduler.
#[derive(Debug, Clone, Copy)]
pub struct Context {
    /// Resume address.
    pub pc: u32,
    /// Stack pointer (`a1`).
    pub sp: u32,
    /// The whole current window, `a0`..`a15`.
    pub a: [u32; 16],
    /// Shift-amount register.
    pub sar: u32,
    /// Which physical window is current.
    pub windowbase: u32,
    /// Which windows are live: `1 << windowbase` in a saved context.
    pub windowstart: u32,
}

impl View for Context {
    type V = ContextView;

    open spec fn view(&self) -> ContextView {
        ContextView {
            pc: self.pc,
            sp: self.sp,
            a: self.a@,
            sar: self.sar,
            windowbase: self.windowbase,
            windowstart: self.windowstart,
        }
    }
}

/// Only the current window is live: what must hold of a context that is
/// resumed.
pub open spec fn resumable(c: ContextView) -> bool {
    c.windowbase < 16 && c.windowstart == 1u32 << c.windowbase
}

impl Context {
    pub fn zero() -> (c: Self)
        ensures
            c@ == protocol::zero_context(),
    {
        let c = Context { pc: 0, sp: 0, a: [0; 16], sar: 0, windowbase: 0, windowstart: 0 };
        assert(c@ =~= protocol::zero_context());
        c
    }

    /// A context for a task that has never run: resuming it jumps to `entry`
    /// with a clean window (only window 0 live), `SP` at the stack top,
    /// everything else zero.
    pub fn initial(entry: u32, stack_top: u32) -> (c: Self)
        ensures
            c@ == protocol::initial_context(entry, stack_top),
            resumable(c@),
    {
        let c = Context {
            pc: entry,
            sp: stack_top,
            a: [0; 16],
            sar: 0,
            windowbase: 0,
            windowstart: 1,
        };
        assert(c@ =~= protocol::initial_context(entry, stack_top));
        assert(1u32 << 0u32 == 1u32) by (bit_vector);
        c
    }
}

/// The scheduler's context.
pub fn sched_ctx_ptr(k: &mut Kernel) -> (c: &mut Context)
    ensures
        c@ == old(k)@.sched_ctx,
        final(k)@ == (KernelView { sched_ctx: final(c)@, ..old(k)@ }),
        old(k).wf() ==> final(k).wf(),
{
    &mut k.sched_ctx
}

/// Task `idx`'s context.
pub fn task_ctx_ptr(k: &mut Kernel, idx: usize) -> (c: &mut Context)
    requires
        idx < N_TASKS,
    ensures
        c@ == old(k)@.task_ctx[idx as int],
        final(k)@ == (KernelView {
            task_ctx: old(k)@.task_ctx.update(idx as int, final(c)@),
            ..old(k)@
        }),
        old(k).wf() ==> final(k).wf(),
{
    &mut k.task_ctx[idx]
}

/// Which task is running right now. Only valid during a task slice.
pub fn current_task(k: &Kernel) -> (idx: usize)
    ensures
        idx == k.current,
{
    k.current
}

/// Craft the initial context for task `idx`: the next resume jumps to `entry`
/// on a fresh stack.
pub fn init_task_context(k: &mut Kernel, idx: usize, entry: u32, stack_top: u32)
    requires
        idx < N_TASKS,
    ensures
        final(k)@ == (KernelView {
            task_ctx: old(k)@.task_ctx.update(
                idx as int,
                protocol::initial_context(entry, stack_top),
            ),
            ..old(k)@
        }),
        old(k).wf() ==> final(k).wf(),
{
    *task_ctx_ptr(k, idx) = Context::initial(entry, stack_top);
}

/// Kill and restart task `idx` after a fault: its IPC state is reset, partners
/// waiting for it learn of its death, and its next resume enters it afresh.
/// Returns how often the task has been restarted.
pub fn request_restart(k: &mut Kernel, idx: usize) -> (count: u32)
    requires
        old(k).wf(),
        idx < N_TASKS,
    ensures
        final(k).wf(),
        final(k)@ == protocol::request_restart(old(k)@, idx),
        count == final(k)@.restarts[idx as int],
{
    let count: u32 = k.restarts[idx].wrapping_add(1);
    k.restarts[idx] = count;
    let entry: u32 = task_entry_addr(k, idx);
    let stack_top: u32 = k.tasks[idx].stack_top;
    ipc::reset_for_restart(k, idx);
    init_task_context(k, idx, entry, stack_top);
    assert(k@ =~= protocol::request_restart(old(k)@, idx));
    count
}

// ---------------------------------------------------------------------------
// The scheduler loop
// ---------------------------------------------------------------------------

/// Where the scheduler loop stands.
#[derive(Debug, Clone, Copy, PartialEq, Eq, Structural)]
pub struct Sched {
    /// Ticks since boot, wrapping.
    pub ticks: u32,
    /// Within a tick's round: the first task that has not had its turn. `None`
    /// between rounds, while the timer is polled.
    pub next: Option<usize>,
}

/// What the loop has to do next.
#[derive(Debug, Clone, Copy, PartialEq, Eq, Structural)]
pub enum RunAction {
    /// Poll the timer: no tick yet.
    Poll,
    /// Resume the named task; it runs one slice and switches back.
    Resume(usize),
    /// The round is over. Print the tick marker and the heartbeat, as due, then
    /// poll the timer.
    Report {
        marker: bool,
        heartbeat: bool,
    },
}

/// Ticks between two tick markers.
pub const MARKER_TICKS: u32 = 100;

/// Ticks between two heartbeats.
pub const HEARTBEAT_TICKS: u32 = 1000;

/// Task `j` is the first `Ready` one at or after index `from`.
pub open spec fn next_ready(k: KernelView, from: int, j: int) -> bool {
    &&& from <= j < k.tasks.len()
    &&& k.tasks[j].state == TaskState::Ready
    &&& all_blocked(k, from, j)
}

/// No task in `from..to` is `Ready`.
pub open spec fn all_blocked(k: KernelView, from: int, to: int) -> bool {
    forall|i: int|
        from <= i < to ==> (#[trigger] k.tasks[i]).state == TaskState::Blocked
}

/// Where in the round a step of the loop starts looking for a task.
pub open spec fn turn_of(s: Sched) -> int {
    match s.next {
        Some(i) => i as int,
        None => 0,
    }
}

/// The tick count with which a step of the loop works.
pub open spec fn ticks_at(s: Sched) -> u32 {
    if s.next is None {
        protocol::counted(s.ticks)
    } else {
        s.ticks
    }
}

impl Sched {
    /// Before the first tick.
    pub fn new() -> (s: Self)
        ensures
            s == (Sched { ticks: 0, next: None }),
    {
        Sched { ticks: 0, next: None }
    }
}

/// One step of the scheduler loop.
///
/// Between rounds, `tick` says whether the timer ticked: if not, nothing
/// happens; if so, the tick is counted and a round begins. Within a round
/// `tick` is ignored: the next `Ready` task is made the current one and is to
/// be resumed, and after the last one the round is reported.
pub fn run(k: &mut Kernel, s: &mut Sched, tick: bool) -> (action: RunAction)
    requires
        old(k).wf(),
    ensures
        final(k).wf(),
        action == RunAction::Poll <==> old(s).next is None && !tick,
        // A round begins with the lowest `Ready` task of all.
        old(s).next is None ==> match action {
            RunAction::Poll => true,
            RunAction::Resume(j) => forall|i: int|
                0 <= i < j ==> (#[trigger] old(k)@.tasks[i]).state == TaskState::Blocked,
            RunAction::Report { marker, heartbeat } => forall|i: int|
                0 <= i < 6 ==> (#[trigger] old(k)@.tasks[i]).state == TaskState::Blocked,
        },
        match action {
            RunAction::Poll => final(k)@ == old(k)@ && *final(s) == *old(s),
            RunAction::Resume(j) => {
                &&& next_ready(old(k)@, turn_of(*old(s)), j as int)
                &&& final(k)@ == old(k)@.running(j as int)
                &&& *final(s) == (Sched { ticks: ticks_at(*old(s)), next: Some((j + 1) as usize) })
            },
            RunAction::Report { marker, heartbeat } => {
                &&& all_blocked(old(k)@, turn_of(*old(s)), N_TASKS as int)
                &&& final(k)@ == old(k)@
                &&& *final(s) == (Sched { ticks: ticks_at(*old(s)), next: None })
                &&& marker == (ticks_at(*old(s)) % MARKER_TICKS == 0)
                &&& heartbeat == (ticks_at(*old(s)) % HEARTBEAT_TICKS == 0)
            },
        },
{
    let mut idx: usize = match s.next {
        Some(i) => i,
        None => {
            // Idle: wait for the next tick.
            if !tick {
                return RunAction::Poll;
            }
            s.ticks = s.ticks.wrapping_add(1);
            0
        },
    };
    // Round-robin over Ready tasks; blocked tasks are skipped.
    while idx < N_TASKS
        invariant
            *k == *old(k),
            k.wf(),
            turn_of(*old(s)) <= idx,
            old(s).next is None ==> tick,
            s.ticks == ticks_at(*old(s)),
            all_blocked(k@, turn_of(*old(s)), idx as int),
        decreases N_TASKS - idx,
    {
        if k.tasks[idx].state == TaskState::Ready {
            k.current = idx;
            s.next = Some(idx + 1);
            assert(k@ =~= old(k)@.running(idx as int));
            return RunAction::Resume(idx);
        }
        idx += 1;
    }
    s.next = None;
    RunAction::Report {
        marker: s.ticks % MARKER_TICKS == 0,
        heartbeat: s.ticks % HEARTBEAT_TICKS == 0,
    }
}

/// One whole round, as a record: in state `states[n]` the loop resumed task
/// `order[n]`, and in the last state it found nobody left. What the tasks did
/// to the kernel between two states is not restricted.
pub open spec fn is_round(states: Seq<KernelView>, order: Seq<int>) -> bool {
    &&& states.len() == order.len() + 1
    &&& forall|n: int| 0 <= n < states.len() ==> (#[trigger] states[n]).tasks.len() == N_TASKS
    &&& forall|n: int|
        0 <= n < order.len() ==> next_ready(states[n], turn_in(order, n), #[trigger] order[n])
    &&& all_blocked(states.last(), turn_in(order, order.len() as int), N_TASKS as int)
}

/// Where the loop looks on after `n` tasks of a round were resumed.
pub open spec fn turn_in(order: Seq<int>, n: int) -> int {
    if n == 0 {
        0
    } else {
        order[n - 1] + 1
    }
}

proof fn lemma_order_increases(states: Seq<KernelView>, order: Seq<int>, m: int, n: int)
    requires
        is_round(states, order),
        0 <= m < n < order.len(),
    ensures
        order[m] < order[n],
    decreases n - m,
{
    assert(next_ready(states[n], turn_in(order, n), order[n]));
    if m < n - 1 {
        lemma_order_increases(states, order, m, n - 1);
    }
}

/// In state `states[m]` it was task `i`'s turn, and the loop skipped it because
/// it was `Blocked`.
pub open spec fn skipped_at(states: Seq<KernelView>, order: Seq<int>, i: int, m: int) -> bool {
    &&& 0 <= m <= order.len()
    &&& turn_in(order, m) <= i
    &&& m < order.len() ==> i < order[m]
    &&& states[m].tasks[i].state == TaskState::Blocked
}

proof fn lemma_skipped_was_blocked(states: Seq<KernelView>, order: Seq<int>, i: int, n: int)
    requires
        is_round(states, order),
        0 <= n <= order.len(),
        turn_in(order, n) <= i < N_TASKS,
        !order.contains(i),
    ensures
        exists|m: int| #[trigger] skipped_at(states, order, i, m),
    decreases order.len() - n,
{
    if n == order.len() {
        assert(skipped_at(states, order, i, n));
    } else {
        assert(next_ready(states[n], turn_in(order, n), order[n]));
        if i < order[n] {
            assert(skipped_at(states, order, i, n));
        } else {
            assert(turn_in(order, n + 1) == order[n] + 1);
            lemma_skipped_was_blocked(states, order, i, n + 1);
        }
    }
}

/// **Round-robin.** In one round tasks run in index order, each at most once,
/// and each was `Ready` when it was resumed. A task that did not run was
/// `Blocked` when its turn came.
pub proof fn law_round_robin(states: Seq<KernelView>, order: Seq<int>)
    requires
        is_round(states, order),
    ensures
        forall|m: int, n: int| 0 <= m < n < order.len() ==> order[m] < order[n],
        forall|n: int|
            0 <= n < order.len() ==> {
                &&& 0 <= #[trigger] order[n] < N_TASKS
                &&& states[n].tasks[order[n]].state == TaskState::Ready
            },
        forall|i: int|
            0 <= i < N_TASKS && !#[trigger] order.contains(i) ==> exists|m: int| #[trigger]
                skipped_at(states, order, i, m),
{
    assert forall|m: int, n: int| 0 <= m < n < order.len() implies order[m] < order[n] by {
        lemma_order_increases(states, order, m, n);
    }
    assert forall|n: int| 0 <= n < order.len() implies 0 <= #[trigger] order[n] < N_TASKS
        && states[n].tasks[order[n]].state == TaskState::Ready by {
        assert(next_ready(states[n], turn_in(order, n), order[n]));
        if n > 0 {
            assert(next_ready(states[0], turn_in(order, 0), order[0]));
            lemma_order_increases(states, order, 0, n);
        }
    }
    assert forall|i: int| 0 <= i < N_TASKS && !#[trigger] order.contains(i) implies exists|m: int| #[trigger]
        skipped_at(states, order, i, m) by {
        lemma_skipped_was_blocked(states, order, i, 0);
    }
}

/// **A round begins with the lowest `Ready` task of all,** whatever the tick
/// count. When the loop begins a round, no task before the one it resumes is
/// `Ready`; and it reports the round at once only if no task at all is.
pub proof fn law_round_begins_at_the_lowest(k: KernelView, s: Sched, j: int)
    requires
        k.tasks.len() == 6,
        s.next is None,
    ensures
        next_ready(k, turn_of(s), j) <==> {
            &&& 0 <= j < 6
            &&& k.tasks[j].state == TaskState::Ready
            &&& forall|i: int| 0 <= i < j ==> (#[trigger] k.tasks[i]).state == TaskState::Blocked
        },
        all_blocked(k, turn_of(s), 6) <==> forall|i: int|
            0 <= i < 6 ==> (#[trigger] k.tasks[i]).state == TaskState::Blocked,
        ticks_at(s) == (s.ticks + 1) % 0x1_0000_0000,
{
}

/// **A round goes on with the lowest `Ready` task that has not had its turn,** and
/// is over when there is none. The tick count stays.
pub proof fn law_round_goes_on_in_order(k: KernelView, s: Sched, j: int)
    requires
        k.tasks.len() == 6,
        s.next is Some,
    ensures
        next_ready(k, turn_of(s), j) <==> {
            &&& s.next->Some_0 <= j < 6
            &&& k.tasks[j].state == TaskState::Ready
            &&& forall|i: int|
                s.next->Some_0 <= i < j ==> (#[trigger] k.tasks[i]).state == TaskState::Blocked
        },
        all_blocked(k, turn_of(s), 6) <==> forall|i: int|
            s.next->Some_0 <= i < 6 ==> (#[trigger] k.tasks[i]).state == TaskState::Blocked,
        ticks_at(s) == s.ticks,
{
}

/// The steps of the loop from a tick to its report, as a record: in state
/// `states[n]` and at position `at[n]` the loop resumed task `order[n]`, and in
/// the last state and position it reported. Each step is one that [`run`]
/// promises.
pub open spec fn is_loop(states: Seq<KernelView>, at: Seq<Sched>, order: Seq<int>) -> bool {
    &&& states.len() == order.len() + 1
    &&& at.len() == order.len() + 1
    &&& at[0].next is None
    &&& forall|n: int| 0 <= n < states.len() ==> (#[trigger] states[n]).tasks.len() == N_TASKS
    &&& forall|n: int|
        0 <= n < order.len() ==> {
            &&& next_ready(states[n], turn_of(at[n]), #[trigger] order[n])
            &&& at[n + 1] == (Sched {
                ticks: ticks_at(at[n]),
                next: Some((order[n] + 1) as usize),
            })
        }
    &&& all_blocked(states.last(), turn_of(at.last()), N_TASKS as int)
}

proof fn lemma_loop_position(states: Seq<KernelView>, at: Seq<Sched>, order: Seq<int>, n: int)
    requires
        is_loop(states, at, order),
        0 <= n <= order.len(),
    ensures
        turn_of(at[n]) == turn_in(order, n),
        0 <= turn_in(order, n) <= 6,
        n > 0 ==> at[n].next is Some && at[n].ticks == (at[0].ticks + 1) % 0x1_0000_0000,
    decreases n,
{
    if n > 0 {
        lemma_loop_position(states, at, order, n - 1);
        assert(next_ready(states[n - 1], turn_of(at[n - 1]), order[n - 1]));
        assert(at[n - 1 + 1] == (Sched {
            ticks: ticks_at(at[n - 1]),
            next: Some((order[n - 1] + 1) as usize),
        }));
    }
}

/// **Every tick is one round of the loop.** From a tick to its report, the loop
/// resumes tasks in strictly increasing index order, each of them `Ready` then; a
/// task that it does not resume was `Blocked` when its turn came; and it counts
/// one tick. In particular a task that is `Ready` throughout the round is resumed
/// exactly once.
pub proof fn law_loop_is_round_robin(states: Seq<KernelView>, at: Seq<Sched>, order: Seq<int>)
    requires
        is_loop(states, at, order),
    ensures
        is_round(states, order),
        ticks_at(at.last()) == (at[0].ticks + 1) % 0x1_0000_0000,
        forall|m: int, n: int| 0 <= m < n < order.len() ==> order[m] < order[n],
        forall|n: int|
            0 <= n < order.len() ==> {
                &&& 0 <= #[trigger] order[n] < 6
                &&& states[n].tasks[order[n]].state == TaskState::Ready
            },
        forall|i: int|
            0 <= i < 6 && (forall|n: int|
                0 <= n < states.len() ==> (#[trigger] states[n]).tasks[i].state
                    == TaskState::Ready) ==> #[trigger] order.contains(i),
{
    assert forall|n: int| 0 <= n < order.len() implies next_ready(
        states[n],
        turn_in(order, n),
        #[trigger] order[n],
    ) by {
        lemma_loop_position(states, at, order, n);
    }
    lemma_loop_position(states, at, order, order.len() as int);
    law_round_robin(states, order);
    assert forall|i: int|
        0 <= i < 6 && (forall|n: int|
            0 <= n < states.len() ==> (#[trigger] states[n]).tasks[i].state
                == TaskState::Ready) implies #[trigger] order.contains(i) by {
        if !order.contains(i) {
            let m = choose|m: int| #[trigger] skipped_at(states, order, i, m);
            assert(states[m].tasks[i].state == TaskState::Ready);
        }
    }
}

/// **A context is seen as it is,** and may be resumed if exactly its current
/// window is live.
pub proof fn law_context_seen_as_it_is(c: Context)
    ensures
        c@.pc == c.pc,
        c@.sp == c.sp,
        c@.a == c.a@,
        c@.sar == c.sar,
        c@.windowbase == c.windowbase,
        c@.windowstart == c.windowstart,
        resumable(c@) <==> c.windowbase < 16 && c.windowstart
            == vstd::arithmetic::power2::pow2(c.windowbase as nat),
{
    if c.windowbase < 16 {
        vstd::bits::lemma_u32_pow2_no_overflow(c.windowbase as nat);
        vstd::bits::lemma_u32_shl_is_mul(1, c.windowbase);
    }
}

} // verus!
