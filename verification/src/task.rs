//! The static task table.

use vstd::prelude::*;

use crate::ipc::{PendingOp, MSG_MAX, N_TASKS};
use crate::protocol;
use crate::protocol::{KernelView, TaskView};
use crate::sched;
use crate::sched::Context;

verus! {

/// A task's scheduling state: runnable, or suspended in IPC.
#[derive(Debug, Clone, Copy, PartialEq, Eq, Structural)]
pub enum TaskState {
    Ready,
    Blocked,
}

/// A task: its stack and entry point, plus its IPC state.
///
/// `msg` is the task's single staging buffer: outgoing message while sending,
/// incoming message once a rendezvous completes. Its first `msg_len` bytes are
/// the message; the rest is scratch that no call reads.
#[derive(Debug, Clone, Copy)]
pub struct Task {
    /// Initial stack pointer.
    pub stack_top: u32,
    /// Address of the task's entry point.
    pub entry: u32,
    pub name: &'static str,
    pub state: TaskState,
    pub op: Option<PendingOp>,
    pub msg: [u8; MSG_MAX],
    pub msg_len: u8,
    /// Pending notification bits.
    pub pending: u32,
    /// Who is waiting for *our* reply (set when our `recv` took a `call`).
    pub reply_to: Option<usize>,
    /// Who owes *us* a reply (set when our `call`'s send phase landed).
    pub reply_from: Option<usize>,
}

impl View for Task {
    type V = TaskView;

    open spec fn view(&self) -> TaskView {
        TaskView {
            stack_top: self.stack_top,
            entry: self.entry,
            name: self.name@,
            state: self.state,
            op: self.op,
            msg: self.msg@.take(self.msg_len as int),
            pending: self.pending,
            reply_to: self.reply_to,
            reply_from: self.reply_from,
        }
    }
}

impl Task {
    /// The staged message fits the buffer and the reply link names a task.
    pub open spec fn wf(self) -> bool {
        &&& self.msg_len <= MSG_MAX
        &&& self.reply_to matches Some(t) ==> t < N_TASKS
    }
}

/// All kernel state: the task table, the suspended register states, who is
/// running, and how often each task was restarted.
#[derive(Debug, Clone, Copy)]
pub struct Kernel {
    pub tasks: [Task; N_TASKS],
    /// The task running its slice; the caller of every syscall.
    pub current: usize,
    pub sched_ctx: Context,
    pub task_ctx: [Context; N_TASKS],
    /// Fault restarts per task.
    pub restarts: [u32; N_TASKS],
}

impl View for Kernel {
    type V = KernelView;

    open spec fn view(&self) -> KernelView {
        KernelView {
            tasks: Seq::new(N_TASKS as nat, |i: int| self.tasks@[i]@),
            current: self.current as int,
            sched_ctx: self.sched_ctx@,
            task_ctx: Seq::new(N_TASKS as nat, |i: int| self.task_ctx@[i]@),
            restarts: self.restarts@,
        }
    }
}

impl Kernel {
    /// The running task exists and every task is well formed.
    pub open spec fn wf(self) -> bool {
        &&& self.current < N_TASKS
        &&& forall|i: int| 0 <= i < N_TASKS ==> (#[trigger] self.tasks@[i]).wf()
    }
}

/// Task `idx`'s state.
pub fn task_ptr(k: &mut Kernel, idx: usize) -> (t: &mut Task)
    requires
        idx < N_TASKS,
    ensures
        *t == old(k).tasks@[idx as int],
        t@ == old(k)@.tasks[idx as int],
        final(k)@ == old(k)@.with(idx as int, final(t)@),
        final(k).tasks@ == old(k).tasks@.update(idx as int, *final(t)),
        final(k).current == old(k).current,
        final(k).sched_ctx == old(k).sched_ctx,
        final(k).task_ctx == old(k).task_ctx,
        final(k).restarts == old(k).restarts,
{
    &mut k.tasks[idx]
}

/// Stack size per task: 4 KiB.
pub const STACK_WORDS: usize = 1024;

pub const STACK_BYTES: u32 = 4096;

/// A task that has never run and has nothing outstanding.
pub open spec fn blank(entry: u32, name: Seq<char>) -> TaskView {
    TaskView {
        stack_top: 0,
        entry,
        name,
        state: TaskState::Ready,
        op: None,
        msg: Seq::empty(),
        pending: 0,
        reply_to: None,
        reply_from: None,
    }
}

pub fn blank_task(entry: u32, name: &'static str) -> (t: Task)
    ensures
        t.wf(),
        t@ == blank(entry, name@),
{
    let t = Task {
        stack_top: 0,
        entry,
        name,
        state: TaskState::Ready,
        op: None,
        msg: [0; MSG_MAX],
        msg_len: 0,
        pending: 0,
        reply_to: None,
        reply_from: None,
    };
    assert(t@ =~= blank(entry, name@));
    t
}

/// The names of the six tasks: A and B hold the ping-pong conversation, C
/// drives the LED, and GPIO, LED and UART are the driver capsules.
pub open spec fn names() -> Seq<Seq<char>> {
    seq!["A"@, "B"@, "C"@, "GPIO"@, "LED"@, "UART"@]
}

/// The kernel at power-up, for tasks with the given entry addresses.
pub open spec fn power_up(entries: Seq<u32>) -> KernelView {
    KernelView {
        tasks: Seq::new(N_TASKS as nat, |i: int| blank(entries[i], names()[i])),
        current: 0,
        sched_ctx: protocol::zero_context(),
        task_ctx: Seq::new(N_TASKS as nat, |i: int| protocol::zero_context()),
        restarts: Seq::new(N_TASKS as nat, |i: int| 0u32),
    }
}

impl Kernel {
    /// The static task table, fixed at six tasks.
    pub fn new(entries: &[u32; N_TASKS]) -> (k: Self)
        ensures
            k.wf(),
            k@ == power_up(entries@),
    {
        let k = Kernel {
            tasks: [
                blank_task(entries[0], "A"),
                blank_task(entries[1], "B"),
                blank_task(entries[2], "C"),
                blank_task(entries[3], "GPIO"),
                blank_task(entries[4], "LED"),
                blank_task(entries[5], "UART"),
            ],
            current: 0,
            sched_ctx: Context::zero(),
            task_ctx: [
                Context::zero(),
                Context::zero(),
                Context::zero(),
                Context::zero(),
                Context::zero(),
                Context::zero(),
            ],
            restarts: [0; N_TASKS],
        };
        assert(k@ =~= power_up(entries@));
        k
    }
}

/// The stack top for a stack at `base`: its end, rounded down to 16 bytes.
pub open spec fn stack_top(base: u32) -> u32 {
    ((base + STACK_BYTES) / 16 * 16) as u32
}

/// Stack top (16-byte aligned, rounded down) for task `idx`'s stack, given where
/// each stack begins.
///
/// The windowed ABI needs a 16-byte-aligned stack pointer. The stack grows down,
/// so rounding down just costs a few bytes of it.
pub fn stack_top_for(stacks: &[u32; N_TASKS], idx: usize) -> (top: u32)
    requires
        stacks@[if idx < N_TASKS {
            idx as int
        } else {
            N_TASKS - 1
        }] + STACK_BYTES <= u32::MAX,
    ensures
        top == stack_top(
            stacks@[if idx < N_TASKS {
                idx as int
            } else {
                N_TASKS - 1
            }],
        ),
{
    let base: u32 = match idx {
        0 => stacks[0],
        1 => stacks[1],
        2 => stacks[2],
        3 => stacks[3],
        4 => stacks[4],
        _ => stacks[5],
    };
    let end: u32 = base + STACK_BYTES;
    assert(end & !0xFu32 == end / 16 * 16) by (bit_vector);
    end & !0xF
}

/// **Every stack top is aligned and inside its stack.** It is a multiple of 16
/// and at most 15 bytes below the end of the stack; at most 12 if the stack
/// begins at a word.
pub proof fn law_stack_top_aligned(base: u32)
    requires
        base + STACK_BYTES <= u32::MAX,
    ensures
        stack_top(base) % 16 == 0,
        stack_top(base) & 0xF == 0,
        base + STACK_BYTES - 15 <= stack_top(base) <= base + STACK_BYTES,
        base % 4 == 0 ==> base + STACK_BYTES - 12 <= stack_top(base),
{
    let top = stack_top(base);
    assert(top % 16 == 0 ==> top & 0xF == 0) by (bit_vector);
}

/// The kernel after its tasks were given their stacks.
pub open spec fn initialized(k: KernelView, stacks: Seq<u32>) -> KernelView {
    KernelView {
        tasks: Seq::new(
            k.tasks.len(),
            |i: int| TaskView { stack_top: stack_top(stacks[i]), ..k.tasks[i] },
        ),
        task_ctx: Seq::new(
            k.task_ctx.len(),
            |i: int| protocol::initial_context(k.tasks[i].entry, stack_top(stacks[i])),
        ),
        ..k
    }
}

/// Initialize the task table: point each task at its stack and craft its initial
/// coroutine context (first resume jumps to the entry point). `stacks` says
/// where each task's stack begins.
pub fn init(k: &mut Kernel, stacks: &[u32; N_TASKS])
    requires
        old(k).wf(),
        forall|i: int| 0 <= i < N_TASKS ==> #[trigger] stacks@[i] + STACK_BYTES <= u32::MAX,
    ensures
        final(k).wf(),
        final(k)@ == initialized(old(k)@, stacks@),
{
    let mut idx: usize = 0;
    while idx < N_TASKS
        invariant
            idx <= N_TASKS,
            k.wf(),
            forall|i: int| 0 <= i < N_TASKS ==> #[trigger] stacks@[i] + STACK_BYTES <= u32::MAX,
            k@ == (KernelView { tasks: k@.tasks, task_ctx: k@.task_ctx, ..old(k)@ }),
            forall|i: int|
                0 <= i < N_TASKS ==> #[trigger] k@.tasks[i] == if i < idx {
                    initialized(old(k)@, stacks@).tasks[i]
                } else {
                    old(k)@.tasks[i]
                },
            forall|i: int|
                0 <= i < idx ==> #[trigger] k@.task_ctx[i] == initialized(
                    old(k)@,
                    stacks@,
                ).task_ctx[i],
        decreases N_TASKS - idx,
    {
        let top: u32 = stack_top_for(stacks, idx);
        let ghost before = k@;
        task_ptr(k, idx).stack_top = top;
        let entry: u32 = task_entry_addr(k, idx);
        sched::init_task_context(k, idx, entry, top);
        assert(k@.tasks =~= before.tasks.update(
            idx as int,
            TaskView { stack_top: top, ..before.tasks[idx as int] },
        ));
        idx += 1;
    }
    assert(k@ =~= initialized(old(k)@, stacks@));
}

/// Task `idx`'s entry address.
pub fn task_entry_addr(k: &Kernel, idx: usize) -> (entry: u32)
    requires
        idx < N_TASKS,
    ensures
        entry == k@.tasks[idx as int].entry,
{
    k.tasks[idx].entry
}

/// **At boot every task is blank.** It has its entry point, its name and the top
/// of its stack, is `Ready`, and has no operation, message, pending bits or reply
/// partner; its context enters it on that stack; it was never restarted.
pub proof fn law_boot_table(entries: Seq<u32>, stacks: Seq<u32>, i: int, r: int)
    requires
        0 <= i < 6,
        0 <= r < 16,
        stacks[i] + 4096 <= u32::MAX,
    ensures
        ({
            let k = initialized(power_up(entries), stacks);
            let t = k.tasks[i];
            let c = k.task_ctx[i];
            &&& k.tasks.len() == 6 && k.task_ctx.len() == 6 && k.restarts.len() == 6
            &&& k.current == 0
            &&& k.restarts[i] == 0
            &&& t.entry == entries[i]
            &&& t.stack_top % 16 == 0
            &&& t.stack_top <= stacks[i] + 4096 < t.stack_top + 16
            &&& t.name == seq!["A"@, "B"@, "C"@, "GPIO"@, "LED"@, "UART"@][i]
            &&& t.state == TaskState::Ready
            &&& t.op is None && t.reply_to is None && t.reply_from is None
            &&& t.msg.len() == 0 && t.pending == 0
            &&& c.pc == t.entry && c.sp == t.stack_top
            &&& c.a.len() == 16 && c.a[r] == 0
            &&& c.sar == 0 && c.windowbase == 0 && c.windowstart == 1
            &&& k.sched_ctx.pc == 0 && k.sched_ctx.sp == 0 && k.sched_ctx.windowstart == 0
        }),
{
}

/// **Giving tasks their stacks changes nothing else.** On any kernel, a task keeps
/// all but its stack top, and nobody's restart count, the running task or the
/// scheduler's context changes.
pub proof fn law_init_gives_stacks(k: KernelView, stacks: Seq<u32>, i: int, r: int)
    requires
        k.tasks.len() == 6,
        k.task_ctx.len() == 6,
        0 <= i < 6,
        0 <= r < 16,
        stacks[i] + 4096 <= u32::MAX,
    ensures
        ({
            let k1 = initialized(k, stacks);
            let c = k1.task_ctx[i];
            &&& k1.tasks.len() == 6 && k1.task_ctx.len() == 6
            &&& k1.tasks[i] == (TaskView { stack_top: k1.tasks[i].stack_top, ..k.tasks[i] })
            &&& k1.tasks[i].stack_top % 16 == 0
            &&& k1.tasks[i].stack_top <= stacks[i] + 4096 < k1.tasks[i].stack_top + 16
            &&& c.pc == k.tasks[i].entry && c.sp == k1.tasks[i].stack_top
            &&& c.a.len() == 16 && c.a[r] == 0
            &&& c.sar == 0 && c.windowbase == 0 && c.windowstart == 1
            &&& k1.current == k.current && k1.sched_ctx == k.sched_ctx
            &&& k1.restarts == k.restarts
        }),
{
}

/// **A task is seen as it is,** its message being the first `msg_len` bytes of its
/// buffer.
pub proof fn law_task_seen_as_it_is(t: Task)
    requires
        t.msg_len <= 64,
    ensures
        t@.stack_top == t.stack_top,
        t@.entry == t.entry,
        t@.name == t.name@,
        t@.state == t.state,
        t@.op == t.op,
        t@.msg.len() == t.msg_len,
        forall|i: int| 0 <= i < t.msg_len ==> #[trigger] t@.msg[i] == t.msg@[i],
        t@.pending == t.pending,
        t@.reply_to == t.reply_to,
        t@.reply_from == t.reply_from,
{
}

/// **The kernel is seen as it is,** task by task and context by context.
pub proof fn law_kernel_seen_as_it_is(k: Kernel, i: int)
    requires
        0 <= i < 6,
    ensures
        k@.tasks.len() == 6,
        k@.tasks[i] == k.tasks@[i]@,
        k@.task_ctx.len() == 6,
        k@.task_ctx[i] == k.task_ctx@[i]@,
        k@.sched_ctx == k.sched_ctx@,
        k@.current == k.current,
        k@.restarts == k.restarts@,
        k.sched_ctx@.pc == k.sched_ctx.pc,
        k.sched_ctx@.sp == k.sched_ctx.sp,
        k.sched_ctx@.a == k.sched_ctx.a@,
        k.sched_ctx@.sar == k.sched_ctx.sar,
        k.sched_ctx@.windowbase == k.sched_ctx.windowbase,
        k.sched_ctx@.windowstart == k.sched_ctx.windowstart,
{
}

/// **What a well-formed kernel is,** and no more: the running task exists, every
/// staged message fits, and every reply is owed to a task.
pub proof fn law_what_wf_means(k: Kernel)
    ensures
        k.wf() <==> {
            &&& k.current < 6
            &&& forall|i: int|
                0 <= i < 6 ==> (#[trigger] k.tasks@[i]).msg_len <= 64 && (k.tasks@[i].reply_to
                    is Some ==> k.tasks@[i].reply_to->Some_0 < 6)
        },
{
    if k.current < 6 && forall|i: int|
        0 <= i < 6 ==> (#[trigger] k.tasks@[i]).msg_len <= 64 && (k.tasks@[i].reply_to is Some
            ==> k.tasks@[i].reply_to->Some_0 < 6) {
        assert forall|i: int| 0 <= i < N_TASKS implies (#[trigger] k.tasks@[i]).wf() by {}
    }
    if k.wf() {
        assert forall|i: int| 0 <= i < 6 implies (#[trigger] k.tasks@[i]).msg_len <= 64 && (
        k.tasks@[i].reply_to is Some ==> k.tasks@[i].reply_to->Some_0 < 6) by {
            assert(k.tasks@[i].wf());
        }
    }
}

/// **A blank task** has its entry point and its name, is `Ready`, and has nothing
/// else: no stack yet, no operation, message, pending bits or reply partner.
pub proof fn law_blank_task(entry: u32, name: Seq<char>)
    ensures
        ({
            let t = blank(entry, name);
            &&& t.entry == entry && t.name == name
            &&& t.state == TaskState::Ready
            &&& t.stack_top == 0 && t.msg.len() == 0 && t.pending == 0
            &&& t.op is None && t.reply_to is None && t.reply_from is None
        }),
{
}

/// **At power-up the table holds six blank tasks,** all contexts and restart
/// counts are zero, and task 0 is the one that would run.
pub proof fn law_power_up(entries: Seq<u32>, i: int, r: int)
    requires
        0 <= i < 6,
        0 <= r < 16,
    ensures
        ({
            let k = power_up(entries);
            let c = k.task_ctx[i];
            &&& k.tasks.len() == 6 && k.task_ctx.len() == 6 && k.restarts.len() == 6
            &&& k.current == 0
            &&& k.tasks[i].entry == entries[i]
            &&& k.tasks[i].name == seq!["A"@, "B"@, "C"@, "GPIO"@, "LED"@, "UART"@][i]
            &&& k.tasks[i].state == TaskState::Ready
            &&& k.tasks[i].stack_top == 0 && k.tasks[i].msg.len() == 0 && k.tasks[i].pending == 0
            &&& k.tasks[i].op is None && k.tasks[i].reply_to is None && k.tasks[i].reply_from
                is None
            &&& c.pc == 0 && c.sp == 0 && c.a.len() == 16 && c.a[r] == 0
            &&& c.sar == 0 && c.windowbase == 0 && c.windowstart == 0
            &&& k.sched_ctx == c
            &&& k.restarts[i] == 0
        }),
{
}

} // verus!
