//! What the IPC calls do, as functions on an abstract kernel state.
//!
//! Every syscall of [`crate::ipc`] promises the result and the state that the
//! function of the same name here gives. A task is seen without its buffer's
//! scratch bytes: `msg` is the staged message itself.

use vstd::prelude::*;

use crate::ipc::{
    CallResult, IpcError, NotifyResult, OpKind, PendingOp, RecvResult, ReplyResult, SendResult,
    WaitResult, MSG_MAX, N_ENDPOINTS, N_TASKS,
};
use crate::task::TaskState;

verus! {

/// One task, as the protocol sees it.
#[verifier::ext_equal]
pub struct TaskView {
    pub stack_top: u32,
    pub entry: u32,
    pub name: Seq<char>,
    pub state: TaskState,
    pub op: Option<PendingOp>,
    /// The staged message.
    pub msg: Seq<u8>,
    pub pending: u32,
    pub reply_to: Option<usize>,
    pub reply_from: Option<usize>,
}

/// A suspended register state.
#[verifier::ext_equal]
pub struct ContextView {
    pub pc: u32,
    pub sp: u32,
    pub a: Seq<u32>,
    pub sar: u32,
    pub windowbase: u32,
    pub windowstart: u32,
}

/// The kernel, as the protocol sees it.
#[verifier::ext_equal]
pub struct KernelView {
    pub tasks: Seq<TaskView>,
    pub current: int,
    pub sched_ctx: ContextView,
    pub task_ctx: Seq<ContextView>,
    pub restarts: Seq<u32>,
}

impl KernelView {
    /// The calling task.
    pub open spec fn caller(self) -> TaskView {
        self.tasks[self.current]
    }

    /// The state with task `i` replaced.
    pub open spec fn with(self, i: int, t: TaskView) -> KernelView {
        KernelView { tasks: self.tasks.update(i, t), ..self }
    }

    /// The state in which task `i` is the one running.
    pub open spec fn running(self, i: int) -> KernelView {
        KernelView { current: i, ..self }
    }
}

// ---------------------------------------------------------------------------
// Outstanding operations
// ---------------------------------------------------------------------------

/// A freshly registered operation.
pub open spec fn fresh(kind: OpKind, ep: u8) -> PendingOp {
    PendingOp { kind, phase: 0, ep, done: false, err: None }
}

/// The same operation, completed.
pub open spec fn completed(op: PendingOp) -> PendingOp {
    PendingOp { done: true, ..op }
}

/// The task has an operation of this kind outstanding.
pub open spec fn outstanding(t: TaskView, kind: OpKind) -> bool {
    t.op matches Some(op) && op.kind == kind
}

/// The task has an operation that has not completed.
pub open spec fn unfinished(t: TaskView) -> bool {
    t.op matches Some(op) && !op.done
}

/// The task is blocked in `recv` on `ep`.
pub open spec fn receiving(t: TaskView, ep: u8) -> bool {
    &&& t.state == TaskState::Blocked
    &&& t.op matches Some(op) && op.kind == OpKind::Recv && !op.done && op.ep == ep
}

/// The task is blocked on `ep` with a message to hand over: in `send`, or in
/// the send phase of a `call`.
pub open spec fn sending(t: TaskView, ep: u8) -> bool {
    &&& t.state == TaskState::Blocked
    &&& t.op matches Some(op) && (op.kind == OpKind::Send || (op.kind == OpKind::Call && op.phase
        == 0)) && !op.done && op.ep == ep
}

/// The task's call was received and its reply is still to come.
pub open spec fn awaiting_reply(t: TaskView) -> bool {
    t.op matches Some(op) && op.kind == OpKind::Call && op.phase == 1 && !op.done
}

// ---------------------------------------------------------------------------
// Finding a partner
// ---------------------------------------------------------------------------

/// Task `i` is one that `me` could meet on `ep`: a receiver if `want_receiver`,
/// otherwise a sender.
pub open spec fn candidate(
    tasks: Seq<TaskView>,
    me: int,
    ep: u8,
    want_receiver: bool,
    i: int,
) -> bool {
    &&& 0 <= i < tasks.len()
    &&& i != me
    &&& if want_receiver {
        receiving(tasks[i], ep)
    } else {
        sending(tasks[i], ep)
    }
}

/// Task `i` is the candidate with the lowest index.
pub open spec fn first_candidate(
    tasks: Seq<TaskView>,
    me: int,
    ep: u8,
    want_receiver: bool,
    i: int,
) -> bool {
    &&& candidate(tasks, me, ep, want_receiver, i)
    &&& forall|j: int| 0 <= j < i ==> !#[trigger] candidate(tasks, me, ep, want_receiver, j)
}

/// The task that `me` meets on `ep`: the candidate with the lowest index.
pub open spec fn partner(tasks: Seq<TaskView>, me: int, ep: u8, want_receiver: bool) -> Option<
    int,
> {
    if exists|i: int| first_candidate(tasks, me, ep, want_receiver, i) {
        Some(choose|i: int| first_candidate(tasks, me, ep, want_receiver, i))
    } else {
        None
    }
}

// ---------------------------------------------------------------------------
// The meeting
// ---------------------------------------------------------------------------

/// Receiver `r` once it took a message: its `recv` is complete. If the message
/// came with a call, `caller` is remembered for the reply.
pub open spec fn took(r: TaskView, msg: Seq<u8>, caller: Option<usize>) -> TaskView {
    TaskView {
        msg,
        op: match r.op {
            Some(op) => Some(completed(op)),
            None => None,
        },
        state: TaskState::Ready,
        reply_to: match caller {
            Some(s) => Some(s),
            None => r.reply_to,
        },
        ..r
    }
}

/// Sender `s` once task `r` took its message: a `send` is complete, a `call`
/// goes on to wait for the reply of `r`.
pub open spec fn gave(s: TaskView, r: int) -> TaskView {
    match s.op {
        Some(op) => if op.kind == OpKind::Send {
            TaskView { op: Some(completed(op)), state: TaskState::Ready, ..s }
        } else if op.kind == OpKind::Call {
            TaskView {
                op: Some(PendingOp { phase: 1, ..op }),
                reply_from: Some(r as usize),
                ..s
            }
        } else {
            s
        },
        None => s,
    }
}

/// Whom a receiver of task `s`'s message owes a reply: `s`, if it is calling.
pub open spec fn creditor(tasks: Seq<TaskView>, s: int) -> Option<usize> {
    if outstanding(tasks[s], OpKind::Call) {
        Some(s as usize)
    } else {
        None
    }
}

/// The table after sender `s` and receiver `r` met. No other task changes.
pub open spec fn rendezvous(tasks: Seq<TaskView>, s: int, r: int) -> Seq<TaskView> {
    tasks.update(r, took(tasks[r], tasks[s].msg, creditor(tasks, s))).update(s, gave(tasks[s], r))
}

/// The kernel after task `me`, whose operation is registered, looked for a
/// partner on that operation's endpoint: a receiver if `want_receiver`,
/// otherwise a sender.
pub open spec fn matched(k: KernelView, me: int, want_receiver: bool) -> KernelView {
    match k.tasks[me].op {
        None => k,
        Some(op) => match partner(k.tasks, me, op.ep, want_receiver) {
            None => k,
            Some(p) => KernelView {
                tasks: if want_receiver {
                    rendezvous(k.tasks, me, p)
                } else {
                    rendezvous(k.tasks, p, me)
                },
                ..k
            },
        },
    }
}

// ---------------------------------------------------------------------------
// Syscalls
// ---------------------------------------------------------------------------

/// A task whose completed operation was taken back.
pub open spec fn reaped(t: TaskView) -> TaskView {
    TaskView { op: None, state: TaskState::Ready, ..t }
}

/// How many bytes of `msg` a buffer of `room` bytes takes.
pub open spec fn fitting(msg: Seq<u8>, room: nat) -> nat {
    if msg.len() <= room {
        msg.len()
    } else {
        room
    }
}

/// A buffer whose front was overwritten by as much of `msg` as fits.
pub open spec fn filled(buf: Seq<u8>, msg: Seq<u8>) -> Seq<u8> {
    let n = fitting(msg, buf.len()) as int;
    msg.take(n) + buf.skip(n)
}

/// `send`: the new state and the result.
pub open spec fn send(k: KernelView, ep: u8, msg: Seq<u8>) -> (KernelView, SendResult) {
    let me = k.current;
    let t = k.caller();
    if ep >= N_ENDPOINTS {
        (k, SendResult::Failed(IpcError::BadEndpoint))
    } else if msg.len() > MSG_MAX {
        (k, SendResult::Failed(IpcError::Oversize))
    } else {
        match t.op {
            Some(op) => if op.kind != OpKind::Send {
                (k, SendResult::Failed(IpcError::Busy))
            } else if !op.done {
                (k, SendResult::Blocked)
            } else {
                match op.err {
                    Some(e) => (k.with(me, reaped(t)), SendResult::Failed(e)),
                    None => (k.with(me, reaped(t)), SendResult::Delivered),
                }
            },
            None => match partner(k.tasks, me, ep, true) {
                Some(r) => (
                    k.with(r, took(k.tasks[r], msg, None)).with(
                        me,
                        TaskView { msg, op: None, state: TaskState::Ready, ..t },
                    ),
                    SendResult::Delivered,
                ),
                None => (
                    k.with(
                        me,
                        TaskView {
                            msg,
                            op: Some(fresh(OpKind::Send, ep)),
                            state: TaskState::Blocked,
                            ..t
                        },
                    ),
                    SendResult::Blocked,
                ),
            },
        }
    }
}

/// `recv` into a buffer that holds `out`: the new state, the result, and what
/// the buffer holds then.
pub open spec fn recv(k: KernelView, ep: u8, out: Seq<u8>) -> (KernelView, RecvResult, Seq<u8>) {
    let me = k.current;
    let t = k.caller();
    if ep >= N_ENDPOINTS {
        (k, RecvResult::Failed(IpcError::BadEndpoint), out)
    } else {
        match t.op {
            Some(op) => if op.kind != OpKind::Recv {
                (k, RecvResult::Failed(IpcError::Busy), out)
            } else if !op.done {
                (k, RecvResult::Blocked, out)
            } else {
                match op.err {
                    Some(e) => (k.with(me, reaped(t)), RecvResult::Failed(e), out),
                    None => (
                        k.with(me, reaped(t)),
                        RecvResult::Received(fitting(t.msg, out.len()) as usize),
                        filled(out, t.msg),
                    ),
                }
            },
            None => match partner(k.tasks, me, ep, false) {
                Some(s) => {
                    let msg = k.tasks[s].msg;
                    (
                        k.with(s, gave(k.tasks[s], me)).with(
                            me,
                            reaped(took(t, msg, creditor(k.tasks, s))),
                        ),
                        RecvResult::Received(fitting(msg, out.len()) as usize),
                        filled(out, msg),
                    )
                },
                None => (
                    k.with(
                        me,
                        TaskView {
                            op: Some(fresh(OpKind::Recv, ep)),
                            state: TaskState::Blocked,
                            ..t
                        },
                    ),
                    RecvResult::Blocked,
                    out,
                ),
            },
        }
    }
}

/// `call` with a reply buffer that holds `out`: the new state, the result, and
/// what the buffer holds then.
pub open spec fn call(k: KernelView, ep: u8, msg: Seq<u8>, out: Seq<u8>) -> (
    KernelView,
    CallResult,
    Seq<u8>,
) {
    let me = k.current;
    let t = k.caller();
    if ep >= N_ENDPOINTS {
        (k, CallResult::Failed(IpcError::BadEndpoint), out)
    } else if msg.len() > MSG_MAX {
        (k, CallResult::Failed(IpcError::Oversize), out)
    } else {
        match t.op {
            Some(op) => if op.kind != OpKind::Call {
                (k, CallResult::Failed(IpcError::Busy), out)
            } else if !op.done {
                (k, CallResult::Blocked, out)
            } else {
                let back = k.with(me, TaskView { reply_from: None, ..reaped(t) });
                match op.err {
                    Some(e) => (back, CallResult::Failed(e), out),
                    None => (
                        back,
                        CallResult::Replied(fitting(t.msg, out.len()) as usize),
                        filled(out, t.msg),
                    ),
                }
            },
            None => {
                let asking = TaskView {
                    msg,
                    op: Some(fresh(OpKind::Call, ep)),
                    state: TaskState::Blocked,
                    ..t
                };
                match partner(k.tasks, me, ep, true) {
                    Some(r) => (
                        k.with(r, took(k.tasks[r], msg, Some(me as usize))).with(
                            me,
                            gave(asking, r),
                        ),
                        CallResult::Blocked,
                        out,
                    ),
                    None => (k.with(me, asking), CallResult::Blocked, out),
                }
            },
        }
    }
}

/// `reply`: the new state and the result.
pub open spec fn reply(k: KernelView, msg: Seq<u8>) -> (KernelView, ReplyResult) {
    let me = k.current;
    let t = k.caller();
    if msg.len() > MSG_MAX {
        (k, ReplyResult::Failed(IpcError::Oversize))
    } else {
        match t.reply_to {
            None => (k, ReplyResult::Failed(IpcError::NoPartner)),
            Some(target) => {
                let c = target as int;
                let freed = k.with(me, TaskView { reply_to: None, ..t });
                if awaiting_reply(k.tasks[c]) {
                    (
                        freed.with(
                            c,
                            TaskView {
                                msg,
                                op: Some(completed(k.tasks[c].op->Some_0)),
                                state: TaskState::Ready,
                                reply_from: None,
                                ..freed.tasks[c]
                            },
                        ),
                        ReplyResult::Replied,
                    )
                } else {
                    (freed, ReplyResult::Failed(IpcError::PartnerFaulted))
                }
            },
        }
    }
}

/// `notify`: the new state and the result.
pub open spec fn notify(k: KernelView, task: usize, bits: u32) -> (KernelView, NotifyResult) {
    if task >= N_TASKS {
        (k, NotifyResult::Failed(IpcError::BadTask))
    } else {
        let i = task as int;
        let t = TaskView { pending: k.tasks[i].pending | bits, ..k.tasks[i] };
        if t.state == TaskState::Blocked && outstanding(t, OpKind::Wait) && unfinished(t) {
            (
                k.with(
                    i,
                    TaskView {
                        op: Some(completed(t.op->Some_0)),
                        state: TaskState::Ready,
                        ..t
                    },
                ),
                NotifyResult::Notified,
            )
        } else {
            (k.with(i, t), NotifyResult::Notified)
        }
    }
}

/// `wait`: the new state and the result.
///
/// Pending bits are taken in any case. That ends an outstanding `wait`; any
/// other operation goes on as it was, and a task blocked in it stays blocked.
/// Without bits the task blocks, also if its last `wait` was ended by a `notify`
/// of no bits.
pub open spec fn wait(k: KernelView) -> (KernelView, WaitResult) {
    let me = k.current;
    let t = k.caller();
    if t.pending != 0 {
        (
            k.with(
                me,
                if t.op is None || outstanding(t, OpKind::Wait) {
                    TaskView { pending: 0, op: None, state: TaskState::Ready, ..t }
                } else {
                    TaskView { pending: 0, ..t }
                },
            ),
            WaitResult::Signaled(t.pending),
        )
    } else if t.op is None || (outstanding(t, OpKind::Wait) && !unfinished(t)) {
        (
            k.with(
                me,
                TaskView {
                    op: Some(fresh(OpKind::Wait, 0)),
                    state: TaskState::Blocked,
                    ..t
                },
            ),
            WaitResult::Blocked,
        )
    } else if outstanding(t, OpKind::Wait) {
        (k, WaitResult::Blocked)
    } else {
        (k, WaitResult::Failed(IpcError::Busy))
    }
}

// ---------------------------------------------------------------------------
// Fault recovery
// ---------------------------------------------------------------------------

/// The faulted task itself: no operation, no notifications, no reply links.
pub open spec fn scrubbed(t: TaskView) -> TaskView {
    TaskView {
        op: None,
        state: TaskState::Ready,
        pending: 0,
        reply_to: None,
        reply_from: None,
        ..t
    }
}

/// Another task when `faulted` dies: a call that waits for its reply fails, a
/// reply owed to it is forgotten, and nothing else changes.
pub open spec fn bereaved(t: TaskView, faulted: usize) -> TaskView {
    let cut = TaskView {
        reply_to: if t.reply_to == Some(faulted) {
            None
        } else {
            t.reply_to
        },
        ..t
    };
    if awaiting_reply(t) && t.reply_from == Some(faulted) {
        TaskView {
            op: Some(
                PendingOp {
                    done: true,
                    err: Some(IpcError::PartnerFaulted),
                    ..t.op->Some_0
                },
            ),
            state: TaskState::Ready,
            ..cut
        }
    } else {
        cut
    }
}

/// The kernel after task `faulted`'s IPC state was reset for a restart.
pub open spec fn reset_for_restart(k: KernelView, faulted: usize) -> KernelView {
    KernelView {
        tasks: Seq::new(
            k.tasks.len(),
            |i: int|
                if i == faulted {
                    scrubbed(k.tasks[i])
                } else {
                    bereaved(k.tasks[i], faulted)
                },
        ),
        ..k
    }
}

/// The kernel after task `idx` was killed and restarted: its IPC state reset,
/// its context back at the entry point on an empty stack, the restart counted.
pub open spec fn request_restart(k: KernelView, idx: usize) -> KernelView {
    let i = idx as int;
    KernelView {
        task_ctx: k.task_ctx.update(i, initial_context(k.tasks[i].entry, k.tasks[i].stack_top)),
        restarts: k.restarts.update(i, counted(k.restarts[i])),
        ..reset_for_restart(k, idx)
    }
}

/// The next value of a wrapping 32-bit counter.
pub open spec fn counted(n: u32) -> u32 {
    if n == u32::MAX {
        0
    } else {
        (n + 1) as u32
    }
}

/// The context of a task that has never run: resuming it jumps to `entry` with
/// window 0 current and alone live, and the stack pointer at `stack_top`.
pub open spec fn initial_context(entry: u32, stack_top: u32) -> ContextView {
    ContextView {
        pc: entry,
        sp: stack_top,
        a: Seq::new(16, |i: int| 0u32),
        sar: 0,
        windowbase: 0,
        windowstart: 1,
    }
}

/// The context that holds nothing yet.
pub open spec fn zero_context() -> ContextView {
    ContextView {
        pc: 0,
        sp: 0,
        a: Seq::new(16, |i: int| 0u32),
        sar: 0,
        windowbase: 0,
        windowstart: 0,
    }
}

// ---------------------------------------------------------------------------
// Lemmas on partners
// ---------------------------------------------------------------------------

/// If there is a candidate at or below `i`, there is a first one.
pub proof fn lemma_first_exists(
    tasks: Seq<TaskView>,
    me: int,
    ep: u8,
    want_receiver: bool,
    i: int,
)
    requires
        candidate(tasks, me, ep, want_receiver, i),
    ensures
        exists|j: int| #[trigger] first_candidate(tasks, me, ep, want_receiver, j),
    decreases i,
{
    if forall|j: int| 0 <= j < i ==> !#[trigger] candidate(tasks, me, ep, want_receiver, j) {
        assert(first_candidate(tasks, me, ep, want_receiver, i));
    } else {
        let j = choose|j: int|
            0 <= j < i && #[trigger] candidate(tasks, me, ep, want_receiver, j);
        lemma_first_exists(tasks, me, ep, want_receiver, j);
    }
}

/// `partner` gives the first candidate, and nothing exactly if there is none.
pub proof fn lemma_partner(tasks: Seq<TaskView>, me: int, ep: u8, want_receiver: bool)
    ensures
        match partner(tasks, me, ep, want_receiver) {
            Some(i) => first_candidate(tasks, me, ep, want_receiver, i),
            None => forall|i: int| !#[trigger] candidate(tasks, me, ep, want_receiver, i),
        },
{
    if partner(tasks, me, ep, want_receiver) is None {
        assert forall|i: int| !#[trigger] candidate(tasks, me, ep, want_receiver, i) by {
            if candidate(tasks, me, ep, want_receiver, i) {
                lemma_first_exists(tasks, me, ep, want_receiver, i);
            }
        }
    }
}

/// A first candidate is the partner.
pub proof fn lemma_partner_is(tasks: Seq<TaskView>, me: int, ep: u8, want_receiver: bool, i: int)
    requires
        first_candidate(tasks, me, ep, want_receiver, i),
    ensures
        partner(tasks, me, ep, want_receiver) == Some(i),
{
    lemma_partner(tasks, me, ep, want_receiver);
    let p = partner(tasks, me, ep, want_receiver)->Some_0;
    assert(candidate(tasks, me, ep, want_receiver, p));
    assert(candidate(tasks, me, ep, want_receiver, i));
}

/// `partner` does not look at the searching task itself.
pub proof fn lemma_partner_ignores_me(
    tasks: Seq<TaskView>,
    me: int,
    ep: u8,
    want_receiver: bool,
    t: TaskView,
)
    requires
        0 <= me < tasks.len(),
    ensures
        partner(tasks.update(me, t), me, ep, want_receiver) == partner(
            tasks,
            me,
            ep,
            want_receiver,
        ),
{
    let other = tasks.update(me, t);
    assert forall|i: int|
        #![trigger candidate(other, me, ep, want_receiver, i)]
        #![trigger candidate(tasks, me, ep, want_receiver, i)]
        candidate(other, me, ep, want_receiver, i) == candidate(
            tasks,
            me,
            ep,
            want_receiver,
            i,
        ) by {}
    lemma_partner(tasks, me, ep, want_receiver);
    lemma_partner(other, me, ep, want_receiver);
    match partner(tasks, me, ep, want_receiver) {
        Some(i) => {
            assert(first_candidate(other, me, ep, want_receiver, i));
            lemma_partner_is(other, me, ep, want_receiver, i);
        },
        None => {
            match partner(other, me, ep, want_receiver) {
                Some(i) => {
                    assert(candidate(tasks, me, ep, want_receiver, i));
                },
                None => {},
            }
        },
    }
}

} // verus!
