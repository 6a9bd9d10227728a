//! Synchronous rendezvous IPC and notifications.
//!
//! A `send` completes if and only if a receiver takes the message: the kernel
//! copies it directly from sender to receiver. There are no queues: each task
//! owns one [`MSG_MAX`]-byte staging buffer and at most one outstanding
//! blocking operation.
//!
//! Blocking is cooperative. A syscall that cannot complete at once registers
//! the operation, marks the task `Blocked` and returns `Blocked`. The task
//! must then yield; when it runs again it invokes the same call again, which
//! returns the completed result.

use vstd::prelude::*;

use crate::protocol;
use crate::sched;
use crate::task::{task_ptr, Kernel, Task, TaskState};

verus! {

/// Maximum message size in bytes.
pub const MSG_MAX: usize = 64;

/// Endpoint IDs are `0..N_ENDPOINTS`.
pub const N_ENDPOINTS: u8 = 8;

/// Demo endpoint: task A <-> task B ping-pong.
pub const EP_PING: u8 = 0;

/// The GPIO capsule's endpoint.
pub const EP_GPIO: u8 = 1;

/// The LED capsule's endpoint.
pub const EP_LED: u8 = 2;

/// The UART capsule's endpoint.
pub const EP_UART: u8 = 3;

/// Task IDs: indices into the task table.
pub const TASK_A: usize = 0;

pub const TASK_B: usize = 1;

pub const TASK_C: usize = 2;

pub const TASK_GPIO: usize = 3;

pub const TASK_LED: usize = 4;

pub const TASK_UART: usize = 5;

pub const N_TASKS: usize = 6;

/// Immediate (non-blocking) IPC errors.
#[derive(Debug, Clone, Copy, PartialEq, Eq, Structural)]
pub enum IpcError {
    /// Endpoint ID `>= N_ENDPOINTS`.
    BadEndpoint,
    /// Notify target `>= N_TASKS`.
    BadTask,
    /// Message longer than [`MSG_MAX`].
    Oversize,
    /// Another blocking call is still outstanding on the task.
    Busy,
    /// `reply()` with nobody waiting for a reply.
    NoPartner,
    /// Rendezvous partner died before completing.
    PartnerFaulted,
}

#[derive(Debug, Clone, Copy, PartialEq, Eq, Structural)]
pub enum SendResult {
    Delivered,
    Blocked,
    Failed(IpcError),
}

#[derive(Debug, Clone, Copy, PartialEq, Eq, Structural)]
pub enum RecvResult {
    Received(usize),
    Blocked,
    Failed(IpcError),
}

#[derive(Debug, Clone, Copy, PartialEq, Eq, Structural)]
pub enum CallResult {
    Replied(usize),
    Blocked,
    Failed(IpcError),
}

/// `reply` never blocks.
#[derive(Debug, Clone, Copy, PartialEq, Eq, Structural)]
pub enum ReplyResult {
    Replied,
    Failed(IpcError),
}

/// `notify` never blocks.
#[derive(Debug, Clone, Copy, PartialEq, Eq, Structural)]
pub enum NotifyResult {
    Notified,
    Failed(IpcError),
}

#[derive(Debug, Clone, Copy, PartialEq, Eq, Structural)]
pub enum WaitResult {
    Signaled(u32),
    Blocked,
    Failed(IpcError),
}

/// What kind of blocking operation a task has outstanding.
#[derive(Debug, Clone, Copy, PartialEq, Eq, Structural)]
pub enum OpKind {
    Send,
    Recv,
    Call,
    Wait,
}

/// One task's outstanding blocking operation, if any.
#[derive(Debug, Clone, Copy, PartialEq, Eq, Structural)]
pub struct PendingOp {
    pub kind: OpKind,
    /// For `Call`: 0 = send phase, 1 = awaiting reply.
    pub phase: u8,
    pub ep: u8,
    pub done: bool,
    pub err: Option<IpcError>,
}

impl PendingOp {
    /// A freshly registered operation.
    pub fn new(kind: OpKind, ep: u8) -> (op: Self)
        ensures
            op == protocol::fresh(kind, ep),
    {
        PendingOp { kind, phase: 0, ep, done: false, err: None }
    }
}

/// The task invoking this syscall (set by the scheduler per slice).
fn me(k: &Kernel) -> (idx: usize)
    ensures
        idx == k.current,
{
    sched::current_task(k)
}

/// Take a completed operation of kind `kind`: clear it, mark the task ready,
/// and return its error. `None` if it isn't done.
fn reap(t: &mut Task, kind: OpKind) -> (r: Option<Option<IpcError>>)
    ensures
        match r {
            Some(err) => {
                &&& old(t).op matches Some(op) && op.kind == kind && op.done && op.err == err
                &&& *final(t) == (Task { op: None, state: TaskState::Ready, ..*old(t) })
            },
            None => {
                &&& !(old(t).op matches Some(op) && op.kind == kind && op.done)
                &&& *final(t) == *old(t)
            },
        },
{
    match t.op {
        Some(op) => {
            if op.kind == kind && op.done {
                t.op = None;
                t.state = TaskState::Ready;
                Some(op.err)
            } else {
                None
            }
        },
        None => None,
    }
}

/// Stage a message into a task's buffer.
fn stage_write(t: &mut Task, data: &[u8])
    requires
        data@.len() <= MSG_MAX,
    ensures
        final(t).msg_len == data@.len(),
        final(t)@ == (protocol::TaskView { msg: data@, ..old(t)@ }),
{
    let len: usize = data.len();
    let mut i: usize = 0;
    while i < len
        invariant
            i <= len,
            len == data@.len(),
            len <= MSG_MAX,
            t.msg@.take(i as int) == data@.take(i as int),
            *t == (Task { msg: t.msg, ..*old(t) }),
        decreases len - i,
    {
        t.msg[i] = data[i];
        i += 1;
        assert(t.msg@.take(i as int) =~= t.msg@.take(i - 1).push(data@[i - 1]));
        assert(data@.take(i as int) =~= data@.take(i - 1).push(data@[i - 1]));
    }
    t.msg_len = len as u8;
    assert(data@.take(len as int) =~= data@);
}

/// Copy task `from`'s staged message into task `to`'s staging buffer.
fn stage_copy(k: &mut Kernel, from: usize, to: usize)
    requires
        old(k).wf(),
        from < N_TASKS,
        to < N_TASKS,
    ensures
        final(k).wf(),
        forall|i: int| 0 <= i < N_TASKS && i != to ==> final(k).tasks@[i] == old(k).tasks@[i],
        final(k)@ == old(k)@.with(
            to as int,
            protocol::TaskView {
                msg: old(k)@.tasks[from as int].msg,
                ..old(k)@.tasks[to as int]
            },
        ),
{
    let source: Task = k.tasks[from];
    let len: usize = source.msg_len as usize;
    let msg: &[u8] = &source.msg;
    stage_write(&mut k.tasks[to], &msg[0..len]);
    assert(k@ =~= old(k)@.with(
        to as int,
        protocol::TaskView { msg: old(k)@.tasks[from as int].msg, ..old(k)@.tasks[to as int] },
    ));
}

/// Copy a task's staged message into `out`; returns bytes copied.
fn stage_read(t: &Task, out: &mut [u8]) -> (n: usize)
    requires
        t.wf(),
    ensures
        n == protocol::fitting(t@.msg, old(out)@.len()),
        final(out)@ == protocol::filled(old(out)@, t@.msg),
{
    let len: usize = t.msg_len as usize;
    let n: usize = if len <= out.len() {
        len
    } else {
        out.len()
    };
    let mut i: usize = 0;
    while i < n
        invariant
            i <= n <= t.msg_len <= MSG_MAX,
            n <= old(out)@.len(),
            out@ == t.msg@.take(i as int) + old(out)@.skip(i as int),
        decreases n - i,
    {
        out[i] = t.msg[i];
        i += 1;
    }
    assert(t.msg@.take(n as int) =~= t@.msg.take(n as int));
    n
}

/// Perform the rendezvous between sender `s` and receiver `r`.
///
/// Completes `r`'s `Recv` immediately. A plain `Send` completes too; a `Call`
/// advances to the reply-wait phase and records the partnership both ways
/// (`reply_to` / `reply_from`).
fn rendezvous(k: &mut Kernel, s: usize, r: usize)
    requires
        old(k).wf(),
        s < N_TASKS,
        r < N_TASKS,
        s != r,
    ensures
        final(k).wf(),
        final(k)@ == (protocol::KernelView {
            tasks: protocol::rendezvous(old(k)@.tasks, s as int, r as int),
            ..old(k)@
        }),
{
    stage_copy(k, s, r);
    assert(k@.tasks[r as int].op == old(k)@.tasks[r as int].op);
    let rp = task_ptr(k, r);
    if let Some(op) = rp.op {
        rp.op = Some(PendingOp { done: true, ..op });
    }
    rp.state = TaskState::Ready;
    match k.tasks[s].op {
        Some(op) => {
            if op.kind == OpKind::Send {
                let sp = task_ptr(k, s);
                sp.op = Some(PendingOp { done: true, ..op });
                sp.state = TaskState::Ready;
            } else if op.kind == OpKind::Call {
                task_ptr(k, s).op = Some(PendingOp { phase: 1, ..op });
                task_ptr(k, r).reply_to = Some(s);
                // The sender stays Blocked, awaiting the reply.
                task_ptr(k, s).reply_from = Some(r);
            }
        },
        None => {},
    }
    let ghost after = protocol::rendezvous(old(k)@.tasks, s as int, r as int);
    assert(k@.tasks[s as int] =~= after[s as int]);
    assert(k@.tasks[r as int] =~= after[r as int]);
    assert(k@.tasks =~= after);
}

/// Sender `s` (op `Send`, or `Call` in send phase): find a task blocked in
/// `Recv` on the same endpoint and rendezvous.
fn match_sender(k: &mut Kernel, s: usize)
    requires
        old(k).wf(),
        s < N_TASKS,
    ensures
        final(k).wf(),
        final(k)@ == protocol::matched(old(k)@, s as int, true),
{
    let ep: u8 = match k.tasks[s].op {
        Some(op) => op.ep,
        None => return ,
    };
    let mut r: usize = 0;
    while r < N_TASKS
        invariant
            *k == *old(k),
            k.wf(),
            s < N_TASKS,
            k@.tasks[s as int].op matches Some(op) && op.ep == ep,
            forall|j: int|
                0 <= j < r ==> !#[trigger] protocol::candidate(k@.tasks, s as int, ep, true, j),
        decreases N_TASKS - r,
    {
        if r != s {
            let rp: &Task = &k.tasks[r];
            if rp.state == TaskState::Blocked {
                if let Some(op) = rp.op {
                    if op.kind == OpKind::Recv && !op.done && op.ep == ep {
                        proof {
                            protocol::lemma_partner_is(k@.tasks, s as int, ep, true, r as int);
                        }
                        rendezvous(k, s, r);
                        return ;
                    }
                }
            }
        }
        r += 1;
    }
    proof {
        protocol::lemma_partner(k@.tasks, s as int, ep, true);
    }
}

/// Receiver `r` (op `Recv`): find a task blocked in `Send`, or in a `Call`'s
/// send phase, on the same endpoint and rendezvous.
fn match_receiver(k: &mut Kernel, r: usize)
    requires
        old(k).wf(),
        r < N_TASKS,
    ensures
        final(k).wf(),
        final(k)@ == protocol::matched(old(k)@, r as int, false),
{
    let ep: u8 = match k.tasks[r].op {
        Some(op) => op.ep,
        None => return ,
    };
    let mut s: usize = 0;
    while s < N_TASKS
        invariant
            *k == *old(k),
            k.wf(),
            r < N_TASKS,
            k@.tasks[r as int].op matches Some(op) && op.ep == ep,
            forall|j: int|
                0 <= j < s ==> !#[trigger] protocol::candidate(k@.tasks, r as int, ep, false, j),
        decreases N_TASKS - s,
    {
        if s != r {
            let sp: &Task = &k.tasks[s];
            if sp.state == TaskState::Blocked {
                if let Some(op) = sp.op {
                    let sending = op.kind == OpKind::Send || (op.kind == OpKind::Call && op.phase
                        == 0);
                    if sending && !op.done && op.ep == ep {
                        proof {
                            protocol::lemma_partner_is(k@.tasks, r as int, ep, false, s as int);
                        }
                        rendezvous(k, s, r);
                        return ;
                    }
                }
            }
        }
        s += 1;
    }
    proof {
        protocol::lemma_partner(k@.tasks, r as int, ep, false);
    }
}

// ---------------------------------------------------------------------------
// Syscalls
// ---------------------------------------------------------------------------

/// Blocking send: rendezvous with a task blocked in `recv` on `ep`.
///
/// Either completes immediately (`Delivered`), registers and returns `Blocked`
/// (re-invoke to reap `Delivered`), or fails immediately.
pub fn send(k: &mut Kernel, ep: u8, msg: &[u8]) -> (r: SendResult)
    requires
        old(k).wf(),
    ensures
        final(k).wf(),
        (final(k)@, r) == protocol::send(old(k)@, ep, msg@),
{
    if ep >= N_ENDPOINTS {
        return SendResult::Failed(IpcError::BadEndpoint);
    }
    if msg.len() > MSG_MAX {
        return SendResult::Failed(IpcError::Oversize);
    }
    let idx: usize = me(k);
    match k.tasks[idx].op {
        None => {},
        Some(op) => {
            if op.kind == OpKind::Send {
                let taken = reap(task_ptr(k, idx), OpKind::Send);
                assert(k@ =~= protocol::send(old(k)@, ep, msg@).0);
                return match taken {
                    Some(None) => SendResult::Delivered,
                    Some(Some(e)) => SendResult::Failed(e),
                    None => SendResult::Blocked,
                };
            }
            return SendResult::Failed(IpcError::Busy);
        },
    }
    stage_write(task_ptr(k, idx), msg);
    task_ptr(k, idx).op = Some(PendingOp::new(OpKind::Send, ep));
    let ghost offer = protocol::TaskView {
        msg: msg@,
        op: Some(protocol::fresh(OpKind::Send, ep)),
        ..old(k)@.caller()
    };
    proof {
        assert(k@ =~= old(k)@.with(idx as int, offer));
        protocol::lemma_partner_ignores_me(old(k)@.tasks, idx as int, ep, true, offer);
        protocol::lemma_partner(old(k)@.tasks, idx as int, ep, true);
    }
    match_sender(k, idx);
    let ghost met = *k;
    let taken = reap(task_ptr(k, idx), OpKind::Send);
    assert(met@.tasks[idx as int] == met.tasks@[idx as int]@);
    match taken {
        Some(None) => {
            assert(k@ =~= met@.with(idx as int, protocol::reaped(met@.caller())));
            assert(k@ =~= protocol::send(old(k)@, ep, msg@).0);
            SendResult::Delivered
        },
        Some(Some(e)) => SendResult::Failed(e),
        None => {
            task_ptr(k, idx).state = TaskState::Blocked;
            assert(k@.caller() =~= protocol::send(old(k)@, ep, msg@).0.caller());
            assert(k@ =~= protocol::send(old(k)@, ep, msg@).0);
            SendResult::Blocked
        },
    }
}

/// Blocking receive: rendezvous with a task blocked in `send`/`call` on `ep`.
/// On `Received(n)`, `out[..n]` holds the message.
pub fn recv(k: &mut Kernel, ep: u8, out: &mut [u8]) -> (r: RecvResult)
    requires
        old(k).wf(),
    ensures
        final(k).wf(),
        (final(k)@, r, final(out)@) == protocol::recv(old(k)@, ep, old(out)@),
{
    if ep >= N_ENDPOINTS {
        return RecvResult::Failed(IpcError::BadEndpoint);
    }
    let idx: usize = me(k);
    match k.tasks[idx].op {
        None => {},
        Some(op) => {
            if op.kind == OpKind::Recv {
                let taken = reap(task_ptr(k, idx), OpKind::Recv);
                assert(k@ =~= protocol::recv(old(k)@, ep, old(out)@).0);
                return match taken {
                    Some(None) => {
                        let n: usize = stage_read(&k.tasks[idx], out);
                        RecvResult::Received(n)
                    },
                    Some(Some(e)) => RecvResult::Failed(e),
                    None => RecvResult::Blocked,
                };
            }
            return RecvResult::Failed(IpcError::Busy);
        },
    }
    task_ptr(k, idx).op = Some(PendingOp::new(OpKind::Recv, ep));
    let ghost asking = protocol::TaskView {
        op: Some(protocol::fresh(OpKind::Recv, ep)),
        ..old(k)@.caller()
    };
    proof {
        assert(k@ =~= old(k)@.with(idx as int, asking));
        protocol::lemma_partner_ignores_me(old(k)@.tasks, idx as int, ep, false, asking);
        protocol::lemma_partner(old(k)@.tasks, idx as int, ep, false);
    }
    match_receiver(k, idx);
    let ghost met = k@;
    let taken = reap(task_ptr(k, idx), OpKind::Recv);
    match taken {
        Some(None) => {
            assert(k@ =~= met.with(idx as int, protocol::reaped(met.caller())));
            assert(k@ =~= protocol::recv(old(k)@, ep, old(out)@).0);
            let n: usize = stage_read(&k.tasks[idx], out);
            RecvResult::Received(n)
        },
        Some(Some(e)) => RecvResult::Failed(e),
        None => {
            task_ptr(k, idx).state = TaskState::Blocked;
            assert(k@.caller() =~= protocol::recv(old(k)@, ep, old(out)@).0.caller());
            assert(k@ =~= protocol::recv(old(k)@, ep, old(out)@).0);
            RecvResult::Blocked
        },
    }
}

/// Blocking call: `send` then wait for the reply, as one operation.
/// On `Replied(n)`, `reply_out[..n]` holds the reply.
pub fn call(k: &mut Kernel, ep: u8, msg: &[u8], reply_out: &mut [u8]) -> (r: CallResult)
    requires
        old(k).wf(),
    ensures
        final(k).wf(),
        (final(k)@, r, final(reply_out)@) == protocol::call(
            old(k)@,
            ep,
            msg@,
            old(reply_out)@,
        ),
{
    if ep >= N_ENDPOINTS {
        return CallResult::Failed(IpcError::BadEndpoint);
    }
    if msg.len() > MSG_MAX {
        return CallResult::Failed(IpcError::Oversize);
    }
    let idx: usize = me(k);
    match k.tasks[idx].op {
        None => {},
        Some(op) => {
            if op.kind == OpKind::Call {
                let taken = reap(task_ptr(k, idx), OpKind::Call);
                return match taken {
                    Some(None) => {
                        task_ptr(k, idx).reply_from = None;
                        assert(k@ =~= protocol::call(old(k)@, ep, msg@, old(reply_out)@).0);
                        let n: usize = stage_read(&k.tasks[idx], reply_out);
                        CallResult::Replied(n)
                    },
                    Some(Some(e)) => {
                        task_ptr(k, idx).reply_from = None;
                        assert(k@ =~= protocol::call(old(k)@, ep, msg@, old(reply_out)@).0);
                        CallResult::Failed(e)
                    },
                    None => {
                        assert(k@ =~= old(k)@);
                        CallResult::Blocked
                    },
                };
            }
            return CallResult::Failed(IpcError::Busy);
        },
    }
    stage_write(task_ptr(k, idx), msg);
    task_ptr(k, idx).op = Some(PendingOp::new(OpKind::Call, ep));
    let ghost offer = protocol::TaskView {
        msg: msg@,
        op: Some(protocol::fresh(OpKind::Call, ep)),
        ..old(k)@.caller()
    };
    proof {
        assert(k@ =~= old(k)@.with(idx as int, offer));
        protocol::lemma_partner_ignores_me(old(k)@.tasks, idx as int, ep, true, offer);
        protocol::lemma_partner(old(k)@.tasks, idx as int, ep, true);
    }
    match_sender(k, idx);
    // A call is never done after its send phase alone: it blocks awaiting the
    // reply.
    task_ptr(k, idx).state = TaskState::Blocked;
    assert(k@.caller() =~= protocol::call(old(k)@, ep, msg@, old(reply_out)@).0.caller());
    assert(k@ =~= protocol::call(old(k)@, ep, msg@, old(reply_out)@).0);
    CallResult::Blocked
}

/// Answer the outstanding `call` that the running task received. Never blocks.
///
/// Only valid after its `recv` rendezvoused with a `call` (not a plain
/// `send`); otherwise `Failed(NoPartner)`. If the caller is no longer waiting,
/// `Failed(PartnerFaulted)`.
pub fn reply(k: &mut Kernel, msg: &[u8]) -> (r: ReplyResult)
    requires
        old(k).wf(),
    ensures
        final(k).wf(),
        (final(k)@, r) == protocol::reply(old(k)@, msg@),
{
    if msg.len() > MSG_MAX {
        return ReplyResult::Failed(IpcError::Oversize);
    }
    let idx: usize = me(k);
    let target: usize = match k.tasks[idx].reply_to {
        Some(t) => t,
        None => return ReplyResult::Failed(IpcError::NoPartner),
    };
    assert(old(k).tasks@[idx as int].wf());
    task_ptr(k, idx).reply_to = None;
    match k.tasks[target].op {
        Some(op) => {
            if op.kind == OpKind::Call && op.phase == 1 && !op.done {
                let tp = task_ptr(k, target);
                stage_write(tp, msg);
                tp.op = Some(PendingOp { done: true, ..op });
                tp.state = TaskState::Ready;
                tp.reply_from = None;
                assert(k@ =~= protocol::reply(old(k)@, msg@).0);
                return ReplyResult::Replied;
            }
        },
        None => {},
    }
    assert(k@ =~= protocol::reply(old(k)@, msg@).0);
    ReplyResult::Failed(IpcError::PartnerFaulted)
}

/// Non-blocking signal: OR `bits` into `task`'s pending notification word,
/// waking it if it is blocked in `wait`. Never blocks, never lost.
pub fn notify(k: &mut Kernel, task: usize, bits: u32) -> (r: NotifyResult)
    requires
        old(k).wf(),
    ensures
        final(k).wf(),
        (final(k)@, r) == protocol::notify(old(k)@, task, bits),
{
    if task >= N_TASKS {
        return NotifyResult::Failed(IpcError::BadTask);
    }
    let tp = task_ptr(k, task);
    tp.pending = tp.pending | bits;
    if tp.state == TaskState::Blocked {
        if let Some(op) = tp.op {
            if op.kind == OpKind::Wait && !op.done {
                tp.op = Some(PendingOp { done: true, ..op });
                tp.state = TaskState::Ready;
            }
        }
    }
    assert(k@ =~= protocol::notify(old(k)@, task, bits).0);
    NotifyResult::Notified
}

/// Blocking wait: take pending notification bits, or block until `notify`ed.
/// The only error is `Busy` (another call outstanding, no bits pending).
///
/// Taking bits while another call is outstanding leaves that call alone: a task
/// blocked in it stays blocked until it completes.
pub fn wait(k: &mut Kernel) -> (r: WaitResult)
    requires
        old(k).wf(),
    ensures
        final(k).wf(),
        (final(k)@, r) == protocol::wait(old(k)@),
{
    let idx: usize = me(k);
    let tp = task_ptr(k, idx);
    if tp.pending != 0 {
        let bits: u32 = tp.pending;
        tp.pending = 0;
        let waiting = match tp.op {
            Some(op) => op.kind == OpKind::Wait,
            None => true,
        };
        if waiting {
            tp.op = None;
            tp.state = TaskState::Ready;
        }
        assert(k@ =~= protocol::wait(old(k)@).0);
        return WaitResult::Signaled(bits);
    }
    match tp.op {
        None => {},
        Some(op) => {
            if op.kind != OpKind::Wait {
                assert(k@ =~= old(k)@);
                return WaitResult::Failed(IpcError::Busy);
            }
            if !op.done {
                assert(k@ =~= old(k)@);
                return WaitResult::Blocked;
            }
            // Woken without bits: wait on.
        },
    }
    tp.op = Some(PendingOp::new(OpKind::Wait, 0));
    tp.state = TaskState::Blocked;
    assert(k@ =~= protocol::wait(old(k)@).0);
    WaitResult::Blocked
}

// ---------------------------------------------------------------------------
// Fault recovery
// ---------------------------------------------------------------------------

/// Reset task `faulted`'s IPC state for a post-fault restart, and wake any
/// partner blocked on it with `PartnerFaulted`.
///
/// - The faulted task: outstanding op cleared, marked `Ready`, pending
///   notifications cleared, reply links cleared.
/// - A task awaiting a reply from it: its call is completed with
///   `Failed(PartnerFaulted)` and it is woken.
/// - A task that owes it a reply: the link is cleared, so its `reply` reports
///   `NoPartner`.
/// - Every other operation is left alone: the restarted task re-enters the
///   rendezvous protocol from its entry point.
pub fn reset_for_restart(k: &mut Kernel, faulted: usize)
    requires
        old(k).wf(),
        faulted < N_TASKS,
    ensures
        final(k).wf(),
        final(k)@ == protocol::reset_for_restart(old(k)@, faulted),
{
    let fp = task_ptr(k, faulted);
    fp.op = None;
    fp.state = TaskState::Ready;
    fp.pending = 0;
    fp.reply_to = None;
    fp.reply_from = None;
    let mut t: usize = 0;
    while t < N_TASKS
        invariant
            t <= N_TASKS,
            faulted < N_TASKS,
            k.wf(),
            k@ == (protocol::KernelView { tasks: k@.tasks, ..old(k)@ }),
            k@.tasks[faulted as int] == protocol::scrubbed(old(k)@.tasks[faulted as int]),
            forall|i: int|
                0 <= i < t && i != faulted ==> #[trigger] k@.tasks[i] == protocol::bereaved(
                    old(k)@.tasks[i],
                    faulted,
                ),
            forall|i: int|
                t <= i < N_TASKS && i != faulted ==> #[trigger] k@.tasks[i] == old(k)@.tasks[i],
        decreases N_TASKS - t,
    {
        if t != faulted {
            assert(k@.tasks[t as int] == old(k)@.tasks[t as int]);
            let ghost before = k@;
            let tp = task_ptr(k, t);
            if let Some(op) = tp.op {
                if op.kind == OpKind::Call && op.phase == 1 && !op.done && tp.reply_from == Some(
                    faulted,
                ) {
                    tp.op = Some(
                        PendingOp { done: true, err: Some(IpcError::PartnerFaulted), ..op },
                    );
                    tp.state = TaskState::Ready;
                }
            }
            if tp.reply_to == Some(faulted) {
                tp.reply_to = None;
            }
            assert(k@ == before.with(
                t as int,
                protocol::bereaved(old(k)@.tasks[t as int], faulted),
            ));
        }
        t += 1;
    }
    assert(k@ =~= protocol::reset_for_restart(old(k)@, faulted));
}

} // verus!
