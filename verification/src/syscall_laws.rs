//! Laws of the system calls one by one, over the fields of the tasks: what each
//! call gives and changes, for every state of the kernel.

use vstd::prelude::*;

use crate::ipc::{
    CallResult, IpcError, NotifyResult, OpKind, PendingOp, RecvResult, ReplyResult, SendResult,
    WaitResult,
};
use crate::protocol;
use crate::protocol::{KernelView, TaskView};
use crate::task::TaskState;

verus! {

/// Six tasks, one of them running, and no staged message above 64 bytes.
pub open spec fn table(k: KernelView) -> bool {
    &&& k.tasks.len() == 6
    &&& 0 <= k.current < 6
    &&& forall|i: int| 0 <= i < 6 ==> (#[trigger] k.tasks[i]).msg.len() <= 64
}

/// The kernel apart from its task table is the same.
pub open spec fn same_but_tasks(k: KernelView, k1: KernelView) -> bool {
    &&& k1.current == k.current
    &&& k1.sched_ctx == k.sched_ctx
    &&& k1.task_ctx == k.task_ctx
    &&& k1.restarts == k.restarts
    &&& k1.tasks.len() == k.tasks.len()
}

/// All tasks but `a` and `b`, and the kernel apart from its task table, are the
/// same.
pub open spec fn rest_is_same(k: KernelView, k1: KernelView, a: int, b: int) -> bool {
    &&& same_but_tasks(k, k1)
    &&& forall|i: int|
        0 <= i < k.tasks.len() && i != a && i != b ==> #[trigger] k1.tasks[i] == k.tasks[i]
}

/// Blocked with a message to hand over on `ep`.
pub open spec fn offering(t: TaskView, ep: u8) -> bool {
    &&& t.state == TaskState::Blocked
    &&& t.op matches Some(op) && !op.done && op.ep == ep && (op.kind == OpKind::Send || (op.kind
        == OpKind::Call && op.phase == 0))
}

/// Blocked in `recv` on `ep`.
pub open spec fn listening(t: TaskView, ep: u8) -> bool {
    &&& t.state == TaskState::Blocked
    &&& t.op matches Some(op) && !op.done && op.ep == ep && op.kind == OpKind::Recv
}

/// Task `s` offers on `ep` and no task before it but the running one does.
pub open spec fn first_offering(k: KernelView, ep: u8, s: int) -> bool {
    &&& 0 <= s < 6
    &&& s != k.current
    &&& offering(k.tasks[s], ep)
    &&& forall|j: int| 0 <= j < s && j != k.current ==> !offering(#[trigger] k.tasks[j], ep)
}

/// Task `r` listens on `ep` and no task before it but the running one does.
pub open spec fn first_listening(k: KernelView, ep: u8, r: int) -> bool {
    &&& 0 <= r < 6
    &&& r != k.current
    &&& listening(k.tasks[r], ep)
    &&& forall|j: int| 0 <= j < r && j != k.current ==> !listening(#[trigger] k.tasks[j], ep)
}

/// No other task offers on `ep`.
pub open spec fn nobody_offers(k: KernelView, ep: u8) -> bool {
    forall|j: int| 0 <= j < 6 && j != k.current ==> !offering(#[trigger] k.tasks[j], ep)
}

/// No other task listens on `ep`.
pub open spec fn nobody_listens(k: KernelView, ep: u8) -> bool {
    forall|j: int| 0 <= j < 6 && j != k.current ==> !listening(#[trigger] k.tasks[j], ep)
}

/// A buffer that held `before` got `n` bytes of `msg`: as many as the message has
/// and the buffer takes, at its front, with the rest left alone.
pub open spec fn copied(msg: Seq<u8>, before: Seq<u8>, after: Seq<u8>, n: usize) -> bool {
    &&& n <= msg.len() && n <= before.len()
    &&& n == msg.len() || n == before.len()
    &&& after.len() == before.len()
    &&& forall|i: int| 0 <= i < n ==> #[trigger] after[i] == msg[i]
    &&& forall|i: int| n <= i < before.len() ==> #[trigger] after[i] == before[i]
}

proof fn lemma_first_offering(k: KernelView, ep: u8, s: int)
    requires
        table(k),
        first_offering(k, ep, s),
    ensures
        protocol::partner(k.tasks, k.current, ep, false) == Some(s),
{
    assert forall|j: int| 0 <= j < s implies !#[trigger] protocol::candidate(
        k.tasks,
        k.current,
        ep,
        false,
        j,
    ) by {
        assert(j == k.current || !offering(k.tasks[j], ep));
    }
    protocol::lemma_partner_is(k.tasks, k.current, ep, false, s);
}

proof fn lemma_nobody_offers(k: KernelView, ep: u8)
    requires
        table(k),
        nobody_offers(k, ep),
    ensures
        protocol::partner(k.tasks, k.current, ep, false) is None,
{
    protocol::lemma_partner(k.tasks, k.current, ep, false);
    if let Some(j) = protocol::partner(k.tasks, k.current, ep, false) {
        assert(!offering(k.tasks[j], ep));
    }
}

proof fn lemma_first_listening(k: KernelView, ep: u8, r: int)
    requires
        table(k),
        first_listening(k, ep, r),
    ensures
        protocol::partner(k.tasks, k.current, ep, true) == Some(r),
{
    assert forall|j: int| 0 <= j < r implies !#[trigger] protocol::candidate(
        k.tasks,
        k.current,
        ep,
        true,
        j,
    ) by {
        assert(j == k.current || !listening(k.tasks[j], ep));
    }
    protocol::lemma_partner_is(k.tasks, k.current, ep, true, r);
}

proof fn lemma_nobody_listens(k: KernelView, ep: u8)
    requires
        table(k),
        nobody_listens(k, ep),
    ensures
        protocol::partner(k.tasks, k.current, ep, true) is None,
{
    protocol::lemma_partner(k.tasks, k.current, ep, true);
    if let Some(j) = protocol::partner(k.tasks, k.current, ep, true) {
        assert(!listening(k.tasks[j], ep));
    }
}

// ---------------------------------------------------------------------------
// Messages
// ---------------------------------------------------------------------------

/// **A message that fits is received whole.** Into a buffer go the first bytes of
/// the message, as many as it has and the buffer takes; the rest of the buffer
/// stays.
pub proof fn law_copy_is_whole(msg: Seq<u8>, buf: Seq<u8>)
    requires
        msg.len() <= 64,
    ensures
        protocol::fitting(msg, buf.len()) <= usize::MAX,
        copied(msg, buf, protocol::filled(buf, msg), protocol::fitting(msg, buf.len()) as usize),
        msg.len() <= buf.len() ==> protocol::filled(buf, msg).take(msg.len() as int) == msg,
{
    assert(msg.len() <= buf.len() ==> protocol::filled(buf, msg).take(msg.len() as int) =~= msg);
}

// ---------------------------------------------------------------------------
// send
// ---------------------------------------------------------------------------

/// **What `send` refuses.** An endpoint above 7, then a message above 64 bytes,
/// then a task with another operation outstanding. Nothing changes.
pub proof fn law_send_refuses(k: KernelView, ep: u8, msg: Seq<u8>)
    requires
        table(k),
    ensures
        ({
            let (k1, res) = protocol::send(k, ep, msg);
            let op = k.tasks[k.current].op;
            let busy = op is Some && op->Some_0.kind != OpKind::Send;
            &&& ep > 7 ==> res == SendResult::Failed(IpcError::BadEndpoint)
            &&& ep <= 7 && msg.len() > 64 ==> res == SendResult::Failed(IpcError::Oversize)
            &&& ep <= 7 && msg.len() <= 64 && busy ==> res == SendResult::Failed(IpcError::Busy)
            &&& ep > 7 || msg.len() > 64 || busy ==> k1 == k
        }),
{
}

/// **An outstanding `send` is reported.** Unfinished, it is `Blocked` and nothing
/// changes. Finished, its outcome is reported once: the task has no operation
/// any more and is `Ready`, everything else is the same.
pub proof fn law_send_reports(k: KernelView, ep: u8, msg: Seq<u8>)
    requires
        table(k),
        ep <= 7,
        msg.len() <= 64,
        k.tasks[k.current].op matches Some(op) && op.kind == OpKind::Send,
    ensures
        ({
            let (k1, res) = protocol::send(k, ep, msg);
            let t = k.tasks[k.current];
            let op = t.op->Some_0;
            &&& !op.done ==> res == SendResult::Blocked && k1 == k
            &&& op.done ==> {
                &&& res == match op.err {
                    Some(e) => SendResult::Failed(e),
                    None => SendResult::Delivered,
                }
                &&& k1.tasks[k.current] == (TaskView { op: None, state: TaskState::Ready, ..t })
                &&& rest_is_same(k, k1, k.current, k.current)
            }
        }),
{
}

/// **A `send` meets the first listener.** The message is delivered: it is the
/// listener's staged message, whose `recv` is done and who is `Ready`. The sender
/// has no operation and is `Ready`. Nobody owes a reply on account of it.
pub proof fn law_send_meets(k: KernelView, ep: u8, msg: Seq<u8>, r: int)
    requires
        table(k),
        ep <= 7,
        msg.len() <= 64,
        k.tasks[k.current].op is None,
        first_listening(k, ep, r),
    ensures
        ({
            let (k1, res) = protocol::send(k, ep, msg);
            let op = k.tasks[r].op->Some_0;
            &&& res == SendResult::Delivered
            &&& k1.tasks[r] == (TaskView {
                msg,
                op: Some(PendingOp { done: true, ..op }),
                state: TaskState::Ready,
                ..k.tasks[r]
            })
            &&& k1.tasks[k.current] == (TaskView {
                msg,
                state: TaskState::Ready,
                ..k.tasks[k.current]
            })
            &&& rest_is_same(k, k1, k.current, r)
        }),
{
    lemma_first_listening(k, ep, r);
}

/// **A `send` that meets nobody blocks,** with the message staged.
pub proof fn law_send_blocks(k: KernelView, ep: u8, msg: Seq<u8>)
    requires
        table(k),
        ep <= 7,
        msg.len() <= 64,
        k.tasks[k.current].op is None,
        nobody_listens(k, ep),
    ensures
        ({
            let (k1, res) = protocol::send(k, ep, msg);
            &&& res == SendResult::Blocked
            &&& k1.tasks[k.current] == (TaskView {
                msg,
                op: Some(
                    PendingOp { kind: OpKind::Send, phase: 0, ep, done: false, err: None },
                ),
                state: TaskState::Blocked,
                ..k.tasks[k.current]
            })
            &&& rest_is_same(k, k1, k.current, k.current)
        }),
{
    lemma_nobody_listens(k, ep);
}

// ---------------------------------------------------------------------------
// recv
// ---------------------------------------------------------------------------

/// **What `recv` refuses.** An endpoint above 7, then a task with another
/// operation outstanding. Kernel and buffer stay.
pub proof fn law_recv_refuses(k: KernelView, ep: u8, out: Seq<u8>)
    requires
        table(k),
    ensures
        ({
            let (k1, res, buf) = protocol::recv(k, ep, out);
            let op = k.tasks[k.current].op;
            let busy = op is Some && op->Some_0.kind != OpKind::Recv;
            &&& ep > 7 ==> res == RecvResult::Failed(IpcError::BadEndpoint)
            &&& ep <= 7 && busy ==> res == RecvResult::Failed(IpcError::Busy)
            &&& ep > 7 || busy ==> k1 == k && buf == out
        }),
{
}

/// **An outstanding `recv` is reported.** Unfinished, it is `Blocked` and nothing
/// changes. Finished, it yields the task's staged message once.
pub proof fn law_recv_reports(k: KernelView, ep: u8, out: Seq<u8>)
    requires
        table(k),
        ep <= 7,
        k.tasks[k.current].op matches Some(op) && op.kind == OpKind::Recv,
    ensures
        ({
            let (k1, res, buf) = protocol::recv(k, ep, out);
            let t = k.tasks[k.current];
            let op = t.op->Some_0;
            &&& !op.done ==> res == RecvResult::Blocked && k1 == k && buf == out
            &&& op.done ==> {
                &&& op.err matches Some(e) ==> res == RecvResult::Failed(e) && buf == out
                &&& op.err is None ==> res is Received && copied(
                    t.msg,
                    out,
                    buf,
                    res->Received_0,
                )
                &&& k1.tasks[k.current] == (TaskView { op: None, state: TaskState::Ready, ..t })
                &&& rest_is_same(k, k1, k.current, k.current)
            }
        }),
{
    law_copy_is_whole(k.tasks[k.current].msg, out);
}

/// **A `recv` meets the first task that offers.** It yields that task's message.
/// A `send` is done then, and its task `Ready`. A `call` goes on to wait for the
/// reply, which the receiver now owes its task.
pub proof fn law_recv_meets(k: KernelView, ep: u8, out: Seq<u8>, s: int)
    requires
        table(k),
        ep <= 7,
        k.tasks[k.current].op is None,
        first_offering(k, ep, s),
    ensures
        ({
            let (k1, res, buf) = protocol::recv(k, ep, out);
            let op = k.tasks[s].op->Some_0;
            let calls = op.kind == OpKind::Call;
            &&& res is Received
            &&& copied(k.tasks[s].msg, out, buf, res->Received_0)
            &&& k1.tasks[s] == if calls {
                TaskView {
                    op: Some(PendingOp { phase: 1, ..op }),
                    reply_from: Some(k.current as usize),
                    ..k.tasks[s]
                }
            } else {
                TaskView {
                    op: Some(PendingOp { done: true, ..op }),
                    state: TaskState::Ready,
                    ..k.tasks[s]
                }
            }
            &&& k1.tasks[k.current] == (TaskView {
                msg: k.tasks[s].msg,
                state: TaskState::Ready,
                reply_to: if calls {
                    Some(s as usize)
                } else {
                    k.tasks[k.current].reply_to
                },
                ..k.tasks[k.current]
            })
            &&& rest_is_same(k, k1, k.current, s)
        }),
{
    lemma_first_offering(k, ep, s);
    law_copy_is_whole(k.tasks[s].msg, out);
}

/// **A `recv` that meets nobody blocks.** The buffer stays.
pub proof fn law_recv_blocks(k: KernelView, ep: u8, out: Seq<u8>)
    requires
        table(k),
        ep <= 7,
        k.tasks[k.current].op is None,
        nobody_offers(k, ep),
    ensures
        ({
            let (k1, res, buf) = protocol::recv(k, ep, out);
            &&& res == RecvResult::Blocked
            &&& buf == out
            &&& k1.tasks[k.current] == (TaskView {
                op: Some(
                    PendingOp { kind: OpKind::Recv, phase: 0, ep, done: false, err: None },
                ),
                state: TaskState::Blocked,
                ..k.tasks[k.current]
            })
            &&& rest_is_same(k, k1, k.current, k.current)
        }),
{
    lemma_nobody_offers(k, ep);
}

// ---------------------------------------------------------------------------
// call and reply
// ---------------------------------------------------------------------------

/// **What `call` refuses.** As `send`. Kernel and buffer stay.
pub proof fn law_call_refuses(k: KernelView, ep: u8, msg: Seq<u8>, out: Seq<u8>)
    requires
        table(k),
    ensures
        ({
            let (k1, res, buf) = protocol::call(k, ep, msg, out);
            let op = k.tasks[k.current].op;
            let busy = op is Some && op->Some_0.kind != OpKind::Call;
            &&& ep > 7 ==> res == CallResult::Failed(IpcError::BadEndpoint)
            &&& ep <= 7 && msg.len() > 64 ==> res == CallResult::Failed(IpcError::Oversize)
            &&& ep <= 7 && msg.len() <= 64 && busy ==> res == CallResult::Failed(IpcError::Busy)
            &&& ep > 7 || msg.len() > 64 || busy ==> k1 == k && buf == out
        }),
{
}

/// **An outstanding `call` is reported.** Unfinished, it is `Blocked` and nothing
/// changes. Finished, it yields the reply, or its error, once.
pub proof fn law_call_reports(k: KernelView, ep: u8, msg: Seq<u8>, out: Seq<u8>)
    requires
        table(k),
        ep <= 7,
        msg.len() <= 64,
        k.tasks[k.current].op matches Some(op) && op.kind == OpKind::Call,
    ensures
        ({
            let (k1, res, buf) = protocol::call(k, ep, msg, out);
            let t = k.tasks[k.current];
            let op = t.op->Some_0;
            &&& !op.done ==> res == CallResult::Blocked && k1 == k && buf == out
            &&& op.done ==> {
                &&& op.err matches Some(e) ==> res == CallResult::Failed(e) && buf == out
                &&& op.err is None ==> res is Replied && copied(t.msg, out, buf, res->Replied_0)
                &&& k1.tasks[k.current] == (TaskView {
                    op: None,
                    state: TaskState::Ready,
                    reply_from: None,
                    ..t
                })
                &&& rest_is_same(k, k1, k.current, k.current)
            }
        }),
{
    law_copy_is_whole(k.tasks[k.current].msg, out);
}

/// **A `call` meets the first listener.** The listener gets the message and owes
/// the caller a reply; the caller blocks until it comes.
pub proof fn law_call_meets(k: KernelView, ep: u8, msg: Seq<u8>, out: Seq<u8>, r: int)
    requires
        table(k),
        ep <= 7,
        msg.len() <= 64,
        k.tasks[k.current].op is None,
        first_listening(k, ep, r),
    ensures
        ({
            let (k1, res, buf) = protocol::call(k, ep, msg, out);
            let op = k.tasks[r].op->Some_0;
            &&& res == CallResult::Blocked
            &&& buf == out
            &&& k1.tasks[r] == (TaskView {
                msg,
                op: Some(PendingOp { done: true, ..op }),
                state: TaskState::Ready,
                reply_to: Some(k.current as usize),
                ..k.tasks[r]
            })
            &&& k1.tasks[k.current] == (TaskView {
                msg,
                op: Some(
                    PendingOp { kind: OpKind::Call, phase: 1, ep, done: false, err: None },
                ),
                state: TaskState::Blocked,
                reply_from: Some(r as usize),
                ..k.tasks[k.current]
            })
            &&& rest_is_same(k, k1, k.current, r)
        }),
{
    lemma_first_listening(k, ep, r);
}

/// **A `call` that meets nobody blocks,** with the message staged.
pub proof fn law_call_blocks(k: KernelView, ep: u8, msg: Seq<u8>, out: Seq<u8>)
    requires
        table(k),
        ep <= 7,
        msg.len() <= 64,
        k.tasks[k.current].op is None,
        nobody_listens(k, ep),
    ensures
        ({
            let (k1, res, buf) = protocol::call(k, ep, msg, out);
            &&& res == CallResult::Blocked
            &&& buf == out
            &&& k1.tasks[k.current] == (TaskView {
                msg,
                op: Some(
                    PendingOp { kind: OpKind::Call, phase: 0, ep, done: false, err: None },
                ),
                state: TaskState::Blocked,
                ..k.tasks[k.current]
            })
            &&& rest_is_same(k, k1, k.current, k.current)
        }),
{
    lemma_nobody_listens(k, ep);
}

/// **What `reply` does.** Too long a message, and a task that owes no reply, are
/// refused and change nothing. Otherwise the debt is settled: a task that waits
/// for a reply gets the message and is `Ready`; if the creditor does not wait,
/// it is reported dead.
pub proof fn law_reply_settles(k: KernelView, msg: Seq<u8>)
    requires
        table(k),
        k.tasks[k.current].reply_to matches Some(c) ==> c < 6,
    ensures
        ({
            let (k1, res) = protocol::reply(k, msg);
            let t = k.tasks[k.current];
            &&& msg.len() > 64 ==> res == ReplyResult::Failed(IpcError::Oversize) && k1 == k
            &&& msg.len() <= 64 && t.reply_to is None ==> res == ReplyResult::Failed(
                IpcError::NoPartner,
            ) && k1 == k
            &&& msg.len() <= 64 && t.reply_to is Some ==> {
                let c = t.reply_to->Some_0 as int;
                let waits = k.tasks[c].op matches Some(op) && op.kind == OpKind::Call && op.phase
                    == 1 && !op.done;
                &&& k1.tasks[k.current].reply_to is None
                &&& c != k.current ==> k1.tasks[k.current] == (TaskView { reply_to: None, ..t })
                &&& rest_is_same(k, k1, k.current, c)
                &&& waits ==> {
                    &&& res == ReplyResult::Replied
                    &&& k1.tasks[c] == (TaskView {
                        msg,
                        op: Some(PendingOp { done: true, ..k.tasks[c].op->Some_0 }),
                        state: TaskState::Ready,
                        reply_from: None,
                        reply_to: k1.tasks[c].reply_to,
                        ..k.tasks[c]
                    })
                }
                &&& !waits ==> {
                    &&& res == ReplyResult::Failed(IpcError::PartnerFaulted)
                    &&& k1.tasks[c] == (TaskView { reply_to: k1.tasks[c].reply_to, ..k.tasks[c] })
                }
                &&& c != k.current ==> k1.tasks[c].reply_to == k.tasks[c].reply_to
            }
        }),
{
}

// ---------------------------------------------------------------------------
// notify and wait
// ---------------------------------------------------------------------------

/// **What `notify` does.** A task index above 5 is refused. Otherwise the target
/// has pending exactly the bits that it had or that were given; a target blocked
/// in `wait` is `Ready` with its operation done.
pub proof fn law_notify_adds_bits(k: KernelView, task: usize, bits: u32)
    requires
        table(k),
    ensures
        ({
            let (k1, res) = protocol::notify(k, task, bits);
            &&& task > 5 ==> res == NotifyResult::Failed(IpcError::BadTask) && k1 == k
            &&& task <= 5 ==> {
                let t = k.tasks[task as int];
                let t1 = k1.tasks[task as int];
                let waits = t.state == TaskState::Blocked && (t.op matches Some(op) && op.kind
                    == OpKind::Wait && !op.done);
                &&& res == NotifyResult::Notified
                &&& forall|b: u32|
                    b < 32 ==> ((#[trigger] (t1.pending >> b)) & 1 == 1 <==> (t.pending >> b) & 1
                        == 1 || (bits >> b) & 1 == 1)
                &&& waits ==> t1 == (TaskView {
                    pending: t1.pending,
                    op: Some(PendingOp { done: true, ..t.op->Some_0 }),
                    state: TaskState::Ready,
                    ..t
                })
                &&& !waits ==> t1 == (TaskView { pending: t1.pending, ..t })
                &&& rest_is_same(k, k1, task as int, task as int)
            }
        }),
{
    if task <= 5 {
        let t = k.tasks[task as int];
        let was = t.pending;
        assert forall|b: u32| b < 32 implies ((#[trigger] ((was | bits) >> b)) & 1 == 1 <==> (was
            >> b) & 1 == 1 || (bits >> b) & 1 == 1) by {
            assert(((was | bits) >> b) & 1 == 1 <==> (was >> b) & 1 == 1 || (bits >> b) & 1 == 1)
                by (bit_vector)
                requires
                    b < 32,
            ;
        }
    }
}

/// **What `wait` does.** Pending bits are all returned and none stays; an
/// outstanding `wait` is over then, any other operation goes on. With none
/// pending, a task with another operation outstanding is refused, and any other
/// blocks until it is notified.
pub proof fn law_wait_takes_bits(k: KernelView)
    requires
        table(k),
    ensures
        ({
            let (k1, res) = protocol::wait(k);
            let t = k.tasks[k.current];
            let t1 = k1.tasks[k.current];
            let other = t.op matches Some(op) && op.kind != OpKind::Wait;
            &&& rest_is_same(k, k1, k.current, k.current)
            &&& t.pending != 0 ==> res == WaitResult::Signaled(t.pending) && t1.pending == 0
            &&& t.pending != 0 && other ==> t1 == (TaskView { pending: 0, ..t })
            &&& t.pending != 0 && !other ==> t1 == (TaskView {
                pending: 0,
                op: None,
                state: TaskState::Ready,
                ..t
            })
            &&& t.pending == 0 && other ==> res == WaitResult::Failed(IpcError::Busy) && k1 == k
            &&& t.pending == 0 && !other ==> res == WaitResult::Blocked
            &&& t.pending == 0 && (t.op matches Some(op) && op.kind == OpKind::Wait && !op.done)
                ==> k1 == k
            &&& t.pending == 0 && (t.op is None || (t.op matches Some(op) && op.kind
                == OpKind::Wait && op.done)) ==> t1 == (TaskView {
                op: Some(
                    PendingOp { kind: OpKind::Wait, phase: 0, ep: 0, done: false, err: None },
                ),
                state: TaskState::Blocked,
                ..t
            })
        }),
{
}

// ---------------------------------------------------------------------------
// Conversations
// ---------------------------------------------------------------------------

/// **What was sent is what is received,** whoever comes first. If task `a` sends
/// on an endpoint where nobody else is and task `b` receives there, `b`'s buffer
/// gets `a`'s message.
pub proof fn law_sent_is_received(
    k: KernelView,
    a: int,
    b: int,
    ep: u8,
    msg: Seq<u8>,
    out: Seq<u8>,
)
    requires
        table(k),
        0 <= a < 6,
        0 <= b < 6,
        a != b,
        ep <= 7,
        msg.len() <= 64,
        k.tasks[a].op is None,
        k.tasks[b].op is None,
        nobody_listens(k.running(a), ep),
        nobody_offers(k.running(b), ep),
    ensures
        ({
            let (k1, sent) = protocol::send(k.running(a), ep, msg);
            let (k2, got, buf) = protocol::recv(k1.running(b), ep, out);
            &&& sent == SendResult::Blocked
            &&& got is Received
            &&& copied(msg, out, buf, got->Received_0)
            &&& protocol::send(k2.running(a), ep, msg).1 == SendResult::Delivered
        }),
        ({
            let (k1, early, buf1) = protocol::recv(k.running(b), ep, out);
            let (k2, sent) = protocol::send(k1.running(a), ep, msg);
            let (k3, got, buf) = protocol::recv(k2.running(b), ep, out);
            &&& early == RecvResult::Blocked
            &&& buf1 == out
            &&& sent == SendResult::Delivered
            &&& got is Received
            &&& copied(msg, out, buf, got->Received_0)
        }),
{
    let ka = k.running(a);
    law_send_blocks(ka, ep, msg);
    let k1 = protocol::send(ka, ep, msg).0.running(b);
    assert forall|j: int| 0 <= j < a && j != b implies !offering(#[trigger] k1.tasks[j], ep) by {
        assert(k.running(b).tasks[j] == k1.tasks[j]);
    }
    law_recv_meets(k1, ep, out, a);
    let k2 = protocol::recv(k1, ep, out).0.running(a);
    law_send_reports(k2, ep, msg);
    let kb = k.running(b);
    law_recv_blocks(kb, ep, out);
    let m1 = protocol::recv(kb, ep, out).0.running(a);
    assert forall|j: int| 0 <= j < b && j != a implies !listening(#[trigger] m1.tasks[j], ep) by {
        assert(k.running(a).tasks[j] == m1.tasks[j]);
    }
    law_send_meets(m1, ep, msg, b);
    let m2 = protocol::send(m1, ep, msg).0.running(b);
    law_recv_reports(m2, ep, out);
}

/// **A call gets the reply.** If task `a` calls task `b`, which receives and
/// replies, `a`'s call yields that reply, and meanwhile `b` had `a`'s message.
pub proof fn law_call_gets_the_reply(
    k: KernelView,
    a: int,
    b: int,
    ep: u8,
    msg: Seq<u8>,
    rep: Seq<u8>,
    out: Seq<u8>,
)
    requires
        table(k),
        0 <= a < 6,
        0 <= b < 6,
        a != b,
        ep <= 7,
        msg.len() <= 64,
        rep.len() <= 64,
        k.tasks[a].op is None,
        k.tasks[b].op is None,
        nobody_listens(k.running(a), ep),
        nobody_offers(k.running(b), ep),
    ensures
        ({
            let (k1, called, buf1) = protocol::call(k.running(a), ep, msg, out);
            let (k2, got, buf2) = protocol::recv(k1.running(b), ep, out);
            let (k3, replied) = protocol::reply(k2, rep);
            let (k4, answer, buf4) = protocol::call(k3.running(a), ep, msg, out);
            &&& called == CallResult::Blocked
            &&& got is Received
            &&& copied(msg, out, buf2, got->Received_0)
            &&& replied == ReplyResult::Replied
            &&& answer is Replied
            &&& copied(rep, out, buf4, answer->Replied_0)
        }),
{
    let ka = k.running(a);
    law_call_blocks(ka, ep, msg, out);
    let k1 = protocol::call(ka, ep, msg, out).0.running(b);
    assert forall|j: int| 0 <= j < a && j != b implies !offering(#[trigger] k1.tasks[j], ep) by {
        assert(k.running(b).tasks[j] == k1.tasks[j]);
    }
    law_recv_meets(k1, ep, out, a);
    let k2 = protocol::recv(k1, ep, out).0;
    law_reply_settles(k2, rep);
    let k3 = protocol::reply(k2, rep).0.running(a);
    law_call_reports(k3, ep, msg, out);
}

// ---------------------------------------------------------------------------
// Faults
// ---------------------------------------------------------------------------

/// **What a reset does to the faulted task:** no operation, `Ready`, no pending
/// bits, no reply partner either way; name, entry point, stack and staged bytes
/// stay.
pub proof fn law_reset_clears_the_faulted(k: KernelView, faulted: usize)
    requires
        table(k),
        faulted <= 5,
    ensures
        ({
            let k1 = protocol::reset_for_restart(k, faulted);
            &&& same_but_tasks(k, k1)
            &&& k1.tasks[faulted as int] == (TaskView {
                op: None,
                state: TaskState::Ready,
                pending: 0,
                reply_to: None,
                reply_from: None,
                ..k.tasks[faulted as int]
            })
        }),
{
}

/// **What a reset does to any other task.** If its call waits for the faulted
/// task's reply, the call is done with `PartnerFaulted` and the task is `Ready`.
/// If it owes the faulted task a reply, it owes none any more. Apart from that
/// it is the same.
pub proof fn law_reset_tells_the_partners(k: KernelView, faulted: usize, i: int)
    requires
        table(k),
        faulted <= 5,
        0 <= i < 6,
        i != faulted,
    ensures
        ({
            let t = k.tasks[i];
            let t1 = protocol::reset_for_restart(k, faulted).tasks[i];
            let waits = t.reply_from == Some(faulted) && (t.op matches Some(op) && op.kind
                == OpKind::Call && op.phase == 1 && !op.done);
            let owes = t.reply_to == Some(faulted);
            &&& owes ==> t1.reply_to is None
            &&& !owes ==> t1.reply_to == t.reply_to
            &&& waits ==> t1 == (TaskView {
                op: Some(
                    PendingOp {
                        done: true,
                        err: Some(IpcError::PartnerFaulted),
                        ..t.op->Some_0
                    },
                ),
                state: TaskState::Ready,
                reply_to: t1.reply_to,
                ..t
            })
            &&& !waits ==> t1 == (TaskView { reply_to: t1.reply_to, ..t })
        }),
{
}

/// **A restart enters the task afresh, every time.** However often the task was
/// restarted before: its next resume jumps to its entry point with the stack
/// pointer at its stack top, all registers and the shift amount zero, and window 0
/// current and alone live. No other context changes.
pub proof fn law_restart_enters_afresh(k: KernelView, idx: usize)
    requires
        table(k),
        k.task_ctx.len() == 6,
        idx <= 5,
    ensures
        ({
            let k1 = protocol::request_restart(k, idx);
            let c = k1.task_ctx[idx as int];
            &&& k1.task_ctx.len() == 6
            &&& c.pc == k.tasks[idx as int].entry
            &&& c.sp == k.tasks[idx as int].stack_top
            &&& c.a.len() == 16
            &&& forall|r: int| 0 <= r < 16 ==> #[trigger] c.a[r] == 0
            &&& c.sar == 0 && c.windowbase == 0 && c.windowstart == 1
            &&& forall|i: int|
                0 <= i < 6 && i != idx ==> #[trigger] k1.task_ctx[i] == k.task_ctx[i]
            &&& k1.sched_ctx == k.sched_ctx
            &&& k1.current == k.current
        }),
{
}

/// **A restart is counted and resets the task.** The task's count goes up by one,
/// modulo two to the 32; no other count changes; the tasks are as after a reset.
pub proof fn law_restart_is_counted(k: KernelView, idx: usize)
    requires
        table(k),
        k.restarts.len() == 6,
        idx <= 5,
    ensures
        ({
            let k1 = protocol::request_restart(k, idx);
            &&& k1.restarts.len() == 6
            &&& k1.restarts[idx as int] == (k.restarts[idx as int] + 1) % 0x1_0000_0000
            &&& forall|i: int|
                0 <= i < 6 && i != idx ==> #[trigger] k1.restarts[i] == k.restarts[i]
            &&& k1.tasks == protocol::reset_for_restart(k, idx).tasks
        }),
{
}

/// **Counters wrap after two to the 32.**
pub proof fn law_counters_wrap(n: u32)
    ensures
        protocol::counted(n) == (n + 1) % 0x1_0000_0000,
{
}

/// **A fresh context** starts at the entry point on an empty stack with nothing in
/// its registers and one live window; an unused one holds nothing at all.
pub proof fn law_fresh_contexts(entry: u32, stack_top: u32, r: int)
    requires
        0 <= r < 16,
    ensures
        ({
            let c = protocol::initial_context(entry, stack_top);
            let z = protocol::zero_context();
            &&& c.pc == entry && c.sp == stack_top
            &&& c.a.len() == 16 && c.a[r] == 0
            &&& c.sar == 0 && c.windowbase == 0 && c.windowstart == 1
            &&& z.pc == 0 && z.sp == 0
            &&& z.a.len() == 16 && z.a[r] == 0
            &&& z.sar == 0 && z.windowbase == 0 && z.windowstart == 0
        }),
{
}

/// **Making a task the running one changes nothing else.**
pub proof fn law_running_changes_current_only(k: KernelView, i: int)
    ensures
        k.running(i).current == i,
        k.running(i).tasks == k.tasks,
        k.running(i).sched_ctx == k.sched_ctx,
        k.running(i).task_ctx == k.task_ctx,
        k.running(i).restarts == k.restarts,
{
}

} // verus!
