//! Laws of the IPC protocol: what holds across calls, whatever the tasks do.

use vstd::prelude::*;

use crate::ipc::{
    CallResult, IpcError, NotifyResult, OpKind, RecvResult, ReplyResult, SendResult, WaitResult,
    MSG_MAX, N_ENDPOINTS, N_TASKS,
};
use crate::protocol::{self, KernelView, TaskView};
use crate::task::TaskState;

verus! {

/// One system call of the running task, with its arguments. For `Recv` and
/// `Call`, the last field is what the output buffer holds before.
pub enum Syscall {
    Send(u8, Seq<u8>),
    Recv(u8, Seq<u8>),
    Call(u8, Seq<u8>, Seq<u8>),
    Reply(Seq<u8>),
    Notify(usize, u32),
    Wait,
}

/// The kernel after the running task made a system call.
pub open spec fn after(k: KernelView, c: Syscall) -> KernelView {
    match c {
        Syscall::Send(ep, msg) => protocol::send(k, ep, msg).0,
        Syscall::Recv(ep, out) => protocol::recv(k, ep, out).0,
        Syscall::Call(ep, msg, out) => protocol::call(k, ep, msg, out).0,
        Syscall::Reply(msg) => protocol::reply(k, msg).0,
        Syscall::Notify(task, bits) => protocol::notify(k, task, bits).0,
        Syscall::Wait => protocol::wait(k).0,
    }
}

// ---------------------------------------------------------------------------
// The kernel invariant
// ---------------------------------------------------------------------------

/// A task is `Blocked` exactly while its operation is unfinished, its message
/// fits, only a call has a second phase, and only a call awaiting its reply
/// fails, with `PartnerFaulted`.
pub open spec fn task_coherent(t: TaskView) -> bool {
    &&& t.state == TaskState::Blocked <==> protocol::unfinished(t)
    &&& t.msg.len() <= MSG_MAX
    &&& t.op matches Some(op) ==> {
        &&& op.phase <= 1
        &&& op.phase == 1 ==> op.kind == OpKind::Call
        &&& op.kind == OpKind::Call && op.done ==> op.phase == 1
        &&& op.err matches Some(e) ==> {
            &&& e == IpcError::PartnerFaulted
            &&& op.done
            &&& op.kind == OpKind::Call
        }
    }
}

/// The reply links of task `i` agree with its partner's.
///
/// Whoever owes a reply owes it to a task that waits for exactly this reply.
/// Whoever waits for a reply knows from whom, and only a call that was received
/// remembers a partner.
pub open spec fn links_coherent(tasks: Seq<TaskView>, i: int) -> bool {
    &&& tasks[i].reply_to matches Some(s) ==> {
        &&& s < tasks.len()
        &&& s != i
        &&& protocol::awaiting_reply(tasks[s as int])
        &&& tasks[s as int].reply_from == Some(i as usize)
    }
    &&& protocol::awaiting_reply(tasks[i]) ==> tasks[i].reply_from is Some
    &&& tasks[i].reply_from matches Some(r) ==> {
        &&& r < tasks.len()
        &&& r != i
        &&& tasks[i].op matches Some(op) && op.kind == OpKind::Call && op.phase == 1
    }
}

/// No sender and receiver are both blocked on the same endpoint.
pub open spec fn no_missed_meeting(tasks: Seq<TaskView>) -> bool {
    forall|s: int, r: int, ep: u8|
        0 <= s < tasks.len() && 0 <= r < tasks.len() && #[trigger] protocol::sending(tasks[s], ep)
            ==> !#[trigger] protocol::receiving(tasks[r], ep)
}

/// What every reachable kernel state satisfies.
pub open spec fn coherent(k: KernelView) -> bool {
    &&& k.tasks.len() == N_TASKS
    &&& 0 <= k.current < N_TASKS
    &&& forall|i: int| 0 <= i < k.tasks.len() ==> task_coherent(#[trigger] k.tasks[i])
    &&& forall|i: int| 0 <= i < k.tasks.len() ==> #[trigger] links_coherent(k.tasks, i)
    &&& no_missed_meeting(k.tasks)
}

/// A step keeps `no_missed_meeting` if the only task that may newly block is
/// the caller, on `ep`, and then nobody there could meet it.
proof fn lemma_meetings(k: KernelView, k1: KernelView, ep: u8, as_sender: bool)
    requires
        coherent(k),
        k1.tasks.len() == k.tasks.len(),
        forall|i: int, e: u8|
            0 <= i < k.tasks.len() && #[trigger] protocol::sending(k1.tasks[i], e)
                ==> protocol::sending(k.tasks[i], e) || (as_sender && i == k.current && e == ep
                && protocol::partner(k.tasks, k.current, ep, true) is None),
        forall|i: int, e: u8|
            0 <= i < k.tasks.len() && #[trigger] protocol::receiving(k1.tasks[i], e)
                ==> protocol::receiving(k.tasks[i], e) || (!as_sender && i == k.current && e
                == ep && protocol::partner(k.tasks, k.current, ep, false) is None),
    ensures
        no_missed_meeting(k1.tasks),
{
    assert forall|s: int, r: int, e: u8|
        0 <= s < k1.tasks.len() && 0 <= r < k1.tasks.len() && #[trigger] protocol::sending(
            k1.tasks[s],
            e,
        ) implies !#[trigger] protocol::receiving(k1.tasks[r], e) by {
        if protocol::receiving(k1.tasks[r], e) {
            protocol::lemma_partner(k.tasks, k.current, ep, as_sender);
            assert(protocol::sending(k.tasks[s], e) || s == k.current);
            assert(protocol::candidate(k.tasks, k.current, ep, as_sender, s) || s == k.current
                || as_sender || e != ep || !protocol::sending(k.tasks[s], e));
            assert(protocol::candidate(k.tasks, k.current, ep, as_sender, r) || r == k.current
                || !as_sender || e != ep || !protocol::receiving(k.tasks[r], e));
        }
    }
}

/// After a system call every task and every reply link is coherent.
proof fn lemma_tables_coherent(k: KernelView, c: Syscall)
    requires
        coherent(k),
    ensures
        after(k, c).tasks.len() == N_TASKS,
        after(k, c).current == k.current,
        forall|i: int|
            0 <= i < after(k, c).tasks.len() ==> task_coherent(#[trigger] after(k, c).tasks[i]),
        forall|i: int|
            0 <= i < after(k, c).tasks.len() ==> #[trigger] links_coherent(after(k, c).tasks, i),
{
    let me = k.current;
    let k1 = after(k, c);
    match c {
        Syscall::Send(ep, msg) => protocol::lemma_partner(k.tasks, me, ep, true),
        Syscall::Recv(ep, out) => protocol::lemma_partner(k.tasks, me, ep, false),
        Syscall::Call(ep, msg, out) => protocol::lemma_partner(k.tasks, me, ep, true),
        _ => {},
    }
    assert(task_coherent(k.tasks[me]));
    assert(links_coherent(k.tasks, me));
    assert forall|i: int| 0 <= i < k1.tasks.len() implies task_coherent(#[trigger] k1.tasks[i]) by {
        assert(task_coherent(k.tasks[i]));
    }
    assert forall|i: int| 0 <= i < k1.tasks.len() implies #[trigger] links_coherent(
        k1.tasks,
        i,
    ) by {
        assert(links_coherent(k.tasks, i));
        assert(task_coherent(k.tasks[i]));
    }
}

/// **The kernel stays coherent.** Every system call of every task keeps the
/// invariant.
pub proof fn law_coherence_kept(k: KernelView, c: Syscall)
    requires
        coherent(k),
    ensures
        coherent(after(k, c)),
{
    let k1 = after(k, c);
    lemma_tables_coherent(k, c);
    assert(task_coherent(k.caller()));
    assert(links_coherent(k.tasks, k.current));
    match c {
        Syscall::Send(ep, msg) => {
            protocol::lemma_partner(k.tasks, k.current, ep, true);
            lemma_meetings(k, k1, ep, true);
        },
        Syscall::Recv(ep, out) => {
            protocol::lemma_partner(k.tasks, k.current, ep, false);
            lemma_meetings(k, k1, ep, false);
        },
        Syscall::Call(ep, msg, out) => {
            protocol::lemma_partner(k.tasks, k.current, ep, true);
            lemma_meetings(k, k1, ep, true);
        },
        // The others register nothing that could meet.
        _ => lemma_meetings(k, k1, 0, true),
    }
}

/// **A restart keeps the kernel coherent.**
pub proof fn law_coherence_kept_by_restart(k: KernelView, faulted: usize)
    requires
        coherent(k),
        faulted < N_TASKS,
    ensures
        coherent(protocol::reset_for_restart(k, faulted)),
{
    let k1 = protocol::reset_for_restart(k, faulted);
    assert forall|i: int| 0 <= i < k1.tasks.len() implies task_coherent(#[trigger] k1.tasks[i]) by {
        assert(task_coherent(k.tasks[i]));
    }
    assert forall|i: int| 0 <= i < k1.tasks.len() implies #[trigger] links_coherent(
        k1.tasks,
        i,
    ) by {
        assert(links_coherent(k.tasks, i));
        assert(task_coherent(k.tasks[i]));
        if let Some(s) = k.tasks[i].reply_to {
            assert(links_coherent(k.tasks, s as int));
        }
    }
    lemma_meetings(k, k1, 0, true);
}

/// **A change of the running task keeps the kernel coherent.**
pub proof fn law_coherence_kept_by_switch(k: KernelView, idx: usize)
    requires
        coherent(k),
        idx < N_TASKS,
    ensures
        coherent(k.running(idx as int)),
{
}

// ---------------------------------------------------------------------------
// Rendezvous
// ---------------------------------------------------------------------------

/// A task that may start a blocking operation: nothing is outstanding.
pub open spec fn idle(t: TaskView) -> bool {
    t.op is None
}

/// **A `send` completes if and only if a receiver takes the message.** A fresh
/// `send` is `Delivered` exactly if a task is blocked in `recv` on the
/// endpoint. Then that task is woken and its `recv`, invoked again, yields the
/// message; otherwise the sender blocks with the message staged, and no other
/// task changes.
pub proof fn law_send_completes_iff_taken(k: KernelView, ep: u8, msg: Seq<u8>, out: Seq<u8>)
    requires
        coherent(k),
        idle(k.caller()),
        ep < N_ENDPOINTS,
        msg.len() <= MSG_MAX,
    ensures
        ({
            let (k1, res) = protocol::send(k, ep, msg);
            &&& res == SendResult::Delivered <==> (exists|r: int|
                0 <= r < N_TASKS && #[trigger] protocol::receiving(k.tasks[r], ep))
            &&& res == SendResult::Delivered ==> (exists|r: int|
                {
                    &&& 0 <= r < N_TASKS
                    &&& #[trigger] protocol::receiving(k.tasks[r], ep)
                    &&& k1.tasks[r].state == TaskState::Ready
                    &&& protocol::recv(k1.running(r), ep, out).1 == RecvResult::Received(
                        protocol::fitting(msg, out.len()) as usize,
                    )
                    &&& protocol::recv(k1.running(r), ep, out).2 == protocol::filled(out, msg)
                })
            &&& res != SendResult::Delivered ==> {
                &&& res == SendResult::Blocked
                &&& protocol::sending(k1.caller(), ep)
                &&& k1.caller().msg == msg
                &&& forall|i: int|
                    0 <= i < N_TASKS && i != k.current ==> k1.tasks[i] == #[trigger] k.tasks[i]
            }
        }),
{
    protocol::lemma_partner(k.tasks, k.current, ep, true);
    match protocol::partner(k.tasks, k.current, ep, true) {
        Some(r) => {
            assert(protocol::receiving(k.tasks[r], ep));
        },
        None => {
            assert forall|r: int| 0 <= r < N_TASKS implies !#[trigger] protocol::receiving(
                k.tasks[r],
                ep,
            ) by {
                assert(!protocol::candidate(k.tasks, k.current, ep, true, r));
            }
        },
    }
}

/// **A `recv` takes the message of a blocked sender.** A fresh `recv` completes
/// exactly if some task is blocked on the endpoint in `send` or in the send
/// phase of a `call`. It then yields that task's message. A `send` is complete
/// then: invoked again it reports `Delivered`. A `call` waits on for the reply
/// of the receiver. Either way the message is not offered any more, so nobody
/// takes it twice.
pub proof fn law_recv_takes_blocked_sender(
    k: KernelView,
    ep: u8,
    out: Seq<u8>,
    ep2: u8,
    msg2: Seq<u8>,
)
    requires
        coherent(k),
        idle(k.caller()),
        ep < N_ENDPOINTS,
        ep2 < N_ENDPOINTS,
        msg2.len() <= MSG_MAX,
    ensures
        ({
            let (k1, res, buf) = protocol::recv(k, ep, out);
            &&& res is Received <==> (exists|s: int|
                0 <= s < N_TASKS && #[trigger] protocol::sending(k.tasks[s], ep))
            &&& res is Received ==> (exists|s: int|
                {
                    &&& 0 <= s < N_TASKS
                    &&& #[trigger] protocol::sending(k.tasks[s], ep)
                    &&& res == RecvResult::Received(
                        protocol::fitting(k.tasks[s].msg, out.len()) as usize,
                    )
                    &&& buf == protocol::filled(out, k.tasks[s].msg)
                    &&& !protocol::sending(k1.tasks[s], ep)
                    &&& protocol::outstanding(k.tasks[s], OpKind::Send) ==> {
                        &&& k1.tasks[s].state == TaskState::Ready
                        &&& protocol::send(k1.running(s), ep2, msg2).1 == SendResult::Delivered
                    }
                    &&& protocol::outstanding(k.tasks[s], OpKind::Call) ==> {
                        &&& protocol::awaiting_reply(k1.tasks[s])
                        &&& k1.tasks[s].reply_from == Some(k.current as usize)
                        &&& k1.caller().reply_to == Some(s as usize)
                    }
                })
            &&& !(res is Received) ==> {
                &&& res == RecvResult::Blocked
                &&& protocol::receiving(k1.caller(), ep)
                &&& forall|i: int|
                    0 <= i < N_TASKS && i != k.current ==> k1.tasks[i] == #[trigger] k.tasks[i]
            }
        }),
{
    protocol::lemma_partner(k.tasks, k.current, ep, false);
    match protocol::partner(k.tasks, k.current, ep, false) {
        Some(s) => {
            assert(protocol::sending(k.tasks[s], ep));
            assert(task_coherent(k.tasks[s]));
        },
        None => {
            assert forall|s: int| 0 <= s < N_TASKS implies !#[trigger] protocol::sending(
                k.tasks[s],
                ep,
            ) by {
                assert(!protocol::candidate(k.tasks, k.current, ep, false, s));
            }
        },
    }
}

/// **A `call` hands its message to a waiting receiver.** A fresh `call` always
/// blocks. If a task is blocked in `recv` on the endpoint, that task is woken,
/// its `recv` yields the message, and it owes the caller the reply; otherwise
/// the call waits in its send phase.
pub proof fn law_call_hands_over(k: KernelView, ep: u8, msg: Seq<u8>, rep: Seq<u8>, out: Seq<u8>)
    requires
        coherent(k),
        idle(k.caller()),
        ep < N_ENDPOINTS,
        msg.len() <= MSG_MAX,
    ensures
        ({
            let (k1, res, buf) = protocol::call(k, ep, msg, rep);
            &&& res == CallResult::Blocked
            &&& buf == rep
            &&& k1.caller().state == TaskState::Blocked
            &&& (exists|r: int| 0 <= r < N_TASKS && #[trigger] protocol::receiving(k.tasks[r], ep))
                ==> (exists|r: int|
                {
                    &&& 0 <= r < N_TASKS
                    &&& #[trigger] protocol::receiving(k.tasks[r], ep)
                    &&& k1.tasks[r].state == TaskState::Ready
                    &&& k1.tasks[r].reply_to == Some(k.current as usize)
                    &&& protocol::awaiting_reply(k1.caller())
                    &&& k1.caller().reply_from == Some(r as usize)
                    &&& protocol::recv(k1.running(r), ep, out).1 == RecvResult::Received(
                        protocol::fitting(msg, out.len()) as usize,
                    )
                    &&& protocol::recv(k1.running(r), ep, out).2 == protocol::filled(out, msg)
                })
            &&& !(exists|r: int|
                0 <= r < N_TASKS && #[trigger] protocol::receiving(k.tasks[r], ep)) ==> {
                &&& protocol::sending(k1.caller(), ep)
                &&& k1.caller().msg == msg
            }
        }),
{
    protocol::lemma_partner(k.tasks, k.current, ep, true);
    match protocol::partner(k.tasks, k.current, ep, true) {
        Some(r) => {
            assert(protocol::receiving(k.tasks[r], ep));
            assert(task_coherent(k.tasks[r]));
        },
        None => {
            assert forall|r: int| 0 <= r < N_TASKS implies !#[trigger] protocol::receiving(
                k.tasks[r],
                ep,
            ) by {
                assert(!protocol::candidate(k.tasks, k.current, ep, true, r));
            }
        },
    }
}

/// **A `reply` reaches the task whose `call` was received.** In a coherent
/// kernel a task that took a call and has not answered it always succeeds, and
/// the caller's `call`, invoked again, yields the reply. The other two outcomes
/// come exactly if the message is too long or no call is to be answered.
pub proof fn law_reply_reaches_caller(
    k: KernelView,
    rep: Seq<u8>,
    ep2: u8,
    msg2: Seq<u8>,
    out: Seq<u8>,
)
    requires
        coherent(k),
        ep2 < N_ENDPOINTS,
        msg2.len() <= MSG_MAX,
    ensures
        ({
            let (k1, res) = protocol::reply(k, rep);
            &&& rep.len() > MSG_MAX <==> res == ReplyResult::Failed(IpcError::Oversize)
            &&& rep.len() <= MSG_MAX && k.caller().reply_to is None <==> res
                == ReplyResult::Failed(IpcError::NoPartner)
            &&& rep.len() <= MSG_MAX && k.caller().reply_to is Some <==> res
                == ReplyResult::Replied
            &&& res == ReplyResult::Replied ==> {
                let c = k.caller().reply_to->Some_0 as int;
                &&& k1.tasks[c].state == TaskState::Ready
                &&& k1.caller().reply_to is None
                &&& protocol::call(k1.running(c), ep2, msg2, out).1 == CallResult::Replied(
                    protocol::fitting(rep, out.len()) as usize,
                )
                &&& protocol::call(k1.running(c), ep2, msg2, out).2 == protocol::filled(out, rep)
                &&& forall|i: int|
                    0 <= i < N_TASKS && i != k.current && i != c ==> k1.tasks[i]
                        == #[trigger] k.tasks[i]
            }
        }),
{
    assert(links_coherent(k.tasks, k.current));
    if let Some(c) = k.caller().reply_to {
        assert(task_coherent(k.tasks[c as int]));
    }
}

// ---------------------------------------------------------------------------
// Messages in flight
// ---------------------------------------------------------------------------

/// Task `s`'s state apart from its notification word is as before.
pub open spec fn undisturbed(before: TaskView, after: TaskView) -> bool {
    after == (TaskView { pending: after.pending, ..before })
}

/// **No message is dropped.** A message that a blocked sender offers stays
/// offered through every system call of other tasks, unless that call takes it:
/// a `recv` on the same endpoint, whose buffer then holds the message.
pub proof fn law_offer_stays_until_taken(k: KernelView, c: Syscall, s: int, ep: u8)
    requires
        coherent(k),
        0 <= s < N_TASKS,
        s != k.current,
        protocol::sending(k.tasks[s], ep),
    ensures
        undisturbed(k.tasks[s], after(k, c).tasks[s]) || (c matches Syscall::Recv(e, out) && {
            &&& e == ep
            &&& protocol::recv(k, e, out).1 == RecvResult::Received(
                protocol::fitting(k.tasks[s].msg, out.len()) as usize,
            )
            &&& protocol::recv(k, e, out).2 == protocol::filled(out, k.tasks[s].msg)
        }),
{
    assert(links_coherent(k.tasks, k.current));
    match c {
        Syscall::Send(e, msg) => protocol::lemma_partner(k.tasks, k.current, e, true),
        Syscall::Recv(e, out) => protocol::lemma_partner(k.tasks, k.current, e, false),
        Syscall::Call(e, msg, out) => protocol::lemma_partner(k.tasks, k.current, e, true),
        _ => {},
    }
}

/// **A delivered message is not overwritten.** What a task's finished operation
/// holds for it (a received message, a reply, a failure) stays as it is through
/// every system call of other tasks, until the task takes it.
pub proof fn law_result_stays_until_reaped(k: KernelView, c: Syscall, i: int)
    requires
        coherent(k),
        0 <= i < N_TASKS,
        i != k.current,
        k.tasks[i].op matches Some(op) && op.done,
    ensures
        undisturbed(k.tasks[i], after(k, c).tasks[i]),
{
    assert(links_coherent(k.tasks, k.current));
    match c {
        Syscall::Send(e, msg) => protocol::lemma_partner(k.tasks, k.current, e, true),
        Syscall::Recv(e, out) => protocol::lemma_partner(k.tasks, k.current, e, false),
        Syscall::Call(e, msg, out) => protocol::lemma_partner(k.tasks, k.current, e, true),
        _ => {},
    }
}

/// No task but `a` and `b` differs between the two states.
pub open spec fn only_these_change(k: KernelView, k1: KernelView, a: int, b: int) -> bool {
    forall|i: int|
        0 <= i < N_TASKS && i != a && i != b ==> #[trigger] k1.tasks[i] == k.tasks[i]
}

/// **Rendezvous is pairwise.** A system call changes the caller and at most one
/// other task. It never changes who runs, a register context or a restart
/// count.
pub proof fn law_calls_are_pairwise(k: KernelView, c: Syscall)
    requires
        k.tasks.len() == N_TASKS,
        0 <= k.current < N_TASKS,
        k.caller().reply_to matches Some(r) ==> r < N_TASKS,
    ensures
        after(k, c) == (KernelView { tasks: after(k, c).tasks, ..k }),
        after(k, c).tasks.len() == N_TASKS,
        exists|p: int| #[trigger] only_these_change(k, after(k, c), k.current, p),
{
    let p = match c {
        Syscall::Send(e, msg) => protocol::partner(k.tasks, k.current, e, true)->Some_0,
        Syscall::Recv(e, out) => protocol::partner(k.tasks, k.current, e, false)->Some_0,
        Syscall::Call(e, msg, out) => protocol::partner(k.tasks, k.current, e, true)->Some_0,
        Syscall::Reply(msg) => k.caller().reply_to->Some_0 as int,
        Syscall::Notify(task, bits) => task as int,
        Syscall::Wait => k.current,
    };
    match c {
        Syscall::Send(e, msg) => protocol::lemma_partner(k.tasks, k.current, e, true),
        Syscall::Recv(e, out) => protocol::lemma_partner(k.tasks, k.current, e, false),
        Syscall::Call(e, msg, out) => protocol::lemma_partner(k.tasks, k.current, e, true),
        _ => {},
    }
    assert(only_these_change(k, after(k, c), k.current, p));
}

// ---------------------------------------------------------------------------
// Blocking
// ---------------------------------------------------------------------------

/// The task is blocked in an operation of this kind.
pub open spec fn blocked_in(t: TaskView, kind: OpKind) -> bool {
    &&& t.state == TaskState::Blocked
    &&& protocol::outstanding(t, kind)
    &&& protocol::unfinished(t)
}

/// **`Blocked` means blocked.** A call that reports `Blocked` leaves its task
/// `Blocked` in that operation, so the scheduler skips it.
pub proof fn law_blocked_result_blocks(k: KernelView, ep: u8, msg: Seq<u8>, out: Seq<u8>)
    requires
        coherent(k),
    ensures
        protocol::send(k, ep, msg).1 == SendResult::Blocked ==> blocked_in(
            protocol::send(k, ep, msg).0.caller(),
            OpKind::Send,
        ),
        protocol::recv(k, ep, out).1 == RecvResult::Blocked ==> blocked_in(
            protocol::recv(k, ep, out).0.caller(),
            OpKind::Recv,
        ),
        protocol::call(k, ep, msg, out).1 == CallResult::Blocked ==> blocked_in(
            protocol::call(k, ep, msg, out).0.caller(),
            OpKind::Call,
        ),
        protocol::wait(k).1 == WaitResult::Blocked ==> blocked_in(
            protocol::wait(k).0.caller(),
            OpKind::Wait,
        ),
{
    assert(task_coherent(k.caller()));
    protocol::lemma_partner(k.tasks, k.current, ep, true);
    protocol::lemma_partner(k.tasks, k.current, ep, false);
}

/// **A blocked task cannot free itself.** A task that keeps running although it
/// is blocked in `send`, `recv` or `call` changes neither that operation nor its
/// state by any system call: it stays blocked until another task or a fault
/// completes the operation.
pub proof fn law_blocked_cannot_free_itself(k: KernelView, c: Syscall)
    requires
        coherent(k),
        k.caller().state == TaskState::Blocked,
        !protocol::outstanding(k.caller(), OpKind::Wait),
    ensures
        after(k, c).caller().state == TaskState::Blocked,
        after(k, c).caller().op == k.caller().op,
        after(k, c).caller().msg == k.caller().msg,
        after(k, c).current == k.current,
{
    assert(task_coherent(k.caller()));
    assert(links_coherent(k.tasks, k.current));
}

/// **A blocked task is woken only by completion.** When a system call of
/// another task makes it `Ready`, its operation is finished.
pub proof fn law_woken_only_when_finished(k: KernelView, c: Syscall, i: int)
    requires
        coherent(k),
        0 <= i < N_TASKS,
        i != k.current,
        k.tasks[i].state == TaskState::Blocked,
        after(k, c).tasks[i].state == TaskState::Ready,
    ensures
        after(k, c).tasks[i].op matches Some(op) && op.done,
{
    assert(task_coherent(k.tasks[i]));
    assert(links_coherent(k.tasks, k.current));
    match c {
        Syscall::Send(e, msg) => protocol::lemma_partner(k.tasks, k.current, e, true),
        Syscall::Recv(e, out) => protocol::lemma_partner(k.tasks, k.current, e, false),
        Syscall::Call(e, msg, out) => protocol::lemma_partner(k.tasks, k.current, e, true),
        _ => {},
    }
}

/// **Asking again changes nothing while an operation is unfinished.** The same
/// call with valid arguments reports `Blocked` and leaves kernel and buffer
/// alone.
pub proof fn law_still_blocked(k: KernelView, ep: u8, msg: Seq<u8>, out: Seq<u8>)
    requires
        protocol::unfinished(k.caller()),
        ep < N_ENDPOINTS,
        msg.len() <= MSG_MAX,
    ensures
        protocol::outstanding(k.caller(), OpKind::Send) ==> protocol::send(k, ep, msg) == (
            k,
            SendResult::Blocked,
        ),
        protocol::outstanding(k.caller(), OpKind::Recv) ==> protocol::recv(k, ep, out) == (
            k,
            RecvResult::Blocked,
            out,
        ),
        protocol::outstanding(k.caller(), OpKind::Call) ==> protocol::call(k, ep, msg, out) == (
            k,
            CallResult::Blocked,
            out,
        ),
        protocol::outstanding(k.caller(), OpKind::Wait) && k.caller().pending == 0
            ==> protocol::wait(k) == (k, WaitResult::Blocked),
{
}

/// **The arguments of a reaping call are ignored.** While an operation is
/// outstanding, the same call gives the same result and the same kernel,
/// whatever valid endpoint and message it is invoked with. A finished operation
/// is taken then: the task is free for the next one.
pub proof fn law_reaping_ignores_arguments(
    k: KernelView,
    ep: u8,
    msg: Seq<u8>,
    ep2: u8,
    msg2: Seq<u8>,
    out: Seq<u8>,
)
    requires
        coherent(k),
        k.caller().op is Some,
        ep < N_ENDPOINTS,
        ep2 < N_ENDPOINTS,
        msg.len() <= MSG_MAX,
        msg2.len() <= MSG_MAX,
    ensures
        protocol::outstanding(k.caller(), OpKind::Send) ==> {
            &&& protocol::send(k, ep, msg) == protocol::send(k, ep2, msg2)
            &&& !protocol::unfinished(k.caller()) ==> protocol::send(k, ep, msg) == (
                k.with(k.current, protocol::reaped(k.caller())),
                SendResult::Delivered,
            )
        },
        protocol::outstanding(k.caller(), OpKind::Recv) ==> {
            &&& protocol::recv(k, ep, out) == protocol::recv(k, ep2, out)
            &&& !protocol::unfinished(k.caller()) ==> protocol::recv(k, ep, out) == (
                k.with(k.current, protocol::reaped(k.caller())),
                RecvResult::Received(protocol::fitting(k.caller().msg, out.len()) as usize),
                protocol::filled(out, k.caller().msg),
            )
        },
        protocol::outstanding(k.caller(), OpKind::Call) ==> {
            &&& protocol::call(k, ep, msg, out) == protocol::call(k, ep2, msg2, out)
            &&& !protocol::unfinished(k.caller()) ==> {
                &&& !(protocol::call(k, ep, msg, out).1 is Blocked)
                &&& idle(protocol::call(k, ep, msg, out).0.caller())
            }
        },
{
    assert(task_coherent(k.caller()));
}

/// **One outstanding operation per task.** While one is outstanding, finished or
/// not, every other blocking call with valid arguments fails with `Busy`; `wait`
/// does so unless bits are pending.
pub proof fn law_other_call_is_busy(k: KernelView, ep: u8, msg: Seq<u8>, out: Seq<u8>)
    requires
        k.caller().op is Some,
        ep < N_ENDPOINTS,
        msg.len() <= MSG_MAX,
    ensures
        !protocol::outstanding(k.caller(), OpKind::Send) ==> protocol::send(k, ep, msg) == (
            k,
            SendResult::Failed(IpcError::Busy),
        ),
        !protocol::outstanding(k.caller(), OpKind::Recv) ==> protocol::recv(k, ep, out) == (
            k,
            RecvResult::Failed(IpcError::Busy),
            out,
        ),
        !protocol::outstanding(k.caller(), OpKind::Call) ==> protocol::call(k, ep, msg, out) == (
            k,
            CallResult::Failed(IpcError::Busy),
            out,
        ),
        !protocol::outstanding(k.caller(), OpKind::Wait) && k.caller().pending == 0
            ==> protocol::wait(k) == (k, WaitResult::Failed(IpcError::Busy)),
{
}

/// The errors that report a bug of the caller.
pub open spec fn callers_fault(e: IpcError) -> bool {
    e != IpcError::PartnerFaulted
}

/// **Errors are immediate.** A call that fails for a fault of the caller leaves
/// the kernel and the buffer as they were. A failure of the partner is a result
/// like any other: it is taken once, and the task may then retry.
pub proof fn law_errors_change_nothing(
    k: KernelView,
    ep: u8,
    msg: Seq<u8>,
    out: Seq<u8>,
    task: usize,
    bits: u32,
)
    requires
        coherent(k),
    ensures
        protocol::send(k, ep, msg).1 is Failed ==> protocol::send(k, ep, msg).0 == k,
        protocol::recv(k, ep, out).1 is Failed ==> protocol::recv(k, ep, out).0 == k,
        protocol::recv(k, ep, out).1 is Failed ==> protocol::recv(k, ep, out).2 == out,
        protocol::call(k, ep, msg, out).1 matches CallResult::Failed(e) ==> {
            &&& protocol::call(k, ep, msg, out).2 == out
            &&& callers_fault(e) ==> protocol::call(k, ep, msg, out).0 == k
            &&& !callers_fault(e) ==> idle(protocol::call(k, ep, msg, out).0.caller())
        },
        protocol::reply(k, msg).1 is Failed ==> protocol::reply(k, msg).0 == k,
        protocol::notify(k, task, bits).1 is Failed ==> protocol::notify(k, task, bits).0 == k,
        protocol::wait(k).1 is Failed ==> protocol::wait(k).0 == k,
{
    assert(task_coherent(k.caller()));
    assert(links_coherent(k.tasks, k.current));
    protocol::lemma_partner(k.tasks, k.current, ep, true);
    protocol::lemma_partner(k.tasks, k.current, ep, false);
}

// ---------------------------------------------------------------------------
// Notifications
// ---------------------------------------------------------------------------

/// **Notifications are never lost.** A task's pending word only changes when
/// bits are ORed into it by `notify`, or when the task itself takes all of it
/// with `wait`, which then returns it.
pub proof fn law_bits_stay_until_taken(k: KernelView, c: Syscall, i: int)
    requires
        coherent(k),
        0 <= i < N_TASKS,
    ensures
        ({
            let before = k.tasks[i].pending;
            let now = after(k, c).tasks[i].pending;
            match c {
                Syscall::Notify(task, bits) => now == if task == i {
                    before | bits
                } else {
                    before
                },
                Syscall::Wait => if i == k.current && before != 0 {
                    now == 0 && protocol::wait(k).1 == WaitResult::Signaled(before)
                } else {
                    now == before
                },
                _ => now == before,
            }
        }),
{
    assert(links_coherent(k.tasks, k.current));
    match c {
        Syscall::Send(e, msg) => protocol::lemma_partner(k.tasks, k.current, e, true),
        Syscall::Recv(e, out) => protocol::lemma_partner(k.tasks, k.current, e, false),
        Syscall::Call(e, msg, out) => protocol::lemma_partner(k.tasks, k.current, e, true),
        _ => {},
    }
}

/// **A notified task gets the bits.** After `notify` with some bit set, the
/// target's `wait` returns at once with everything pending, those bits
/// included; if the target was blocked in `wait`, it is `Ready`.
pub proof fn law_wait_returns_notified_bits(k: KernelView, task: usize, bits: u32)
    requires
        coherent(k),
        task < N_TASKS,
        bits != 0,
    ensures
        ({
            let k1 = protocol::notify(k, task, bits).0;
            let all = k.tasks[task as int].pending | bits;
            &&& protocol::notify(k, task, bits).1 == NotifyResult::Notified
            &&& protocol::wait(k1.running(task as int)).1 == WaitResult::Signaled(all)
            &&& all & bits == bits
            &&& protocol::outstanding(k.tasks[task as int], OpKind::Wait)
                ==> k1.tasks[task as int].state == TaskState::Ready
        }),
{
    let before = k.tasks[task as int].pending;
    assert((before | bits) & bits == bits) by (bit_vector);
    assert(bits != 0 ==> before | bits != 0) by (bit_vector);
    assert(task_coherent(k.tasks[task as int]));
}

// ---------------------------------------------------------------------------
// Faults
// ---------------------------------------------------------------------------

/// **A restarted task starts fresh:** no outstanding operation, an empty
/// notification word, no reply partner, and `Ready`.
pub proof fn law_restart_is_fresh(k: KernelView, faulted: usize)
    requires
        coherent(k),
        faulted < N_TASKS,
    ensures
        ({
            let t = protocol::reset_for_restart(k, faulted).tasks[faulted as int];
            &&& t.op is None
            &&& t.pending == 0
            &&& t.reply_to is None
            &&& t.reply_from is None
            &&& t.state == TaskState::Ready
            &&& t.entry == k.tasks[faulted as int].entry
            &&& t.stack_top == k.tasks[faulted as int].stack_top
        }),
{
}

/// **Partners of a dead task learn of it.** A task that waits for its reply is
/// woken, and its `call`, invoked again, fails with `PartnerFaulted` and leaves
/// it free to retry.
pub proof fn law_restart_fails_waiting_calls(
    k: KernelView,
    faulted: usize,
    i: int,
    ep: u8,
    msg: Seq<u8>,
    out: Seq<u8>,
)
    requires
        coherent(k),
        faulted < N_TASKS,
        0 <= i < N_TASKS,
        protocol::awaiting_reply(k.tasks[i]),
        k.tasks[i].reply_from == Some(faulted),
        ep < N_ENDPOINTS,
        msg.len() <= MSG_MAX,
    ensures
        ({
            let k1 = protocol::reset_for_restart(k, faulted);
            let (k2, res, buf) = protocol::call(k1.running(i), ep, msg, out);
            &&& k1.tasks[i].state == TaskState::Ready
            &&& res == CallResult::Failed(IpcError::PartnerFaulted)
            &&& buf == out
            &&& idle(k2.tasks[i])
            &&& k2.tasks[i].state == TaskState::Ready
        }),
{
    assert(links_coherent(k.tasks, i));
}

/// **A reply to a dead task finds no partner.** A task that owed it one gets
/// `NoPartner`.
pub proof fn law_restart_cancels_owed_replies(k: KernelView, faulted: usize, i: int, msg: Seq<u8>)
    requires
        coherent(k),
        faulted < N_TASKS,
        0 <= i < N_TASKS,
        k.tasks[i].reply_to == Some(faulted),
        msg.len() <= MSG_MAX,
    ensures
        protocol::reply(protocol::reset_for_restart(k, faulted).running(i), msg).1
            == ReplyResult::Failed(IpcError::NoPartner),
{
    assert(links_coherent(k.tasks, i));
}

/// **All other tasks are unaffected by a restart.** A task that neither waits
/// for the dead task's reply nor owes it one is left exactly as it was: offers,
/// receives and waits stay registered, whoever they would meet.
pub proof fn law_restart_spares_others(k: KernelView, faulted: usize, i: int)
    requires
        coherent(k),
        faulted < N_TASKS,
        0 <= i < N_TASKS,
        i != faulted,
        !(protocol::awaiting_reply(k.tasks[i]) && k.tasks[i].reply_from == Some(faulted)),
        k.tasks[i].reply_to != Some(faulted),
    ensures
        protocol::reset_for_restart(k, faulted).tasks[i] == k.tasks[i],
{
}

} // verus!
