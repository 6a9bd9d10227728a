//! The ping-pong conversation of tasks A and B, and task C's blinking.
//!
//! Each function runs one slice: at most a few system calls, then the task
//! yields. What a task remembers between slices is its state struct; `enter`
//! is what its entry point does at boot and again after every fault restart.

use vstd::prelude::*;

use crate::ipc;
use crate::ipc::{
    CallResult, IpcError, NotifyResult, RecvResult, ReplyResult, WaitResult, EP_LED, EP_PING,
    EP_UART, MSG_MAX, TASK_A,
};
use crate::protocol;
use crate::protocol::KernelView;
use crate::slice;
use crate::slice::{Bug, SliceEnd};
use crate::task::Kernel;
use crate::text;

verus! {

// ---------------------------------------------------------------------------
// Task A
// ---------------------------------------------------------------------------

#[derive(Debug, Clone, Copy, PartialEq, Eq, Structural)]
pub enum PhaseA {
    Call,
    /// The exchange completed; emit its line through the UART capsule, then wait
    /// for B's notification.
    Print,
    Wait,
}

/// What task A remembers.
#[derive(Debug, Clone, Copy, PartialEq, Eq, Structural)]
pub struct TaskA {
    pub phase: PhaseA,
    /// The number of the exchange that is under way.
    pub count: u32,
}

/// The request of exchange `n`.
pub open spec fn ping(n: u32) -> Seq<u8> {
    text::ascii("ping "@) + text::decimal(n as nat)
}

/// The answer of exchange `n`.
pub open spec fn pong(n: u32) -> Seq<u8> {
    text::ascii("pong "@) + text::decimal(n as nat)
}

/// The line that reports exchange `n`.
pub open spec fn exchange_line(n: u32) -> Seq<u8> {
    text::ascii("[ipc "@) + text::decimal4(n as nat) + text::ascii("] ping -> pong\n"@)
}

/// One slice of task A.
pub open spec fn slice_a(k: KernelView, a: TaskA) -> (KernelView, TaskA, SliceEnd) {
    let n = a.count;
    match a.phase {
        PhaseA::Call => {
            let (k1, res, buf) = protocol::call(k, EP_PING, ping(n), slice::zeros());
            match res {
                CallResult::Replied(len) => if buf.take(len as int) == pong(n) {
                    (k1, TaskA { phase: PhaseA::Print, ..a }, SliceEnd::Yield)
                } else {
                    (k1, a, SliceEnd::Panic(Bug::BadReply(n)))
                },
                CallResult::Blocked => (k1, a, SliceEnd::Yield),
                CallResult::Failed(e) => if e == IpcError::PartnerFaulted {
                    (k1, a, SliceEnd::Yield)
                } else {
                    (k1, a, SliceEnd::Panic(Bug::Call(e)))
                },
            }
        },
        PhaseA::Print => {
            let (k1, res, buf) = protocol::call(k, EP_UART, exchange_line(n), slice::zeros());
            match res {
                CallResult::Replied(len) => (
                    k1,
                    TaskA { phase: PhaseA::Wait, count: protocol::counted(n) },
                    SliceEnd::Yield,
                ),
                CallResult::Blocked => (k1, a, SliceEnd::Yield),
                CallResult::Failed(e) => if e == IpcError::PartnerFaulted {
                    (k1, a, SliceEnd::Yield)
                } else {
                    (k1, a, SliceEnd::Panic(Bug::UartCall(e)))
                },
            }
        },
        PhaseA::Wait => {
            let (k1, res) = protocol::wait(k);
            match res {
                WaitResult::Signaled(bits) => (
                    k1,
                    TaskA { phase: PhaseA::Call, ..a },
                    SliceEnd::Yield,
                ),
                WaitResult::Blocked => (k1, a, SliceEnd::Yield),
                WaitResult::Failed(e) => (k1, a, SliceEnd::Panic(Bug::Wait(e))),
            }
        },
    }
}

impl TaskA {
    pub fn new() -> (a: Self)
        ensures
            a == (TaskA { phase: PhaseA::Call, count: 0 }),
    {
        TaskA { phase: PhaseA::Call, count: 0 }
    }

    /// Fresh start. The count is deliberately not reset: a restarted A retries
    /// the same exchange instead of rewinding.
    pub fn enter(&mut self)
        ensures
            *final(self) == (TaskA { phase: PhaseA::Call, ..*old(self) }),
    {
        self.phase = PhaseA::Call;
    }
}

/// Task A: the initiator. Calls B with `ping {n}`, prints one line per completed
/// exchange through the UART capsule, then waits for B's "reply sent"
/// notification.
pub fn task_a(k: &mut Kernel, a: &mut TaskA) -> (end: SliceEnd)
    requires
        old(k).wf(),
    ensures
        final(k).wf(),
        (final(k)@, *final(a), end) == slice_a(old(k)@, *old(a)),
{
    let n: u32 = a.count;
    proof {
        text::lemma_decimal_len(n as nat);
        reveal_strlit("ping ");
        reveal_strlit("pong ");
        reveal_strlit("[ipc ");
        reveal_strlit("] ping -> pong\n");
    }
    match a.phase {
        PhaseA::Call => {
            let mut msg = [0u8; MSG_MAX];
            let mlen: usize = text::tag(&mut msg, text::bytes("ping "), n);
            let mut rbuf = [0u8; MSG_MAX];
            assert(rbuf@ =~= slice::zeros());
            let msg_slice: &[u8] = &msg;
            assert(msg_slice@.subrange(0, mlen as int) =~= ping(n));
            let res = ipc::call(k, EP_PING, &msg_slice[0..mlen], &mut rbuf);
            match res {
                CallResult::Replied(rlen) => {
                    let mut expect = [0u8; MSG_MAX];
                    let elen: usize = text::tag(&mut expect, text::bytes("pong "), n);
                    let got: &[u8] = &rbuf;
                    let want: &[u8] = &expect;
                    assert(want@.subrange(0, elen as int) =~= pong(n));
                    if rlen != elen || !text::same(&got[0..rlen], &want[0..elen]) {
                        return SliceEnd::Panic(Bug::BadReply(n));
                    }
                    a.phase = PhaseA::Print;
                    SliceEnd::Yield
                },
                CallResult::Blocked => SliceEnd::Yield,
                // The partner died mid-call. Retry the same n: the sequence
                // number rides in the message, so the retry is answered again
                // with no gap.
                CallResult::Failed(e) => {
                    if e == IpcError::PartnerFaulted {
                        SliceEnd::Yield
                    } else {
                        SliceEnd::Panic(Bug::Call(e))
                    }
                },
            }
        },
        PhaseA::Print => {
            let mut line = [0u8; MSG_MAX];
            let llen: usize = put_exchange_line(&mut line, n);
            let mut rbuf = [0u8; MSG_MAX];
            assert(rbuf@ =~= slice::zeros());
            let line_slice: &[u8] = &line;
            let res = ipc::call(k, EP_UART, &line_slice[0..llen], &mut rbuf);
            match res {
                CallResult::Replied(_) => {
                    a.count = n.wrapping_add(1);
                    a.phase = PhaseA::Wait;
                    SliceEnd::Yield
                },
                CallResult::Blocked => SliceEnd::Yield,
                // No reply was sent, so the line was not printed: retry.
                CallResult::Failed(e) => {
                    if e == IpcError::PartnerFaulted {
                        SliceEnd::Yield
                    } else {
                        SliceEnd::Panic(Bug::UartCall(e))
                    }
                },
            }
        },
        PhaseA::Wait => {
            match ipc::wait(k) {
                WaitResult::Signaled(_) => {
                    a.phase = PhaseA::Call;
                    SliceEnd::Yield
                },
                WaitResult::Blocked => SliceEnd::Yield,
                WaitResult::Failed(e) => SliceEnd::Panic(Bug::Wait(e)),
            }
        },
    }
}

/// Write the line of exchange `n` to the front of `line`.
fn put_exchange_line(line: &mut [u8; MSG_MAX], n: u32) -> (len: usize)
    ensures
        len <= MSG_MAX,
        final(line)@.subrange(0, len as int) == exchange_line(n),
{
    proof {
        text::lemma_decimal_len(n as nat);
        reveal_strlit("[ipc ");
        reveal_strlit("] ping -> pong\n");
    }
    let mut len: usize = text::tag4(line, text::bytes("[ipc "), n);
    let tail: &[u8] = text::bytes("] ping -> pong\n");
    let ghost front = text::ascii("[ipc "@) + text::decimal4(n as nat);
    let mut i: usize = 0;
    assert(line@.take(len as int) =~= front + tail@.take(0));
    while i < tail.len()
        invariant
            i <= tail@.len() == 15,
            tail@ == text::ascii("] ping -> pong\n"@),
            front.len() <= 15,
            len == front.len() + i,
            line@.take(len as int) == front + tail@.take(i as int),
        decreases tail@.len() - i,
    {
        let ghost before = line@.take(len as int);
        line[len] = tail[i];
        len += 1;
        i += 1;
        assert(line@.take(len as int) =~= before.push(tail@[i - 1]));
        assert(tail@.take(i as int) =~= tail@.take(i - 1).push(tail@[i - 1]));
        assert(line@.take(len as int) =~= front + tail@.take(i as int));
    }
    assert(tail@.take(i as int) =~= tail@);
    len
}

// ---------------------------------------------------------------------------
// Task B
// ---------------------------------------------------------------------------

#[derive(Debug, Clone, Copy, PartialEq, Eq, Structural)]
pub enum PhaseB {
    Recv,
    Reply,
}

/// B faults deliberately in every exchange that is this one, counting all it
/// received modulo the period: exchanges 300, 700, 1100, ...
pub const FAULT_PERIOD: u32 = 400;

pub const FAULT_OFFSET: u32 = 300;

/// The shortest ping: the word, a blank.
pub const PING_MIN: usize = 5;

/// What task B remembers.
#[derive(Debug, Clone, Copy)]
pub struct TaskB {
    pub phase: PhaseB,
    pub last_ping: [u8; MSG_MAX],
    pub last_ping_len: usize,
    /// Exchanges begun by B (one per received ping). Drives the fault schedule.
    pub exchanges: u32,
}

/// Task B's memory, without its buffer's scratch bytes.
#[verifier::ext_equal]
pub struct TaskBView {
    pub phase: PhaseB,
    pub last_ping: Seq<u8>,
    pub exchanges: u32,
}

impl View for TaskB {
    type V = TaskBView;

    open spec fn view(&self) -> TaskBView {
        TaskBView {
            phase: self.phase,
            last_ping: self.last_ping@.take(self.last_ping_len as int),
            exchanges: self.exchanges,
        }
    }
}

/// A message that B takes for a ping.
pub open spec fn is_ping(m: Seq<u8>) -> bool {
    m.len() >= PING_MIN && m.take(4) == text::ascii("ping"@)
}

/// The answer to a ping: the same with `pong` in front.
pub open spec fn answer(m: Seq<u8>) -> Seq<u8> {
    text::ascii("pong"@) + m.skip(4)
}

/// Whether B faults in its `n`th exchange.
pub open spec fn faults_at(n: u32) -> bool {
    n % FAULT_PERIOD == FAULT_OFFSET
}

/// One slice of task B.
pub open spec fn slice_b(k: KernelView, b: TaskBView) -> (KernelView, TaskBView, SliceEnd) {
    match b.phase {
        PhaseB::Recv => {
            let (k1, res, buf) = protocol::recv(k, EP_PING, slice::zeros());
            match res {
                RecvResult::Received(len) => {
                    let m = buf.take(len as int);
                    if is_ping(m) {
                        (
                            k1,
                            TaskBView { phase: PhaseB::Reply, last_ping: m, ..b },
                            SliceEnd::Yield,
                        )
                    } else {
                        (k1, b, SliceEnd::Panic(Bug::MalformedPing(len)))
                    }
                },
                RecvResult::Blocked => (k1, b, SliceEnd::Yield),
                RecvResult::Failed(e) => (k1, b, SliceEnd::Panic(Bug::Recv(e))),
            }
        },
        PhaseB::Reply => {
            let b1 = TaskBView { exchanges: protocol::counted(b.exchanges), ..b };
            if faults_at(b1.exchanges) {
                (k, b1, SliceEnd::Fault)
            } else {
                let (k1, told) = protocol::notify(k, TASK_A, 1);
                match told {
                    NotifyResult::Failed(e) => (k1, b1, SliceEnd::Panic(Bug::Notify(e))),
                    NotifyResult::Notified => {
                        let (k2, res) = protocol::reply(k1, answer(b.last_ping));
                        match res {
                            ReplyResult::Replied => (
                                k2,
                                TaskBView { phase: PhaseB::Recv, ..b1 },
                                SliceEnd::Yield,
                            ),
                            ReplyResult::Failed(e) => (
                                k2,
                                b1,
                                SliceEnd::Panic(Bug::Reply(e)),
                            ),
                        }
                    },
                }
            }
        },
    }
}

impl TaskB {
    /// The stored ping fits, and there is one to answer.
    pub open spec fn wf(self) -> bool {
        &&& self.last_ping_len <= MSG_MAX
        &&& self.phase == PhaseB::Reply ==> self.last_ping_len >= PING_MIN
    }

    pub fn new() -> (b: Self)
        ensures
            b.wf(),
            b@ == (TaskBView { phase: PhaseB::Recv, last_ping: Seq::empty(), exchanges: 0 }),
            b.last_ping@ == slice::zeros(),
    {
        let b = TaskB {
            phase: PhaseB::Recv,
            last_ping: [0; MSG_MAX],
            last_ping_len: 0,
            exchanges: 0,
        };
        assert(b@.last_ping =~= Seq::<u8>::empty());
        assert(b.last_ping@ =~= slice::zeros());
        b
    }

    /// Fresh start: back to `Recv`, so that a B that faulted while answering
    /// re-enters the rendezvous cleanly instead of answering a caller whose link
    /// was scrubbed.
    pub fn enter(&mut self)
        requires
            old(self).wf(),
        ensures
            final(self).wf(),
            final(self)@ == (TaskBView { phase: PhaseB::Recv, ..old(self)@ }),
    {
        self.phase = PhaseB::Recv;
    }
}

/// Task B: the responder. Receives the ping, notifies A, replies `pong {n}`: the
/// echo is built by swapping the `ping` prefix. In some exchanges it faults
/// instead, after receiving and before notifying and replying, while A is
/// blocked in `call` awaiting the reply.
pub fn task_b(k: &mut Kernel, b: &mut TaskB) -> (end: SliceEnd)
    requires
        old(k).wf(),
        old(b).wf(),
    ensures
        final(k).wf(),
        final(b).wf(),
        (final(k)@, final(b)@, end) == slice_b(old(k)@, old(b)@),
{
    proof {
        reveal_strlit("ping");
        reveal_strlit("pong");
    }
    match b.phase {
        PhaseB::Recv => {
            let mut rbuf = [0u8; MSG_MAX];
            assert(rbuf@ =~= slice::zeros());
            match ipc::recv(k, EP_PING, &mut rbuf) {
                RecvResult::Received(rlen) => {
                    let got: &[u8] = &rbuf;
                    if rlen < PING_MIN || !text::same(&got[0..4], text::bytes("ping")) {
                        assert(rlen >= PING_MIN ==> got@.subrange(0, 4) =~= got@.take(
                            rlen as int,
                        ).take(4));
                        return SliceEnd::Panic(Bug::MalformedPing(rlen));
                    }
                    assert(got@.subrange(0, 4) =~= got@.take(rlen as int).take(4));
                    b.last_ping = rbuf;
                    b.last_ping_len = rlen;
                    b.phase = PhaseB::Reply;
                    SliceEnd::Yield
                },
                RecvResult::Blocked => SliceEnd::Yield,
                RecvResult::Failed(e) => SliceEnd::Panic(Bug::Recv(e)),
            }
        },
        PhaseB::Reply => {
            b.exchanges = b.exchanges.wrapping_add(1);
            if b.exchanges % FAULT_PERIOD == FAULT_OFFSET {
                return SliceEnd::Fault;
            }
            let rlen: usize = b.last_ping_len;
            let mut pong: [u8; MSG_MAX] = b.last_ping;
            let word: &[u8] = text::bytes("pong");
            pong[0] = word[0];
            pong[1] = word[1];
            pong[2] = word[2];
            pong[3] = word[3];
            let pong_slice: &[u8] = &pong;
            assert(pong_slice@.subrange(0, rlen as int) =~= answer(b@.last_ping));
            match ipc::notify(k, TASK_A, 1) {
                NotifyResult::Notified => {},
                NotifyResult::Failed(e) => return SliceEnd::Panic(Bug::Notify(e)),
            }
            match ipc::reply(k, &pong_slice[0..rlen]) {
                ReplyResult::Replied => {
                    b.phase = PhaseB::Recv;
                    SliceEnd::Yield
                },
                ReplyResult::Failed(e) => SliceEnd::Panic(Bug::Reply(e)),
            }
        },
    }
}

// ---------------------------------------------------------------------------
// Task C
// ---------------------------------------------------------------------------

/// Slices between LED toggles: the blink cadence.
pub const BLINK_SLICES: u32 = 200;

#[derive(Debug, Clone, Copy, PartialEq, Eq, Structural)]
pub enum PhaseC {
    Count,
    Toggle,
}

/// What task C remembers.
#[derive(Debug, Clone, Copy, PartialEq, Eq, Structural)]
pub struct TaskC {
    pub phase: PhaseC,
    /// Slices since the last toggle.
    pub slices: u32,
}

/// One slice of task C.
pub open spec fn slice_c(k: KernelView, c: TaskC) -> (KernelView, TaskC, SliceEnd) {
    match c.phase {
        PhaseC::Count => {
            let n = protocol::counted(c.slices);
            if n >= BLINK_SLICES {
                (k, TaskC { phase: PhaseC::Toggle, slices: 0 }, SliceEnd::Yield)
            } else {
                (k, TaskC { slices: n, ..c }, SliceEnd::Yield)
            }
        },
        PhaseC::Toggle => {
            let (k1, res, buf) = protocol::call(
                k,
                EP_LED,
                text::ascii("^"@),
                slice::zeros(),
            );
            match res {
                CallResult::Replied(len) => if len < 2 || buf[0] != 0 {
                    (k1, c, SliceEnd::Panic(Bug::LedToggle))
                } else {
                    (k1, TaskC { phase: PhaseC::Count, ..c }, SliceEnd::Yield)
                },
                CallResult::Blocked => (k1, c, SliceEnd::Yield),
                CallResult::Failed(e) => if e == IpcError::PartnerFaulted {
                    (k1, c, SliceEnd::Yield)
                } else {
                    (k1, c, SliceEnd::Panic(Bug::LedCall(e)))
                },
            }
        },
    }
}

impl TaskC {
    pub fn new() -> (c: Self)
        ensures
            c == (TaskC { phase: PhaseC::Count, slices: 0 }),
    {
        TaskC { phase: PhaseC::Count, slices: 0 }
    }

    /// Fresh start.
    pub fn enter(&mut self)
        ensures
            *final(self) == (TaskC { phase: PhaseC::Count, slices: 0 }),
    {
        self.phase = PhaseC::Count;
        self.slices = 0;
    }
}

/// Task C: the blink driver. Every [`BLINK_SLICES`] slices it calls the LED
/// capsule with `^` (toggle); otherwise silent.
pub fn task_c(k: &mut Kernel, c: &mut TaskC) -> (end: SliceEnd)
    requires
        old(k).wf(),
    ensures
        final(k).wf(),
        (final(k)@, *final(c), end) == slice_c(old(k)@, *old(c)),
{
    match c.phase {
        PhaseC::Count => {
            c.slices = c.slices.wrapping_add(1);
            if c.slices >= BLINK_SLICES {
                c.slices = 0;
                c.phase = PhaseC::Toggle;
            }
            SliceEnd::Yield
        },
        PhaseC::Toggle => {
            proof {
                reveal_strlit("^");
            }
            let mut rbuf = [0u8; MSG_MAX];
            assert(rbuf@ =~= slice::zeros());
            match ipc::call(k, EP_LED, text::bytes("^"), &mut rbuf) {
                CallResult::Replied(rlen) => {
                    if rlen < 2 || rbuf[0] != 0 {
                        return SliceEnd::Panic(Bug::LedToggle);
                    }
                    c.phase = PhaseC::Count;
                    SliceEnd::Yield
                },
                CallResult::Blocked => SliceEnd::Yield,
                CallResult::Failed(e) => {
                    if e == IpcError::PartnerFaulted {
                        SliceEnd::Yield
                    } else {
                        SliceEnd::Panic(Bug::LedCall(e))
                    }
                },
            }
        },
    }
}

} // verus!
