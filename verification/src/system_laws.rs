//! Laws of the system as a whole: the six tasks never find their protocol
//! broken, whatever the hardware inputs, and the report lines come in sequence.

use vstd::prelude::*;

use crate::capsule;
use crate::capsule::{PhaseLed, LED_OFF, LED_ON, LED_PIN};
use crate::demo;
use crate::demo::{PhaseA, PhaseB, PhaseC};
use crate::gpio;
use crate::gpio::{GPIO_OK, N_PINS, OP_CONFIGURE};
use crate::ipc::{
    CallResult, IpcError, NotifyResult, OpKind, RecvResult, ReplyResult, EP_GPIO, EP_LED, EP_PING,
    EP_UART, MSG_MAX, N_ENDPOINTS, N_TASKS, TASK_A, TASK_B, TASK_C, TASK_GPIO, TASK_LED, TASK_UART,
};
use crate::laws;
use crate::laws::Syscall;
use crate::protocol;
use crate::protocol::{KernelView, TaskView};
use crate::slice;
use crate::slice::SliceEnd;
use crate::system;
use crate::system::SystemView;
use crate::task::TaskState;
use crate::text;

verus! {

// ---------------------------------------------------------------------------
// What the tasks want of each other
// ---------------------------------------------------------------------------

/// A request that a task is making: where, what, and of whom.
pub struct Ask {
    pub ep: u8,
    pub msg: Seq<u8>,
    pub server: int,
}

/// The request that task `i` makes in its present phase, if it makes one.
pub open spec fn asks(s: SystemView, i: int) -> Option<Ask> {
    if i == TASK_A {
        match s.a.phase {
            PhaseA::Call => Some(
                Ask { ep: EP_PING, msg: demo::ping(s.a.count), server: TASK_B as int },
            ),
            PhaseA::Print => Some(
                Ask { ep: EP_UART, msg: demo::exchange_line(s.a.count), server: TASK_UART as int },
            ),
            PhaseA::Wait => None,
        }
    } else if i == TASK_C {
        match s.c.phase {
            PhaseC::Count => None,
            PhaseC::Toggle => Some(
                Ask { ep: EP_LED, msg: text::ascii("^"@), server: TASK_LED as int },
            ),
        }
    } else if i == TASK_LED {
        match s.led.phase {
            PhaseLed::Init => Some(
                Ask {
                    ep: EP_GPIO,
                    msg: seq![OP_CONFIGURE, LED_PIN, 1u8],
                    server: TASK_GPIO as int,
                },
            ),
            PhaseLed::Serve => None,
            PhaseLed::Gpio => Some(
                Ask {
                    ep: EP_GPIO,
                    msg: seq![capsule::gpio_op(s.led.req), LED_PIN],
                    server: TASK_GPIO as int,
                },
            ),
            PhaseLed::Log => Some(
                Ask {
                    ep: EP_UART,
                    msg: capsule::led_line(s.led.state),
                    server: TASK_UART as int,
                },
            ),
        }
    } else {
        None
    }
}

/// The reply is one that task `i` goes on from.
pub open spec fn satisfied(s: SystemView, i: int, rep: Seq<u8>) -> bool {
    if i == TASK_A {
        s.a.phase == PhaseA::Call ==> rep == demo::pong(s.a.count)
    } else if i == TASK_C {
        rep.len() >= 2 && rep[0] == 0
    } else if i == TASK_LED {
        match s.led.phase {
            PhaseLed::Init => rep.len() >= 1 && rep[0] == GPIO_OK,
            PhaseLed::Gpio => capsule::gpio_done(capsule::gpio_op(s.led.req), rep),
            _ => true,
        }
    } else {
        true
    }
}

/// The endpoint that task `i` serves, if it is a server.
pub open spec fn serves(i: int) -> Option<u8> {
    if i == TASK_B {
        Some(EP_PING)
    } else if i == TASK_GPIO {
        Some(EP_GPIO)
    } else if i == TASK_LED {
        Some(EP_LED)
    } else if i == TASK_UART {
        Some(EP_UART)
    } else {
        None
    }
}

/// The message of a finished `recv` that the task has not looked at yet.
pub open spec fn unread(t: TaskView) -> Option<Seq<u8>> {
    if protocol::outstanding(t, OpKind::Recv) && !protocol::unfinished(t) {
        Some(t.msg)
    } else {
        None
    }
}

/// The request that task `i` has taken and not answered yet.
pub open spec fn holds(s: SystemView, i: int) -> Option<Seq<u8>> {
    if i == TASK_B && s.b.phase == PhaseB::Reply {
        Some(s.b.last_ping)
    } else if i == TASK_LED && (s.led.phase == PhaseLed::Gpio || s.led.phase == PhaseLed::Log) {
        Some(seq![s.led.req])
    } else {
        unread(s.k.tasks[i])
    }
}

// ---------------------------------------------------------------------------
// The system invariant
// ---------------------------------------------------------------------------

/// A task that makes a request has no operation, or a call that carries this
/// request, waits for its server, failed because the server died, or holds a
/// reply to go on from.
pub open spec fn client_ok(s: SystemView, i: int, ask: Ask) -> bool {
    let t = s.k.tasks[i];
    t.op matches Some(op) ==> {
        &&& op.kind == OpKind::Call
        &&& op.ep == ask.ep
        &&& !op.done && op.phase == 0 ==> t.msg == ask.msg
        &&& !op.done && op.phase == 1 ==> t.reply_from == Some(ask.server as usize)
        &&& op.done && op.err is None ==> satisfied(s, i, t.msg)
    }
}

/// A task that makes no request has no operation, or receives on the endpoint it
/// serves, or is task A waiting for its notification.
pub open spec fn server_ok(s: SystemView, i: int) -> bool {
    let t = s.k.tasks[i];
    t.op matches Some(op) ==> {
        ||| op.kind == OpKind::Recv && serves(i) == Some(op.ep) && !(i == TASK_B && s.b.phase
            == PhaseB::Reply)
        ||| op.kind == OpKind::Wait && i == TASK_A
    }
}

/// Task `i` plays its part.
pub open spec fn role_ok(s: SystemView, i: int) -> bool {
    &&& match asks(s, i) {
        Some(ask) => client_ok(s, i, ask),
        None => server_ok(s, i),
    }
    &&& holds(s, i) matches Some(m) ==> owed(s, i, m)
    &&& i == TASK_LED && (s.led.phase == PhaseLed::Gpio || s.led.phase == PhaseLed::Log)
        ==> capsule::is_led_request(seq![s.led.req])
}

/// Task `i` owes the reply to request `m` to a task that is making exactly this
/// request.
pub open spec fn owed(s: SystemView, i: int, m: Seq<u8>) -> bool {
    &&& s.k.tasks[i].reply_to matches Some(c) && asks(s, c as int) matches Some(ask) && ask.msg
        == m && ask.server == i && serves(i) == Some(ask.ep)
}

/// Every task plays its part.
pub open spec fn in_step(s: SystemView) -> bool {
    &&& laws::coherent(s.k)
    &&& forall|i: int| 0 <= i < N_TASKS ==> #[trigger] role_ok(s, i)
}

/// A slice that changed only tasks `i` and `p` in the kernel and only task `i`'s
/// memory keeps everybody in step, if these two are.
proof fn lemma_others_in_step(s: SystemView, s1: SystemView, i: int, p: int)
    requires
        in_step(s),
        laws::coherent(s1.k),
        0 <= i < N_TASKS,
        0 <= p < N_TASKS,
        laws::only_these_change(s.k, s1.k, i, p),
        i != TASK_A ==> s1.a == s.a,
        i != TASK_B ==> s1.b == s.b,
        i != TASK_C ==> s1.c == s.c,
        i != TASK_LED ==> s1.led == s.led,
        asks(s1, i) == asks(s, i) || !protocol::awaiting_reply(s1.k.tasks[i]),
        role_ok(s1, i),
        role_ok(s1, p),
    ensures
        in_step(s1),
{
    assert forall|j: int| 0 <= j < N_TASKS implies #[trigger] role_ok(s1, j) by {
        if j != i && j != p {
            assert(role_ok(s, j));
            assert(s1.k.tasks[j] == s.k.tasks[j]);
            assert(asks(s1, j) == asks(s, j));
            assert(holds(s1, j) == holds(s, j));
            assert(laws::links_coherent(s1.k.tasks, j));
        }
    }
}

/// Every task but `i` plays its part.
pub open spec fn others_ok(s: SystemView, i: int) -> bool {
    &&& laws::coherent(s.k)
    &&& forall|j: int| 0 <= j < N_TASKS && j != i ==> #[trigger] role_ok(s, j)
}

/// The system with another kernel state.
pub open spec fn on(s: SystemView, k: KernelView) -> SystemView {
    SystemView { k, ..s }
}

/// All requests are valid arguments of `call`, and the endpoint names the server.
proof fn lemma_asks_valid(s: SystemView, i: int)
    ensures
        asks(s, i) matches Some(ask) ==> {
            &&& ask.ep < N_ENDPOINTS
            &&& ask.msg.len() <= MSG_MAX
            &&& 0 <= ask.server < N_TASKS
            &&& serves(ask.server) == Some(ask.ep)
            &&& ask.server != i
        },
{
    text::lemma_decimal_len(s.a.count as nat);
    reveal_strlit("ping ");
    reveal_strlit("[ipc ");
    reveal_strlit("] ping -> pong\n");
    reveal_strlit("^");
    reveal_strlit("[led] on\n");
    reveal_strlit("[led] off\n");
}

/// A task in step makes its request: it blocks, learns that the server died, or
/// gets a reply to go on from.
proof fn lemma_call_in_step(s: SystemView, i: int, ask: Ask)
    requires
        in_step(s),
        s.k.current == i,
        s.k.tasks[i].state == TaskState::Ready,
        asks(s, i) == Some(ask),
    ensures
        ({
            let (k1, res, buf) = protocol::call(s.k, ask.ep, ask.msg, slice::zeros());
            &&& laws::coherent(k1)
            &&& match res {
                CallResult::Blocked => in_step(on(s, k1)),
                CallResult::Failed(e) => e == IpcError::PartnerFaulted && in_step(on(s, k1)),
                CallResult::Replied(len) => {
                    &&& len == s.k.tasks[i].msg.len()
                    &&& buf.take(len as int) == s.k.tasks[i].msg
                    &&& satisfied(s, i, s.k.tasks[i].msg)
                    &&& protocol::outstanding(s.k.tasks[i], OpKind::Call)
                    &&& k1 == s.k.with(
                        i,
                        TaskView { reply_from: None, ..protocol::reaped(s.k.tasks[i]) },
                    )
                    &&& others_ok(on(s, k1), i)
                },
            }
        }),
{
    let (k1, res, buf) = protocol::call(s.k, ask.ep, ask.msg, slice::zeros());
    let t = s.k.tasks[i];
    let s1 = on(s, k1);
    lemma_asks_valid(s, i);
    assert(role_ok(s, i));
    assert(laws::task_coherent(t));
    laws::law_coherence_kept(s.k, Syscall::Call(ask.ep, ask.msg, slice::zeros()));
    protocol::lemma_partner(s.k.tasks, i, ask.ep, true);
    if t.op is Some {
        assert(k1.tasks =~= s.k.tasks.update(
            i,
            TaskView { reply_from: None, ..protocol::reaped(t) },
        ));
        if res is Replied {
            assert(buf.take(t.msg.len() as int) =~= t.msg);
        }
        lemma_others_in_step(s, s1, i, i);
    } else {
        match protocol::partner(s.k.tasks, i, ask.ep, true) {
            Some(r) => {
                assert(role_ok(s, r));
                lemma_asks_valid(s, r);
                assert(r == ask.server);
                assert(role_ok(s1, i));
                assert(role_ok(s1, r));
                lemma_others_in_step(s, s1, i, r);
            },
            None => {
                assert(role_ok(s1, i));
                lemma_others_in_step(s, s1, i, i);
            },
        }
    }
}

/// A server in step receives: it blocks, or takes a request from a task that is
/// making exactly this request and now waits for the answer.
proof fn lemma_recv_in_step(s: SystemView, i: int, ep: u8)
    requires
        in_step(s),
        s.k.current == i,
        0 <= i < N_TASKS,
        s.k.tasks[i].state == TaskState::Ready,
        serves(i) == Some(ep),
        asks(s, i) is None,
        !(i == TASK_B && s.b.phase == PhaseB::Reply),
    ensures
        ({
            let (k1, res, buf) = protocol::recv(s.k, ep, slice::zeros());
            &&& laws::coherent(k1)
            &&& match res {
                RecvResult::Blocked => in_step(on(s, k1)),
                RecvResult::Failed(e) => false,
                RecvResult::Received(len) => {
                    &&& len <= MSG_MAX
                    &&& buf.len() == MSG_MAX
                    &&& k1.current == i
                    &&& k1.tasks[i].op is None
                    &&& owed(on(s, k1), i, buf.take(len as int))
                    &&& others_ok(on(s, k1), i)
                },
            }
        }),
{
    let (k1, res, buf) = protocol::recv(s.k, ep, slice::zeros());
    let t = s.k.tasks[i];
    let s1 = on(s, k1);
    assert(role_ok(s, i));
    assert(laws::task_coherent(t));
    laws::law_coherence_kept(s.k, Syscall::Recv(ep, slice::zeros()));
    protocol::lemma_partner(s.k.tasks, i, ep, false);
    if t.op is Some {
        assert(t.op->Some_0.kind == OpKind::Recv);
        assert(holds(s, i) == Some(t.msg));
        assert(buf.take(t.msg.len() as int) =~= t.msg);
        lemma_others_in_step(s, s1, i, i);
    } else {
        match protocol::partner(s.k.tasks, i, ep, false) {
            Some(c) => {
                assert(role_ok(s, c));
                assert(laws::task_coherent(s.k.tasks[c]));
                lemma_asks_valid(s, c);
                assert(buf.take(s.k.tasks[c].msg.len() as int) =~= s.k.tasks[c].msg);
                assert(role_ok(s1, c));
                assert(role_ok(s1, i));
                lemma_others_in_step(s, s1, i, c);
            },
            None => {
                assert(role_ok(s1, i));
                lemma_others_in_step(s, s1, i, i);
            },
        }
    }
}

/// A server that owes a reply and gives one to go on from succeeds.
proof fn lemma_reply_in_step(s: SystemView, i: int, m: Seq<u8>, rep: Seq<u8>)
    requires
        others_ok(s, i),
        s.k.current == i,
        0 <= i < N_TASKS,
        owed(s, i, m),
        satisfied(s, s.k.tasks[i].reply_to->Some_0 as int, rep),
        rep.len() <= MSG_MAX,
    ensures
        ({
            let (k1, res) = protocol::reply(s.k, rep);
            &&& res == ReplyResult::Replied
            &&& k1.tasks[i].op == s.k.tasks[i].op
            &&& k1.current == i
            &&& others_ok(on(s, k1), i)
        }),
{
    let (k1, res) = protocol::reply(s.k, rep);
    let s1 = on(s, k1);
    let c = s.k.tasks[i].reply_to->Some_0 as int;
    assert(laws::links_coherent(s.k.tasks, i));
    assert(role_ok(s, c));
    laws::law_coherence_kept(s.k, Syscall::Reply(rep));
    assert forall|j: int| 0 <= j < N_TASKS && j != i implies #[trigger] role_ok(s1, j) by {
        assert(role_ok(s, j));
        assert(asks(s1, j) == asks(s, j));
        assert(laws::links_coherent(s.k.tasks, j));
        if j != c {
            assert(s1.k.tasks[j] == s.k.tasks[j]);
            assert(holds(s1, j) == holds(s, j));
        }
    }
}

/// A notification to task A leaves everybody in step.
proof fn lemma_notify_in_step(s: SystemView, i: int, bits: u32)
    requires
        others_ok(s, i),
        i != TASK_A,
        0 <= i < N_TASKS,
        s.k.current == i,
    ensures
        ({
            let (k1, res) = protocol::notify(s.k, TASK_A, bits);
            &&& res == NotifyResult::Notified
            &&& k1.tasks[i] == s.k.tasks[i]
            &&& k1.current == i
            &&& others_ok(on(s, k1), i)
        }),
{
    let (k1, res) = protocol::notify(s.k, TASK_A, bits);
    let s1 = on(s, k1);
    laws::law_coherence_kept(s.k, Syscall::Notify(TASK_A, bits));
    assert forall|j: int| 0 <= j < N_TASKS && j != i implies #[trigger] role_ok(s1, j) by {
        assert(role_ok(s, j));
        assert(asks(s1, j) == asks(s, j));
        if j != TASK_A {
            assert(s1.k.tasks[j] == s.k.tasks[j]);
            assert(holds(s1, j) == holds(s, j));
        }
    }
}

/// A task that nobody owes a reply may change its mind.
proof fn lemma_memory_change(s: SystemView, s1: SystemView, i: int)
    requires
        others_ok(s, i),
        s1.k == s.k,
        0 <= i < N_TASKS,
        i != TASK_A ==> s1.a == s.a,
        i != TASK_B ==> s1.b == s.b,
        i != TASK_C ==> s1.c == s.c,
        i != TASK_LED ==> s1.led == s.led,
        !protocol::awaiting_reply(s.k.tasks[i]) || asks(s1, i) == asks(s, i),
    ensures
        others_ok(s1, i),
{
    assert forall|j: int| 0 <= j < N_TASKS && j != i implies #[trigger] role_ok(s1, j) by {
        assert(role_ok(s, j));
        assert(asks(s1, j) == asks(s, j));
        assert(holds(s1, j) == holds(s, j));
        assert(laws::links_coherent(s.k.tasks, j));
    }
}

/// The answer to a ping is its pong.
proof fn lemma_answer(n: u32)
    ensures
        demo::is_ping(demo::ping(n)),
        demo::answer(demo::ping(n)) == demo::pong(n),
        demo::ping(n).len() <= 15,
        demo::pong(n).len() <= 15,
{
    reveal_strlit("ping");
    reveal_strlit("pong");
    reveal_strlit("ping ");
    reveal_strlit("pong ");
    text::lemma_decimal_len(n as nat);
    assert(demo::ping(n).take(4) =~= text::ascii("ping"@));
    assert(demo::answer(demo::ping(n)) =~= demo::pong(n));
}

/// The outcome of a slice keeps everybody in step.
pub open spec fn goes_well(s1: SystemView, end: SliceEnd) -> bool {
    match end {
        SliceEnd::Yield => in_step(s1),
        SliceEnd::Fault => s1.k.current == TASK_B && in_step(
            system::restarted(s1, TASK_B),
        ),
        SliceEnd::Panic(bug) => false,
    }
}

proof fn lemma_slice_a(s: SystemView, gpio_in: u32)
    requires
        in_step(s),
        s.k.current == TASK_A,
        s.k.caller().state == TaskState::Ready,
    ensures
        goes_well(system::slice_of(s, gpio_in).0, system::slice_of(s, gpio_in).1),
{
    let i = TASK_A as int;
    let (s1, end, writes, output) = system::slice_of(s, gpio_in);
    assert(role_ok(s, i));
    match asks(s, i) {
        Some(ask) => {
            lemma_call_in_step(s, i, ask);
            let (k1, res, buf) = protocol::call(s.k, ask.ep, ask.msg, slice::zeros());
            if res is Replied {
                lemma_memory_change(on(s, k1), s1, i);
                assert(role_ok(s1, i));
            }
        },
        None => {
            laws::law_coherence_kept(s.k, Syscall::Wait);
            assert(laws::task_coherent(s.k.tasks[i]));
            assert(role_ok(s1, i));
            lemma_others_in_step(s, s1, i, i);
        },
    }
}

proof fn lemma_slice_b(s: SystemView, gpio_in: u32)
    requires
        in_step(s),
        s.k.current == TASK_B,
        s.k.caller().state == TaskState::Ready,
    ensures
        goes_well(system::slice_of(s, gpio_in).0, system::slice_of(s, gpio_in).1),
{
    let i = TASK_B as int;
    let (s1, end, writes, output) = system::slice_of(s, gpio_in);
    assert(role_ok(s, i));
    lemma_answer(s.a.count);
    match s.b.phase {
        PhaseB::Recv => {
            lemma_recv_in_step(s, i, EP_PING);
            let (k1, res, buf) = protocol::recv(s.k, EP_PING, slice::zeros());
            if let RecvResult::Received(len) = res {
                assert(buf.take(len as int) == demo::ping(s.a.count));
                lemma_memory_change(on(s, k1), s1, i);
                assert(role_ok(s1, i));
            }
        },
        PhaseB::Reply => {
            let b1 = demo::TaskBView { exchanges: protocol::counted(s.b.exchanges), ..s.b };
            let sb = SystemView { b: b1, ..s };
            lemma_memory_change(s, sb, i);
            if demo::faults_at(b1.exchanges) {
                assert(role_ok(sb, i));
                lemma_restart(sb, TASK_B);
            } else {
                lemma_notify_in_step(sb, i, 1);
                let k1 = protocol::notify(sb.k, TASK_A, 1).0;
                let rep = demo::answer(s.b.last_ping);
                lemma_reply_in_step(on(sb, k1), i, s.b.last_ping, rep);
                let k2 = protocol::reply(k1, rep).0;
                lemma_memory_change(on(sb, k2), s1, i);
                assert(role_ok(s1, i));
            }
        },
    }
}

proof fn lemma_slice_c(s: SystemView, gpio_in: u32)
    requires
        in_step(s),
        s.k.current == TASK_C,
        s.k.caller().state == TaskState::Ready,
    ensures
        goes_well(system::slice_of(s, gpio_in).0, system::slice_of(s, gpio_in).1),
{
    let i = TASK_C as int;
    let (s1, end, writes, output) = system::slice_of(s, gpio_in);
    assert(role_ok(s, i));
    match asks(s, i) {
        Some(ask) => {
            lemma_call_in_step(s, i, ask);
            let (k1, res, buf) = protocol::call(s.k, ask.ep, ask.msg, slice::zeros());
            if let CallResult::Replied(len) = res {
                assert(buf[0] == buf.take(len as int)[0]);
                lemma_memory_change(on(s, k1), s1, i);
                assert(role_ok(s1, i));
            }
        },
        None => {
            lemma_memory_change(s, s1, i);
            assert(role_ok(s1, i));
        },
    }
}

proof fn lemma_slice_gpio(s: SystemView, gpio_in: u32)
    requires
        in_step(s),
        s.k.current == TASK_GPIO,
        s.k.caller().state == TaskState::Ready,
    ensures
        goes_well(system::slice_of(s, gpio_in).0, system::slice_of(s, gpio_in).1),
{
    let i = TASK_GPIO as int;
    let (s1, end, writes, output) = system::slice_of(s, gpio_in);
    lemma_recv_in_step(s, i, EP_GPIO);
    let (k1, res, buf) = protocol::recv(s.k, EP_GPIO, slice::zeros());
    match res {
        RecvResult::Received(len) => {
            let m = buf.take(len as int);
            let rep = gpio::handled(s.gpio, m, gpio_in).1;
            let c = k1.tasks[i].reply_to->Some_0 as int;
            assert(satisfied(s, c, rep));
            lemma_reply_in_step(on(s, k1), i, m, rep);
            let k2 = protocol::reply(k1, rep).0;
            lemma_memory_change(on(s, k2), s1, i);
            assert(role_ok(s1, i));
        },
        _ => {
            assert(s1 == on(s, k1));
        },
    }
}

proof fn lemma_slice_led(s: SystemView, gpio_in: u32)
    requires
        in_step(s),
        s.k.current == TASK_LED,
        s.k.caller().state == TaskState::Ready,
    ensures
        goes_well(system::slice_of(s, gpio_in).0, system::slice_of(s, gpio_in).1),
{
    let i = TASK_LED as int;
    let (s1, end, writes, output) = system::slice_of(s, gpio_in);
    assert(role_ok(s, i));
    reveal_strlit("^");
    match asks(s, i) {
        Some(ask) => {
            lemma_call_in_step(s, i, ask);
            let (k1, res, buf) = protocol::call(s.k, ask.ep, ask.msg, slice::zeros());
            if let CallResult::Replied(len) = res {
                if s.led.phase == PhaseLed::Log {
                    let rep = seq![0u8, s.led.state];
                    lemma_reply_in_step(on(s, k1), i, seq![s.led.req], rep);
                    let k2 = protocol::reply(k1, rep).0;
                    lemma_memory_change(on(s, k2), s1, i);
                    assert(role_ok(s1, i));
                } else {
                    assert(len >= 1 ==> buf[0] == buf.take(len as int)[0]);
                    lemma_memory_change(on(s, k1), s1, i);
                    assert(role_ok(s1, i));
                }
            }
        },
        None => {
            lemma_recv_in_step(s, i, EP_LED);
            let (k1, res, buf) = protocol::recv(s.k, EP_LED, slice::zeros());
            if let RecvResult::Received(len) = res {
                let m = buf.take(len as int);
                assert(m == text::ascii("^"@));
                assert(m =~= seq![m[0]]);
                assert(capsule::is_led_request(m));
                lemma_memory_change(on(s, k1), s1, i);
                assert(role_ok(s1, i));
            }
        },
    }
}

proof fn lemma_slice_uart(s: SystemView, gpio_in: u32)
    requires
        in_step(s),
        s.k.current == TASK_UART,
        s.k.caller().state == TaskState::Ready,
    ensures
        goes_well(system::slice_of(s, gpio_in).0, system::slice_of(s, gpio_in).1),
{
    let i = TASK_UART as int;
    let (s1, end, writes, output) = system::slice_of(s, gpio_in);
    lemma_recv_in_step(s, i, EP_UART);
    let (k1, res, buf) = protocol::recv(s.k, EP_UART, slice::zeros());
    match res {
        RecvResult::Received(len) => {
            let m = buf.take(len as int);
            let rep = seq![len as u8];
            let c = k1.tasks[i].reply_to->Some_0 as int;
            assert(satisfied(s, c, rep));
            lemma_reply_in_step(on(s, k1), i, m, rep);
            let k2 = protocol::reply(k1, rep).0;
            assert(s1 == on(s, k2));
            assert(role_ok(s1, i));
        },
        _ => {
            assert(s1 == on(s, k1));
        },
    }
}

/// The tasks that only serve: they make no requests of their own.
pub open spec fn pure_server(idx: usize) -> bool {
    idx == TASK_B || idx == TASK_GPIO || idx == TASK_UART
}

/// A task that only serves waits for no reply.
proof fn lemma_server_awaits_nothing(s: SystemView, idx: usize)
    requires
        in_step(s),
        pure_server(idx),
    ensures
        !protocol::awaiting_reply(s.k.tasks[idx as int]),
{
    assert(role_ok(s, idx as int));
}

/// The restart of a task that waits for no reply keeps everybody in step.
proof fn lemma_restart(s: SystemView, idx: usize)
    requires
        in_step(s),
        idx < N_TASKS,
        !protocol::awaiting_reply(s.k.tasks[idx as int]),
    ensures
        in_step(system::restarted(s, idx)),
{
    let i = idx as int;
    let s1 = system::restarted(s, idx);
    laws::law_coherence_kept_by_restart(s.k, idx);
    assert(s1.k.tasks == protocol::reset_for_restart(s.k, idx).tasks);
    assert forall|j: int| 0 <= j < N_TASKS implies #[trigger] role_ok(s1, j) by {
        assert(role_ok(s, j));
        if j != i {
            assert(asks(s1, j) == asks(s, j));
            assert(holds(s1, j) == holds(s, j));
            assert(laws::links_coherent(s.k.tasks, j));
            if let Some(c) = s.k.tasks[j].reply_to {
                assert(laws::links_coherent(s.k.tasks, c as int));
                assert(role_ok(s, c as int));
                assert(c != idx);
                assert(asks(s1, c as int) == asks(s, c as int));
            }
        }
    }
}

// ---------------------------------------------------------------------------
// The laws
// ---------------------------------------------------------------------------

/// One turn of the scheduler: task `idx` runs a slice, and is restarted if the
/// slice ends in a fault. Gives the system, how the slice ended and what went
/// out on UART0.
pub open spec fn turn(s: SystemView, idx: usize, gpio_in: u32) -> (
    SystemView,
    SliceEnd,
    Seq<u8>,
) {
    let (s1, end, writes, output) = system::slice_of(on(s, s.k.running(idx as int)), gpio_in);
    (
        if end == SliceEnd::Fault {
            system::restarted(s1, idx)
        } else {
            s1
        },
        end,
        output,
    )
}

/// **The system boots in step.** In particular the kernel starts coherent.
pub proof fn law_boots_in_step(entries: Seq<u32>, stacks: Seq<u32>)
    ensures
        in_step(system::booted(entries, stacks)),
{
    let s = system::booted(entries, stacks);
    assert forall|i: int| 0 <= i < N_TASKS implies #[trigger] role_ok(s, i) by {
        assert(s.k.tasks[i].op is None);
    }
    assert forall|i: int| 0 <= i < N_TASKS implies #[trigger] laws::links_coherent(
        s.k.tasks,
        i,
    ) by {
        assert(s.k.tasks[i].op is None);
    }
}

/// Making another task current keeps everybody in step.
proof fn lemma_switch_in_step(s: SystemView, idx: usize)
    requires
        in_step(s),
        idx < N_TASKS,
    ensures
        in_step(on(s, s.k.running(idx as int))),
{
    let s0 = on(s, s.k.running(idx as int));
    laws::law_coherence_kept_by_switch(s.k, idx);
    assert forall|i: int| 0 <= i < N_TASKS implies #[trigger] role_ok(s0, i) by {
        assert(role_ok(s, i));
        assert(asks(s0, i) == asks(s, i));
        assert(holds(s0, i) == holds(s, i));
    }
}

/// **No task ever finds its protocol broken.** While the system is in step, a
/// `Ready` task runs its slice without a panic, whatever the GPIO inputs; only
/// task B faults, and the system is in step again afterwards.
pub proof fn law_no_task_panics(s: SystemView, idx: usize, gpio_in: u32)
    requires
        in_step(s),
        idx < N_TASKS,
        s.k.tasks[idx as int].state == TaskState::Ready,
    ensures
        !(turn(s, idx, gpio_in).1 is Panic),
        turn(s, idx, gpio_in).1 == SliceEnd::Fault ==> idx == TASK_B,
        in_step(turn(s, idx, gpio_in).0),
{
    let s0 = on(s, s.k.running(idx as int));
    lemma_switch_in_step(s, idx);
    if idx == TASK_A {
        lemma_slice_a(s0, gpio_in);
    } else if idx == TASK_B {
        lemma_slice_b(s0, gpio_in);
    } else if idx == TASK_C {
        lemma_slice_c(s0, gpio_in);
    } else if idx == TASK_GPIO {
        lemma_slice_gpio(s0, gpio_in);
    } else if idx == TASK_LED {
        lemma_slice_led(s0, gpio_in);
    } else {
        lemma_slice_uart(s0, gpio_in);
    }
}

/// **Restarts are tolerated.** Any task may be killed and restarted between two
/// slices unless it waits for a reply: the system stays in step, whoever waits
/// for the task retries, and no task panics. A `Ready` task waits for no reply,
/// nor does one that only serves. (A server that holds the request of a task that
/// died waiting has nobody to answer, and takes that for a broken protocol.)
pub proof fn law_restarts_are_tolerated(s: SystemView, idx: usize)
    requires
        in_step(s),
        idx < N_TASKS,
    ensures
        !protocol::awaiting_reply(s.k.tasks[idx as int]) ==> in_step(system::restarted(s, idx)),
        s.k.tasks[idx as int].state == TaskState::Ready || pure_server(idx)
            ==> !protocol::awaiting_reply(s.k.tasks[idx as int]),
{
    assert(laws::task_coherent(s.k.tasks[idx as int]));
    if pure_server(idx) {
        lemma_server_awaits_nothing(s, idx);
    }
    if !protocol::awaiting_reply(s.k.tasks[idx as int]) {
        lemma_restart(s, idx);
    }
}

/// **A task may die whenever it could run.** If a `Ready` task is killed and
/// restarted, the system stays in step.
pub proof fn law_ready_restarts_are_tolerated(s: SystemView, idx: usize)
    requires
        in_step(s),
        idx < N_TASKS,
        s.k.tasks[idx as int].state == TaskState::Ready,
    ensures
        in_step(system::restarted(s, idx)),
{
    law_restarts_are_tolerated(s, idx);
}

/// **Servers may die at any time.** If task B, the GPIO capsule or the UART
/// capsule is killed and restarted between two slices, the system stays in step:
/// whoever waits for it retries, and no task panics.
pub proof fn law_server_restarts_are_tolerated(s: SystemView, idx: usize)
    requires
        in_step(s),
        pure_server(idx),
    ensures
        in_step(system::restarted(s, idx)),
{
    law_restarts_are_tolerated(s, idx);
}

/// The number of the next exchange to be reported: A's count, or one more once
/// the UART capsule has answered the call that reports it.
pub open spec fn next_line(s: SystemView) -> u32 {
    let t = s.k.tasks[TASK_A as int];
    if s.a.phase == PhaseA::Print && (t.op matches Some(op) && op.done && op.err is None) {
        protocol::counted(s.a.count)
    } else {
        s.a.count
    }
}

/// A turn put out nothing, or one of the LED's lines, or the line of the next
/// exchange, which is thereby reported.
pub open spec fn reports(s: SystemView, s1: SystemView, output: Seq<u8>) -> bool {
    ||| output == demo::exchange_line(next_line(s)) && next_line(s1) == protocol::counted(
        next_line(s),
    )
    ||| (output.len() == 0 || output == capsule::led_line(s.led.state)) && next_line(s1)
        == next_line(s)
}

/// A call of a task other than A does not touch A's operation.
proof fn lemma_call_spares_a(s: SystemView, i: int, ask: Ask)
    requires
        in_step(s),
        s.k.current == i,
        0 <= i < N_TASKS,
        i != TASK_A,
    ensures
        protocol::call(s.k, ask.ep, ask.msg, slice::zeros()).0.tasks[TASK_A as int].op
            == s.k.tasks[TASK_A as int].op,
{
    protocol::lemma_partner(s.k.tasks, i, ask.ep, true);
    assert(role_ok(s, TASK_A as int));
}

/// A receive on another endpoint than the UART's does not finish A's operation.
proof fn lemma_recv_spares_a(s: SystemView, i: int, ep: u8)
    requires
        in_step(s),
        s.k.current == i,
        0 <= i < N_TASKS,
        i != TASK_A,
    ensures
        ({
            let before = s.k.tasks[TASK_A as int].op;
            let now = protocol::recv(s.k, ep, slice::zeros()).0.tasks[TASK_A as int].op;
            &&& before is None <==> now is None
            &&& before is Some ==> now->Some_0.done == before->Some_0.done && now->Some_0.err
                == before->Some_0.err
        }),
{
    protocol::lemma_partner(s.k.tasks, i, ep, false);
    assert(role_ok(s, TASK_A as int));
}

proof fn lemma_lines_a(s: SystemView, gpio_in: u32)
    requires
        in_step(s),
        s.k.current == TASK_A,
        s.k.caller().state == TaskState::Ready,
    ensures
        reports(s, system::slice_of(s, gpio_in).0, system::slice_of(s, gpio_in).3),
{
    let me = TASK_A as int;
    assert(role_ok(s, me));
    assert(laws::task_coherent(s.k.tasks[me]));
    if let Some(ask) = asks(s, me) {
        lemma_asks_valid(s, me);
        lemma_call_in_step(s, me, ask);
        protocol::lemma_partner(s.k.tasks, me, ask.ep, true);
    }
}

proof fn lemma_lines_b(s: SystemView, gpio_in: u32)
    requires
        in_step(s),
        s.k.current == TASK_B,
        s.k.caller().state == TaskState::Ready,
    ensures
        ({
            let (s1, end, writes, output) = system::slice_of(s, gpio_in);
            if end == SliceEnd::Fault {
                reports(s, system::restarted(s1, TASK_B), output)
            } else {
                reports(s, s1, output)
            }
        }),
{
    let me = TASK_B as int;
    assert(role_ok(s, me));
    assert(role_ok(s, TASK_A as int));
    lemma_slice_b(s, gpio_in);
    if s.b.phase == PhaseB::Recv {
        lemma_recv_spares_a(s, me, EP_PING);
    } else {
        assert(laws::links_coherent(s.k.tasks, me));
        assert(laws::links_coherent(s.k.tasks, TASK_A as int));
    }
}

proof fn lemma_lines_c(s: SystemView, gpio_in: u32)
    requires
        in_step(s),
        s.k.current == TASK_C,
        s.k.caller().state == TaskState::Ready,
    ensures
        reports(s, system::slice_of(s, gpio_in).0, system::slice_of(s, gpio_in).3),
{
    if let Some(ask) = asks(s, TASK_C as int) {
        lemma_call_spares_a(s, TASK_C as int, ask);
    }
}

proof fn lemma_lines_gpio(s: SystemView, gpio_in: u32)
    requires
        in_step(s),
        s.k.current == TASK_GPIO,
        s.k.caller().state == TaskState::Ready,
    ensures
        reports(s, system::slice_of(s, gpio_in).0, system::slice_of(s, gpio_in).3),
{
    let me = TASK_GPIO as int;
    lemma_recv_in_step(s, me, EP_GPIO);
    lemma_recv_spares_a(s, me, EP_GPIO);
}

proof fn lemma_lines_led(s: SystemView, gpio_in: u32)
    requires
        in_step(s),
        s.k.current == TASK_LED,
        s.k.caller().state == TaskState::Ready,
    ensures
        reports(s, system::slice_of(s, gpio_in).0, system::slice_of(s, gpio_in).3),
{
    let me = TASK_LED as int;
    lemma_slice_led(s, gpio_in);
    assert(role_ok(s, me));
    match asks(s, me) {
        Some(ask) => {
            lemma_call_spares_a(s, me, ask);
            lemma_call_in_step(s, me, ask);
        },
        None => {
            lemma_recv_spares_a(s, me, EP_LED);
            lemma_recv_in_step(s, me, EP_LED);
        },
    }
}

proof fn lemma_lines_uart(s: SystemView, gpio_in: u32)
    requires
        in_step(s),
        s.k.current == TASK_UART,
        s.k.caller().state == TaskState::Ready,
    ensures
        reports(s, system::slice_of(s, gpio_in).0, system::slice_of(s, gpio_in).3),
{
    let me = TASK_UART as int;
    let a = TASK_A as int;
    lemma_recv_in_step(s, me, EP_UART);
    lemma_recv_spares_a(s, me, EP_UART);
    let (k1, res, buf) = protocol::recv(s.k, EP_UART, slice::zeros());
    if let RecvResult::Received(len) = res {
        let rep = seq![len as u8];
        let m = buf.take(len as int);
        let c = k1.tasks[me].reply_to->Some_0 as int;
        assert(satisfied(s, c, rep));
        lemma_reply_in_step(on(s, k1), me, m, rep);
        assert(laws::links_coherent(k1.tasks, me));
        assert(laws::task_coherent(k1.tasks[c]));
        assert(c == a || c == TASK_LED);
    }
}

/// **Exchanges are reported in sequence, each once.** Every turn puts out
/// nothing, or one of the LED's lines, or the line of the next exchange, which
/// is thereby reported. Nothing else moves the sequence.
pub proof fn law_lines_in_sequence(s: SystemView, idx: usize, gpio_in: u32)
    requires
        in_step(s),
        idx < N_TASKS,
        s.k.tasks[idx as int].state == TaskState::Ready,
    ensures
        reports(s, turn(s, idx, gpio_in).0, turn(s, idx, gpio_in).2),
{
    let s0 = on(s, s.k.running(idx as int));
    lemma_switch_in_step(s, idx);
    law_no_task_panics(s, idx, gpio_in);
    if idx == TASK_A {
        lemma_lines_a(s0, gpio_in);
    } else if idx == TASK_B {
        lemma_lines_b(s0, gpio_in);
    } else if idx == TASK_C {
        lemma_lines_c(s0, gpio_in);
    } else if idx == TASK_GPIO {
        lemma_lines_gpio(s0, gpio_in);
    } else if idx == TASK_LED {
        lemma_lines_led(s0, gpio_in);
    } else {
        lemma_lines_uart(s0, gpio_in);
    }
}

// ---------------------------------------------------------------------------
// Progress
// ---------------------------------------------------------------------------

/// Task `j`, if it waits for a reply, is not forgotten: its server has its
/// request and knows whom to answer.
pub open spec fn remembered(s: SystemView, j: int) -> bool {
    protocol::awaiting_reply(s.k.tasks[j]) ==> (s.k.tasks[j].reply_from matches Some(v) && v
        < N_TASKS && s.k.tasks[v as int].reply_to == Some(j as usize) && holds(
        s,
        v as int,
    ) is Some)
}

/// From the moment its call is answered until it takes the bits, task A has its
/// notification pending.
pub open spec fn notified(s: SystemView) -> bool {
    let t = s.k.tasks[TASK_A as int];
    &&& s.a.phase != PhaseA::Call ==> t.pending != 0
    &&& s.a.phase == PhaseA::Wait ==> t.op is None
    &&& (t.op matches Some(op) && op.done && op.err is None) ==> t.pending != 0
}

/// The system is in step and nobody is forgotten.
pub open spec fn lively(s: SystemView) -> bool {
    &&& in_step(s)
    &&& forall|j: int| 0 <= j < N_TASKS ==> #[trigger] remembered(s, j)
    &&& notified(s)
}

/// Task A, task B and the UART capsule are not blocked all at once.
pub open spec fn somebody_ready(s: SystemView) -> bool {
    ||| s.k.tasks[TASK_A as int].state == TaskState::Ready
    ||| s.k.tasks[TASK_B as int].state == TaskState::Ready
    ||| s.k.tasks[TASK_UART as int].state == TaskState::Ready
}

/// **The system never deadlocks.** In every lively state some task is `Ready`:
/// already task A, task B and the UART capsule are never blocked all at once.
pub proof fn law_somebody_is_ready(s: SystemView)
    requires
        lively(s),
    ensures
        somebody_ready(s),
{
    let a = TASK_A as int;
    let b = TASK_B as int;
    let u = TASK_UART as int;
    assert(role_ok(s, a));
    assert(role_ok(s, b));
    assert(role_ok(s, u));
    assert(laws::task_coherent(s.k.tasks[a]));
    assert(laws::task_coherent(s.k.tasks[b]));
    assert(laws::task_coherent(s.k.tasks[u]));
    assert(remembered(s, a));
    if s.k.tasks[a].state == TaskState::Blocked {
        let op = s.k.tasks[a].op->Some_0;
        assert(asks(s, a) is Some);
        if op.phase == 0 {
            assert(protocol::sending(s.k.tasks[a], op.ep));
            assert(!protocol::receiving(s.k.tasks[b], op.ep));
            assert(!protocol::receiving(s.k.tasks[u], op.ep));
        }
    }
}

/// Nobody but perhaps `c` is forgotten.
spec fn others_remembered(s: SystemView, c: int) -> bool {
    forall|j: int| 0 <= j < N_TASKS && j != c ==> #[trigger] remembered(s, j)
}

/// A call leaves nobody forgotten.
proof fn lemma_call_remembers(s: SystemView, i: int, ask: Ask)
    requires
        lively(s),
        s.k.current == i,
        0 <= i < N_TASKS,
        asks(s, i) == Some(ask),
    ensures
        ({
            let k1 = protocol::call(s.k, ask.ep, ask.msg, slice::zeros()).0;
            forall|j: int| 0 <= j < N_TASKS ==> #[trigger] remembered(on(s, k1), j)
        }),
{
    let k1 = protocol::call(s.k, ask.ep, ask.msg, slice::zeros()).0;
    let s1 = on(s, k1);
    lemma_asks_valid(s, i);
    assert(role_ok(s, i));
    protocol::lemma_partner(s.k.tasks, i, ask.ep, true);
    assert forall|j: int| 0 <= j < N_TASKS implies #[trigger] remembered(s1, j) by {
        assert(remembered(s, j));
        if let Some(r) = protocol::partner(s.k.tasks, i, ask.ep, true) {
            assert(role_ok(s, r));
        }
    }
}

/// A receive leaves nobody forgotten but the task whose message it takes.
proof fn lemma_recv_remembers(s: SystemView, i: int, ep: u8)
    requires
        lively(s),
        s.k.current == i,
        0 <= i < N_TASKS,
        serves(i) == Some(ep),
        asks(s, i) is None,
        !(i == TASK_B && s.b.phase == PhaseB::Reply),
    ensures
        ({
            let (k1, res, buf) = protocol::recv(s.k, ep, slice::zeros());
            let s1 = on(s, k1);
            if res is Received {
                k1.tasks[i].reply_to matches Some(c) ==> others_remembered(s1, c as int)
            } else {
                forall|j: int| 0 <= j < N_TASKS ==> #[trigger] remembered(s1, j)
            }
        }),
{
    let (k1, res, buf) = protocol::recv(s.k, ep, slice::zeros());
    let s1 = on(s, k1);
    assert(role_ok(s, i));
    protocol::lemma_partner(s.k.tasks, i, ep, false);
    assert forall|j: int|
        0 <= j < N_TASKS && (res is Received ==> k1.tasks[i].reply_to != Some(
            j as usize,
        )) implies #[trigger] remembered(s1, j) by {
        assert(remembered(s, j));
        if let Some(c) = protocol::partner(s.k.tasks, i, ep, false) {
            assert(role_ok(s, c));
        }
    }
}

/// A reply to `c` leaves nobody forgotten.
proof fn lemma_reply_remembers(s: SystemView, i: int, rep: Seq<u8>)
    requires
        others_ok(s, i),
        s.k.current == i,
        0 <= i < N_TASKS,
        s.k.tasks[i].reply_to is Some,
        others_remembered(s, s.k.tasks[i].reply_to->Some_0 as int),
        rep.len() <= MSG_MAX,
    ensures
        ({
            let k1 = protocol::reply(s.k, rep).0;
            forall|j: int| 0 <= j < N_TASKS ==> #[trigger] remembered(on(s, k1), j)
        }),
{
    let k1 = protocol::reply(s.k, rep).0;
    let s1 = on(s, k1);
    let c = s.k.tasks[i].reply_to->Some_0 as int;
    assert(laws::links_coherent(s.k.tasks, i));
    assert forall|j: int| 0 <= j < N_TASKS implies #[trigger] remembered(s1, j) by {
        if j != c {
            assert(remembered(s, j));
        }
    }
}

/// A change of mind leaves nobody forgotten, as long as a request that is held
/// stays held.
proof fn lemma_memory_remembers(s: SystemView, s1: SystemView, i: int, c: int)
    requires
        others_remembered(s, c),
        laws::coherent(s.k),
        s1.k == s.k,
        0 <= i < N_TASKS,
        i != TASK_A ==> s1.a == s.a,
        i != TASK_B ==> s1.b == s.b,
        i != TASK_C ==> s1.c == s.c,
        i != TASK_LED ==> s1.led == s.led,
        holds(s, i) is Some ==> holds(s1, i) is Some,
        0 <= c < N_TASKS ==> s.k.tasks[i].reply_to == Some(c as usize) && holds(s1, i) is Some,
    ensures
        forall|j: int| 0 <= j < N_TASKS ==> #[trigger] remembered(s1, j),
{
    assert forall|j: int| 0 <= j < N_TASKS implies #[trigger] remembered(s1, j) by {
        assert(laws::links_coherent(s.k.tasks, i));
        if j != c {
            assert(remembered(s, j));
        }
    }
}

proof fn lemma_lively_a(s: SystemView, gpio_in: u32)
    requires
        lively(s),
        s.k.current == TASK_A,
        s.k.caller().state == TaskState::Ready,
    ensures
        lively(system::slice_of(s, gpio_in).0),
{
    let i = TASK_A as int;
    let (s1, end, writes, output) = system::slice_of(s, gpio_in);
    assert(role_ok(s, i));
    assert(role_ok(s, TASK_A as int));
    lemma_slice_a(s, gpio_in);
    assert(laws::task_coherent(s.k.tasks[i]));
    match asks(s, i) {
        Some(ask) => {
            let k1 = protocol::call(s.k, ask.ep, ask.msg, slice::zeros()).0;
            lemma_asks_valid(s, i);
            lemma_call_in_step(s, i, ask);
            lemma_call_remembers(s, i, ask);
            lemma_memory_remembers(on(s, k1), s1, i, -1);
            protocol::lemma_partner(s.k.tasks, i, ask.ep, true);
        },
        None => {
            assert forall|j: int| 0 <= j < N_TASKS implies #[trigger] remembered(s1, j) by {
                assert(remembered(s, j));
            }
        },
    }
}

proof fn lemma_lively_c(s: SystemView, gpio_in: u32)
    requires
        lively(s),
        s.k.current == TASK_C,
        s.k.caller().state == TaskState::Ready,
    ensures
        lively(system::slice_of(s, gpio_in).0),
{
    let i = TASK_C as int;
    let (s1, end, writes, output) = system::slice_of(s, gpio_in);
    assert(role_ok(s, i));
    assert(role_ok(s, TASK_A as int));
    lemma_slice_c(s, gpio_in);
    match asks(s, i) {
        Some(ask) => {
            let k1 = protocol::call(s.k, ask.ep, ask.msg, slice::zeros()).0;
            lemma_call_in_step(s, i, ask);
            lemma_call_remembers(s, i, ask);
            lemma_memory_remembers(on(s, k1), s1, i, -1);
            lemma_call_spares_a(s, i, ask);
        },
        None => {
            lemma_memory_remembers(s, s1, i, -1);
        },
    }
}

proof fn lemma_lively_gpio(s: SystemView, gpio_in: u32)
    requires
        lively(s),
        s.k.current == TASK_GPIO,
        s.k.caller().state == TaskState::Ready,
    ensures
        lively(system::slice_of(s, gpio_in).0),
{
    let i = TASK_GPIO as int;
    let (s1, end, writes, output) = system::slice_of(s, gpio_in);
    assert(role_ok(s, i));
    assert(role_ok(s, TASK_A as int));
    lemma_slice_gpio(s, gpio_in);
    lemma_recv_in_step(s, i, EP_GPIO);
    lemma_recv_remembers(s, i, EP_GPIO);
    lemma_recv_spares_a(s, i, EP_GPIO);
    let (k1, res, buf) = protocol::recv(s.k, EP_GPIO, slice::zeros());
    if let RecvResult::Received(len) = res {
        let rep = gpio::handled(s.gpio, buf.take(len as int), gpio_in).1;
        lemma_reply_remembers(on(s, k1), i, rep);
        lemma_memory_remembers(on(s, protocol::reply(k1, rep).0), s1, i, -1);
    } else {
        assert(s1 == on(s, k1));
    }
}

proof fn lemma_lively_uart(s: SystemView, gpio_in: u32)
    requires
        lively(s),
        s.k.current == TASK_UART,
        s.k.caller().state == TaskState::Ready,
    ensures
        lively(system::slice_of(s, gpio_in).0),
{
    let i = TASK_UART as int;
    let (s1, end, writes, output) = system::slice_of(s, gpio_in);
    assert(role_ok(s, i));
    assert(role_ok(s, TASK_A as int));
    lemma_slice_uart(s, gpio_in);
    lemma_recv_in_step(s, i, EP_UART);
    lemma_recv_remembers(s, i, EP_UART);
    lemma_recv_spares_a(s, i, EP_UART);
    let (k1, res, buf) = protocol::recv(s.k, EP_UART, slice::zeros());
    if let RecvResult::Received(len) = res {
        let rep = seq![len as u8];
        lemma_reply_remembers(on(s, k1), i, rep);
        assert(s1 == on(s, protocol::reply(k1, rep).0));
    } else {
        assert(s1 == on(s, k1));
    }
}

proof fn lemma_lively_led(s: SystemView, gpio_in: u32)
    requires
        lively(s),
        s.k.current == TASK_LED,
        s.k.caller().state == TaskState::Ready,
    ensures
        lively(system::slice_of(s, gpio_in).0),
{
    let i = TASK_LED as int;
    let (s1, end, writes, output) = system::slice_of(s, gpio_in);
    assert(role_ok(s, i));
    assert(role_ok(s, TASK_A as int));
    lemma_slice_led(s, gpio_in);
    match asks(s, i) {
        Some(ask) => {
            let (k1, res, buf) = protocol::call(s.k, ask.ep, ask.msg, slice::zeros());
            lemma_call_in_step(s, i, ask);
            lemma_call_remembers(s, i, ask);
            lemma_call_spares_a(s, i, ask);
            if res is Replied && s.led.phase == PhaseLed::Log {
                let rep = seq![0u8, s.led.state];
                let k2 = protocol::reply(k1, rep).0;
                lemma_reply_remembers(on(s, k1), i, rep);
                assert forall|j: int| 0 <= j < N_TASKS implies #[trigger] remembered(s1, j) by {
                    assert(remembered(on(s, k2), j));
                }
            } else {
                lemma_memory_remembers(on(s, k1), s1, i, -1);
            }
        },
        None => {
            let (k1, res, buf) = protocol::recv(s.k, EP_LED, slice::zeros());
            lemma_recv_in_step(s, i, EP_LED);
            lemma_recv_remembers(s, i, EP_LED);
            lemma_recv_spares_a(s, i, EP_LED);
            if let RecvResult::Received(len) = res {
                let c = k1.tasks[i].reply_to->Some_0 as int;
                reveal_strlit("^");
                assert(capsule::is_led_request(buf.take(len as int)));
                lemma_memory_remembers(on(s, k1), s1, i, c);
            } else {
                assert(s1 == on(s, k1));
            }
        },
    }
}

proof fn lemma_lively_restart(s: SystemView, idx: usize)
    requires
        lively(s),
        idx < N_TASKS,
        !protocol::awaiting_reply(s.k.tasks[idx as int]),
    ensures
        lively(system::restarted(s, idx)),
{
    let s1 = system::restarted(s, idx);
    lemma_restart(s, idx);
    assert(s1.k.tasks == protocol::reset_for_restart(s.k, idx).tasks);
    assert forall|j: int| 0 <= j < N_TASKS implies #[trigger] remembered(s1, j) by {
        assert(remembered(s, j));
        assert(role_ok(s, j));
        assert(laws::links_coherent(s.k.tasks, j));
    }
}

proof fn lemma_lively_b(s: SystemView, gpio_in: u32)
    requires
        lively(s),
        s.k.current == TASK_B,
        s.k.caller().state == TaskState::Ready,
    ensures
        ({
            let (s1, end, writes, output) = system::slice_of(s, gpio_in);
            lively(
                if end == SliceEnd::Fault {
                    system::restarted(s1, TASK_B)
                } else {
                    s1
                },
            )
        }),
{
    let i = TASK_B as int;
    let (s1, end, writes, output) = system::slice_of(s, gpio_in);
    assert(role_ok(s, i));
    assert(role_ok(s, TASK_A as int));
    lemma_slice_b(s, gpio_in);
    match s.b.phase {
        PhaseB::Recv => {
            let (k1, res, buf) = protocol::recv(s.k, EP_PING, slice::zeros());
            lemma_recv_in_step(s, i, EP_PING);
            lemma_recv_remembers(s, i, EP_PING);
            lemma_recv_spares_a(s, i, EP_PING);
            if res is Received {
                let c = k1.tasks[i].reply_to->Some_0 as int;
                lemma_memory_remembers(on(s, k1), s1, i, c);
            } else {
                assert(s1 == on(s, k1));
            }
        },
        PhaseB::Reply => {
            let b1 = demo::TaskBView { exchanges: protocol::counted(s.b.exchanges), ..s.b };
            let sb = SystemView { b: b1, ..s };
            lemma_memory_change(s, sb, i);
            lemma_memory_remembers(s, sb, i, -1);
            if demo::faults_at(b1.exchanges) {
                assert(role_ok(sb, i));
                lemma_lively_restart(sb, TASK_B);
            } else {
                let k1 = protocol::notify(sb.k, TASK_A, 1).0;
                let rep = demo::answer(s.b.last_ping);
                let pending = s.k.tasks[TASK_A as int].pending;
                assert(pending | 1u32 != 0) by (bit_vector);
                lemma_notify_in_step(sb, i, 1);
                assert forall|j: int| 0 <= j < N_TASKS implies #[trigger] remembered(
                    on(sb, k1),
                    j,
                ) by {
                    assert(remembered(sb, j));
                }
                lemma_reply_remembers(on(sb, k1), i, rep);
                let k2 = protocol::reply(k1, rep).0;
                assert forall|j: int| 0 <= j < N_TASKS implies #[trigger] remembered(s1, j) by {
                    assert(remembered(on(sb, k2), j));
                }
            }
        },
    }
}

/// **The system boots lively.**
pub proof fn law_boots_lively(entries: Seq<u32>, stacks: Seq<u32>)
    ensures
        lively(system::booted(entries, stacks)),
{
    let s = system::booted(entries, stacks);
    law_boots_in_step(entries, stacks);
    assert forall|j: int| 0 <= j < N_TASKS implies #[trigger] remembered(s, j) by {
        assert(s.k.tasks[j].op is None);
    }
}

/// **Every turn leaves the system lively,** and so does the restart, between two
/// turns, of a task that waits for no reply.
pub proof fn law_stays_lively(s: SystemView, idx: usize, gpio_in: u32)
    requires
        lively(s),
        idx < N_TASKS,
    ensures
        s.k.tasks[idx as int].state == TaskState::Ready ==> lively(turn(s, idx, gpio_in).0),
        !protocol::awaiting_reply(s.k.tasks[idx as int]) ==> lively(system::restarted(s, idx)),
{
    if !protocol::awaiting_reply(s.k.tasks[idx as int]) {
        lemma_lively_restart(s, idx);
    }
    if s.k.tasks[idx as int].state == TaskState::Ready {
        let s0 = on(s, s.k.running(idx as int));
        lemma_switch_in_step(s, idx);
        assert forall|j: int| 0 <= j < N_TASKS implies #[trigger] remembered(s0, j) by {
            assert(remembered(s, j));
        }
        law_no_task_panics(s, idx, gpio_in);
        if idx == TASK_A {
            lemma_lively_a(s0, gpio_in);
        } else if idx == TASK_B {
            lemma_lively_b(s0, gpio_in);
        } else if idx == TASK_C {
            lemma_lively_c(s0, gpio_in);
        } else if idx == TASK_GPIO {
            lemma_lively_gpio(s0, gpio_in);
        } else if idx == TASK_LED {
            lemma_lively_led(s0, gpio_in);
        } else {
            lemma_lively_uart(s0, gpio_in);
        }
    }
}

// ---------------------------------------------------------------------------
// The LED
// ---------------------------------------------------------------------------

/// The level at which the GPIO capsule drives the LED pin, as a state byte.
pub open spec fn pin_state(s: SystemView) -> u8 {
    gpio::level_of(s.gpio.levels[LED_PIN as int])
}

/// The task's call was answered and it has not looked at the answer yet.
pub open spec fn answered(t: TaskView) -> bool {
    t.op matches Some(op) && op.kind == OpKind::Call && op.done && op.err is None
}

/// The LED state that the GPIO capsule's answer `rep` to LED request `req`
/// stands for.
pub open spec fn state_told(req: u8, rep: Seq<u8>) -> u8 {
    if req == LED_ON {
        1
    } else if req == LED_OFF {
        0
    } else {
        rep[1]
    }
}

/// The LED capsule knows at which level its pin is driven, or an answer that
/// tells it is waiting for it.
pub open spec fn led_knows(s: SystemView) -> bool {
    let t = s.k.tasks[TASK_LED as int];
    &&& s.gpio.levels.len() == N_PINS
    &&& match s.led.phase {
        PhaseLed::Init => answered(t) ==> pin_state(s) == 0,
        PhaseLed::Gpio => pin_state(s) == if answered(t) {
            state_told(s.led.req, t.msg)
        } else {
            s.led.state
        },
        _ => pin_state(s) == s.led.state,
    }
}

/// What a turn put out is nothing, the line of the next exchange, or the LED's
/// line for the level at which its pin is driven.
pub open spec fn tells_truth(s: SystemView, output: Seq<u8>) -> bool {
    ||| output.len() == 0
    ||| output == demo::exchange_line(next_line(s))
    ||| output == capsule::led_line(pin_state(s))
}

/// A slice of a task other than the LED and GPIO capsules leaves the LED
/// capsule's call to the GPIO capsule alone.
proof fn lemma_led_undisturbed(s: SystemView, gpio_in: u32)
    requires
        in_step(s),
        0 <= s.k.current < N_TASKS,
        s.k.current != TASK_LED,
        s.k.current != TASK_GPIO,
        s.k.caller().state == TaskState::Ready,
        s.led.phase == PhaseLed::Init || s.led.phase == PhaseLed::Gpio,
    ensures
        ({
            let (s1, end, writes, output) = system::slice_of(s, gpio_in);
            let s2 = if end == SliceEnd::Fault {
                system::restarted(s1, TASK_B)
            } else {
                s1
            };
            &&& s2.k.tasks[TASK_LED as int] == s.k.tasks[TASK_LED as int]
            &&& s2.led == s.led
            &&& s2.gpio == s.gpio
        }),
{
    let i = s.k.current;
    let l = TASK_LED as int;
    assert(role_ok(s, i));
    assert(role_ok(s, l));
    lemma_asks_valid(s, l);
    lemma_asks_valid(s, i);
    assert(laws::links_coherent(s.k.tasks, i));
    assert(laws::links_coherent(s.k.tasks, l));
    if i == TASK_B {
        lemma_slice_b(s, gpio_in);
        protocol::lemma_partner(s.k.tasks, i, EP_PING, false);
    } else if i == TASK_UART {
        lemma_recv_in_step(s, i, EP_UART);
        protocol::lemma_partner(s.k.tasks, i, EP_UART, false);
    } else if let Some(ask) = asks(s, i) {
        lemma_call_in_step(s, i, ask);
        protocol::lemma_partner(s.k.tasks, i, ask.ep, true);
    }
}

proof fn lemma_led_knows_gpio(s: SystemView, gpio_in: u32)
    requires
        in_step(s),
        led_knows(s),
        s.k.current == TASK_GPIO,
        s.k.caller().state == TaskState::Ready,
    ensures
        led_knows(system::slice_of(s, gpio_in).0),
{
    let i = TASK_GPIO as int;
    let l = TASK_LED as int;
    let (s1, end, writes, output) = system::slice_of(s, gpio_in);
    lemma_recv_in_step(s, i, EP_GPIO);
    protocol::lemma_partner(s.k.tasks, i, EP_GPIO, false);
    assert(role_ok(s, i));
    assert(role_ok(s, l));
    let (k1, res, buf) = protocol::recv(s.k, EP_GPIO, slice::zeros());
    if let RecvResult::Received(len) = res {
        let m = buf.take(len as int);
        let rep = gpio::handled(s.gpio, m, gpio_in).1;
        assert(asks(s, l) matches Some(ask) && ask.msg == m);
        assert(k1.tasks[i].reply_to == Some(TASK_LED));
        assert(laws::links_coherent(k1.tasks, i));
        assert(s1.k == protocol::reply(k1, rep).0);
        assert(s1.k.tasks[l].msg == rep);
    }
}

proof fn lemma_led_knows_led(s: SystemView, gpio_in: u32)
    requires
        in_step(s),
        led_knows(s),
        s.k.current == TASK_LED,
        s.k.caller().state == TaskState::Ready,
    ensures
        led_knows(system::slice_of(s, gpio_in).0),
{
    let l = TASK_LED as int;
    assert(role_ok(s, l));
    assert(laws::task_coherent(s.k.tasks[l]));
    lemma_slice_led(s, gpio_in);
    lemma_asks_valid(s, l);
    match asks(s, l) {
        Some(ask) => {
            lemma_call_in_step(s, l, ask);
            protocol::lemma_partner(s.k.tasks, l, ask.ep, true);
            let (k1, res, buf) = protocol::call(s.k, ask.ep, ask.msg, slice::zeros());
            if let CallResult::Replied(len) = res {
                assert(len >= 2 ==> buf[1] == buf.take(len as int)[1]);
            }
        },
        None => {
            lemma_recv_in_step(s, l, EP_LED);
            protocol::lemma_partner(s.k.tasks, l, EP_LED, false);
        },
    }
}

/// **The LED capsule knows its LED,** from boot on through every turn: unless it
/// still configures the pin, its state is the level at which the pin is driven,
/// and so is the state that it logs.
pub proof fn law_led_knows_its_pin(s: SystemView, idx: usize, gpio_in: u32)
    requires
        in_step(s),
        led_knows(s),
        idx < N_TASKS,
        s.k.tasks[idx as int].state == TaskState::Ready,
    ensures
        led_knows(turn(s, idx, gpio_in).0),
        tells_truth(s, turn(s, idx, gpio_in).2),
        s.led.phase == PhaseLed::Serve || s.led.phase == PhaseLed::Log ==> s.led.state
            == pin_state(s),
{
    let s0 = on(s, s.k.running(idx as int));
    lemma_switch_in_step(s, idx);
    law_no_task_panics(s, idx, gpio_in);
    law_lines_in_sequence(s, idx, gpio_in);
    if idx == TASK_GPIO {
        lemma_led_knows_gpio(s0, gpio_in);
    } else if idx == TASK_LED {
        lemma_led_knows_led(s0, gpio_in);
    } else {
        if s.led.phase == PhaseLed::Init || s.led.phase == PhaseLed::Gpio {
            lemma_led_undisturbed(s0, gpio_in);
        }
    }
    if idx == TASK_UART {
        let (k1, res, buf) = protocol::recv(s0.k, EP_UART, slice::zeros());
        lemma_recv_in_step(s0, TASK_UART as int, EP_UART);
        if let RecvResult::Received(len) = res {
            assert(owed(on(s0, k1), TASK_UART as int, buf.take(len as int)));
        }
    }
}

/// **The LED capsule knows its LED at boot.**
pub proof fn law_led_known_at_boot(entries: Seq<u32>, stacks: Seq<u32>)
    ensures
        led_knows(system::booted(entries, stacks)),
{
    assert(system::booted(entries, stacks).k.tasks[TASK_LED as int].op is None);
}

// ---------------------------------------------------------------------------
// Whole runs
// ---------------------------------------------------------------------------

/// A run of the system from boot: in state `states[n]`, task `order[n]` was
/// `Ready` and had its turn, with GPIO inputs `inputs[n]`.
pub open spec fn is_run(states: Seq<SystemView>, order: Seq<usize>, inputs: Seq<u32>) -> bool {
    &&& states.len() == order.len() + 1
    &&& inputs.len() == order.len()
    &&& exists|entries: Seq<u32>, stacks: Seq<u32>|
        states[0] == #[trigger] system::booted(entries, stacks)
    &&& forall|n: int|
        0 <= n < order.len() ==> {
            &&& #[trigger] order[n] < N_TASKS
            &&& states[n].k.tasks[order[n] as int].state == TaskState::Ready
            &&& states[n + 1] == turn(states[n], order[n], inputs[n]).0
        }
}

proof fn lemma_run_states(states: Seq<SystemView>, order: Seq<usize>, inputs: Seq<u32>, n: int)
    requires
        is_run(states, order, inputs),
        0 <= n < states.len(),
    ensures
        lively(states[n]),
        led_knows(states[n]),
    decreases n,
{
    if n == 0 {
        let (entries, stacks) = choose|entries: Seq<u32>, stacks: Seq<u32>|
            states[0] == #[trigger] system::booted(entries, stacks);
        law_boots_lively(entries, stacks);
        law_led_known_at_boot(entries, stacks);
    } else {
        lemma_run_states(states, order, inputs, n - 1);
        assert(order[n - 1] < N_TASKS);
        law_stays_lively(states[n - 1], order[n - 1], inputs[n - 1]);
        law_led_knows_its_pin(states[n - 1], order[n - 1], inputs[n - 1]);
    }
}

/// Task `idx`'s entry point has nothing left to do to its memory.
pub open spec fn is_entered(s: SystemView, idx: usize) -> bool {
    system::entered(s, idx) == s
}

/// **A booted task is entered.** What every entry point does first is already
/// so at boot.
pub proof fn law_booted_is_entered(entries: Seq<u32>, stacks: Seq<u32>, idx: usize)
    ensures
        is_entered(system::booted(entries, stacks), idx),
{
}

/// **A restarted task is entered.** When its first resume runs the entry point,
/// nothing changes.
pub proof fn law_restarted_is_entered(s: SystemView, idx: usize)
    requires
        idx < N_TASKS,
    ensures
        is_entered(system::restarted(s, idx), idx),
{
}

/// **A task stays entered until it runs.** Turns and restarts of other tasks do
/// not touch its memory.
pub proof fn law_others_keep_it_entered(s: SystemView, idx: usize, other: usize, gpio_in: u32)
    requires
        other < N_TASKS,
        idx != other,
        is_entered(s, idx),
    ensures
        is_entered(turn(s, other, gpio_in).0, idx),
        is_entered(system::restarted(s, other), idx),
{
}

proof fn lemma_stays_entered(
    states: Seq<SystemView>,
    order: Seq<usize>,
    inputs: Seq<u32>,
    idx: usize,
    from: int,
    n: int,
)
    requires
        is_run(states, order, inputs),
        0 <= from <= n < states.len(),
        is_entered(states[from], idx),
        forall|m: int| from <= m < n ==> #[trigger] order[m] != idx,
    ensures
        is_entered(states[n], idx),
    decreases n,
{
    if from < n {
        lemma_stays_entered(states, order, inputs, idx, from, n - 1);
        assert(order[n - 1] != idx);
        law_others_keep_it_entered(states[n - 1], idx, order[n - 1], inputs[n - 1]);
    }
}

/// **The first resume enters a task in vain.** In a run from boot, as long as a
/// task has not had a turn since boot, or since a turn that ended in a fault, its
/// entry point changes nothing. So a run in which entry points run at the first
/// resume after boot and after every fault is this same run.
pub proof fn law_first_resume_finds_task_entered(
    states: Seq<SystemView>,
    order: Seq<usize>,
    inputs: Seq<u32>,
    idx: usize,
    n: int,
)
    requires
        is_run(states, order, inputs),
        0 <= n < states.len(),
        idx < N_TASKS,
    ensures
        (forall|m: int| 0 <= m < n ==> #[trigger] order[m] != idx) ==> system::entered(
            states[n],
            idx,
        ) == states[n],
        forall|f: int|
            {
                &&& 0 <= f < n
                &&& #[trigger] order[f] == idx
                &&& turn(states[f], idx, inputs[f]).1 == SliceEnd::Fault
                &&& forall|m: int| f < m < n ==> #[trigger] order[m] != idx
            } ==> system::entered(states[n], idx) == states[n],
{
    if forall|m: int| 0 <= m < n ==> #[trigger] order[m] != idx {
        let (entries, stacks) = choose|entries: Seq<u32>, stacks: Seq<u32>|
            states[0] == #[trigger] system::booted(entries, stacks);
        law_booted_is_entered(entries, stacks, idx);
        lemma_stays_entered(states, order, inputs, idx, 0, n);
    }
    assert forall|f: int|
        {
            &&& 0 <= f < n
            &&& #[trigger] order[f] == idx
            &&& turn(states[f], idx, inputs[f]).1 == SliceEnd::Fault
            &&& forall|m: int| f < m < n ==> #[trigger] order[m] != idx
        } implies system::entered(states[n], idx) == states[n] by {
        let s0 = on(states[f], states[f].k.running(idx as int));
        law_restarted_is_entered(system::slice_of(s0, inputs[f]).0, idx);
        lemma_stays_entered(states, order, inputs, idx, f + 1, n);
    }
}

/// **From boot on, no task ever panics, some task is always `Ready`, the report
/// lines are strictly sequential from zero, and the LED's lines tell at which
/// level its pin is driven,** in whatever order `Ready` tasks get their turns and
/// whatever the GPIO inputs are.
pub proof fn law_every_run(states: Seq<SystemView>, order: Seq<usize>, inputs: Seq<u32>)
    requires
        is_run(states, order, inputs),
    ensures
        next_line(states[0]) == 0,
        forall|n: int| 0 <= n < states.len() ==> #[trigger] somebody_ready(states[n]),
        forall|n: int|
            0 <= n < order.len() ==> {
                &&& !(turn(states[n], #[trigger] order[n], inputs[n]).1 is Panic)
                &&& reports(
                    states[n],
                    states[n + 1],
                    turn(states[n], order[n], inputs[n]).2,
                )
                &&& tells_truth(states[n], turn(states[n], order[n], inputs[n]).2)
            },
{
    assert forall|n: int| 0 <= n < states.len() implies #[trigger] somebody_ready(
        states[n],
    ) by {
        lemma_run_states(states, order, inputs, n);
        law_somebody_is_ready(states[n]);
    }
    assert forall|n: int| 0 <= n < order.len() implies {
        &&& !(turn(states[n], #[trigger] order[n], inputs[n]).1 is Panic)
        &&& reports(states[n], states[n + 1], turn(states[n], order[n], inputs[n]).2)
        &&& tells_truth(states[n], turn(states[n], order[n], inputs[n]).2)
    } by {
        lemma_run_states(states, order, inputs, n);
        law_no_task_panics(states[n], order[n], inputs[n]);
        law_lines_in_sequence(states[n], order[n], inputs[n]);
        law_led_knows_its_pin(states[n], order[n], inputs[n]);
    }
}

} // verus!
