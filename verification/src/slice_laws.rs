//! Laws of the tasks' slices: which calls a task makes, what it remembers, and
//! how its slice ends, for every state of the kernel and of its memory.

use vstd::prelude::*;

use crate::capsule;
use crate::capsule::{Led, Output, PhaseLed};
use crate::demo;
use crate::demo::{PhaseA, PhaseB, PhaseC, TaskA, TaskBView, TaskC};
use crate::gpio;
use crate::gpio::GpioView;
use crate::ipc::{CallResult, IpcError, NotifyResult, RecvResult, ReplyResult, WaitResult};
use crate::protocol;
use crate::protocol::KernelView;
use crate::slice;
use crate::slice::{Bug, SliceEnd};
use crate::system;
use crate::system::{System, SystemView};
use crate::task;
use crate::text;

verus! {

/// The first `n` bytes of `buf` are exactly `msg`.
pub open spec fn holds_exactly(buf: Seq<u8>, n: usize, msg: Seq<u8>) -> bool {
    &&& n == msg.len()
    &&& forall|i: int| 0 <= i < n ==> #[trigger] buf[i] == msg[i]
}

/// A call that is to be tried again: nobody answered yet, or the partner died.
pub open spec fn try_again(res: CallResult) -> bool {
    res == CallResult::Blocked || res == CallResult::Failed(IpcError::PartnerFaulted)
}

// ---------------------------------------------------------------------------
// Texts
// ---------------------------------------------------------------------------

/// **The texts of the conversation,** byte by byte around the number: `ping n`,
/// `pong n`, and the line that reports exchange `n`.
pub proof fn law_conversation_texts(n: u32)
    ensures
        demo::ping(n) == seq![112u8, 105, 110, 103, 32] + text::decimal(n as nat),
        demo::pong(n) == seq![112u8, 111, 110, 103, 32] + text::decimal(n as nat),
        demo::exchange_line(n) == seq![91u8, 105, 112, 99, 32] + text::decimal4(n as nat)
            + seq![93u8, 32, 112, 105, 110, 103, 32, 45, 62, 32, 112, 111, 110, 103, 10],
{
    reveal_strlit("ping ");
    reveal_strlit("pong ");
    reveal_strlit("[ipc ");
    reveal_strlit("] ping -> pong\n");
    assert(text::ascii("ping "@) =~= seq![112u8, 105, 110, 103, 32]);
    assert(text::ascii("pong "@) =~= seq![112u8, 111, 110, 103, 32]);
    assert(text::ascii("[ipc "@) =~= seq![91u8, 105, 112, 99, 32]);
    assert(text::ascii("] ping -> pong\n"@) =~= seq![
        93u8,
        32,
        112,
        105,
        110,
        103,
        32,
        45,
        62,
        32,
        112,
        111,
        110,
        103,
        10,
    ]);
}

/// **A ping is a message of at least five bytes that begins with `ping`.** Its
/// answer is as long, begins with `pong`, and goes on as the ping does.
pub proof fn law_ping_and_answer(m: Seq<u8>)
    ensures
        demo::is_ping(m) <==> m.len() >= 5 && m[0] == 112 && m[1] == 105 && m[2] == 110 && m[3]
            == 103,
        m.len() >= 4 ==> {
            let a = demo::answer(m);
            &&& a.len() == m.len()
            &&& a[0] == 112 && a[1] == 111 && a[2] == 110 && a[3] == 103
            &&& forall|i: int| 4 <= i < m.len() ==> #[trigger] a[i] == m[i]
        },
{
    reveal_strlit("ping");
    reveal_strlit("pong");
    let ping = text::ascii("ping"@);
    assert(ping =~= seq![112u8, 105, 110, 103]);
    assert(text::ascii("pong"@) =~= seq![112u8, 111, 110, 103]);
    if m.len() >= 5 && m[0] == 112 && m[1] == 105 && m[2] == 110 && m[3] == 103 {
        assert(m.take(4) =~= ping);
    }
    if demo::is_ping(m) {
        assert(m.take(4)[0] == ping[0] && m.take(4)[1] == ping[1] && m.take(4)[2] == ping[2]
            && m.take(4)[3] == ping[3]);
    }
}

/// **The LED's lines:** `[led] on` for state 1, `[led] off` for any other.
pub proof fn law_led_texts(state: u8)
    ensures
        state == 1 ==> capsule::led_line(state) == seq![91u8, 108, 101, 100, 93, 32, 111, 110, 10],
        state != 1 ==> capsule::led_line(state) == seq![
            91u8,
            108,
            101,
            100,
            93,
            32,
            111,
            102,
            102,
            10,
        ],
{
    reveal_strlit("[led] on\n");
    reveal_strlit("[led] off\n");
    assert(text::ascii("[led] on\n"@) =~= seq![91u8, 108, 101, 100, 93, 32, 111, 110, 10]);
    assert(text::ascii("[led] off\n"@) =~= seq![91u8, 108, 101, 100, 93, 32, 111, 102, 102, 10]);
}

/// **A fresh buffer holds 64 zeros.**
pub proof fn law_fresh_buffer(i: int)
    requires
        0 <= i < 64,
    ensures
        slice::zeros().len() == 64,
        slice::zeros()[i] == 0,
{
}

// ---------------------------------------------------------------------------
// Task A
// ---------------------------------------------------------------------------

/// **A pings until it is answered.** In its call phase A calls endpoint 0 with the
/// ping of its count. It goes on to print exactly if the pong of that count came
/// back; any other answer is a broken protocol. While unanswered, or if its
/// partner died, it stays where it is. Its count stays in any case.
pub proof fn law_a_pings(k: KernelView, a: TaskA)
    requires
        a.phase == PhaseA::Call,
    ensures
        ({
            let (k1, res, buf) = protocol::call(k, 0, demo::ping(a.count), slice::zeros());
            let (k2, a1, end) = demo::slice_a(k, a);
            &&& k2 == k1
            &&& a1.count == a.count
            &&& try_again(res) ==> a1.phase == PhaseA::Call && end == SliceEnd::Yield
            &&& res matches CallResult::Failed(e) ==> !try_again(res) ==> end == SliceEnd::Panic(
                Bug::Call(e),
            ) && a1.phase == PhaseA::Call
            &&& res matches CallResult::Replied(n) ==> n <= buf.len() ==> if holds_exactly(
                buf,
                n,
                demo::pong(a.count),
            ) {
                a1.phase == PhaseA::Print && end == SliceEnd::Yield
            } else {
                a1.phase == PhaseA::Call && end == SliceEnd::Panic(Bug::BadReply(a.count))
            }
        }),
{
    let (k1, res, buf) = protocol::call(k, 0, demo::ping(a.count), slice::zeros());
    if let CallResult::Replied(n) = res {
        if n <= buf.len() {
            let pong = demo::pong(a.count);
            if holds_exactly(buf, n, pong) {
                assert(buf.take(n as int) =~= pong);
            }
            if buf.take(n as int) == pong {
                assert forall|i: int| 0 <= i < n implies #[trigger] buf[i] == pong[i] by {
                    assert(buf.take(n as int)[i] == buf[i]);
                }
            }
        }
    }
}

/// **A prints each exchange once.** In its print phase A calls endpoint 3 with the
/// line of its count. Exactly when that is answered, the count goes up by one,
/// modulo two to the 32, and A goes on to wait.
pub proof fn law_a_prints(k: KernelView, a: TaskA)
    requires
        a.phase == PhaseA::Print,
    ensures
        ({
            let (k1, res, buf) = protocol::call(k, 3, demo::exchange_line(a.count), slice::zeros());
            let (k2, a1, end) = demo::slice_a(k, a);
            &&& k2 == k1
            &&& res is Replied ==> a1.phase == PhaseA::Wait && a1.count == (a.count + 1)
                % 0x1_0000_0000 && end == SliceEnd::Yield
            &&& !(res is Replied) ==> a1 == a
            &&& try_again(res) ==> end == SliceEnd::Yield
            &&& res matches CallResult::Failed(e) ==> !try_again(res) ==> end == SliceEnd::Panic(
                Bug::UartCall(e),
            )
        }),
{
}

/// **A waits for its notification** before the next ping.
pub proof fn law_a_waits(k: KernelView, a: TaskA)
    requires
        a.phase == PhaseA::Wait,
    ensures
        ({
            let (k1, res) = protocol::wait(k);
            let (k2, a1, end) = demo::slice_a(k, a);
            &&& k2 == k1
            &&& a1.count == a.count
            &&& res is Signaled ==> a1.phase == PhaseA::Call && end == SliceEnd::Yield
            &&& res is Blocked ==> a1.phase == PhaseA::Wait && end == SliceEnd::Yield
            &&& res matches WaitResult::Failed(e) ==> a1.phase == PhaseA::Wait && end
                == SliceEnd::Panic(Bug::Wait(e))
        }),
{
}

// ---------------------------------------------------------------------------
// Task B
// ---------------------------------------------------------------------------

/// **B takes pings.** In its receive phase B receives on endpoint 0. A ping is
/// remembered as it came, to be answered next; any other message is a broken
/// protocol. Its count of exchanges stays.
pub proof fn law_b_takes_pings(k: KernelView, b: TaskBView)
    requires
        b.phase == PhaseB::Recv,
    ensures
        ({
            let (k1, res, buf) = protocol::recv(k, 0, slice::zeros());
            let (k2, b1, end) = demo::slice_b(k, b);
            &&& k2 == k1
            &&& b1.exchanges == b.exchanges
            &&& res == RecvResult::Blocked ==> b1 == b && end == SliceEnd::Yield
            &&& res matches RecvResult::Failed(e) ==> b1 == b && end == SliceEnd::Panic(
                Bug::Recv(e),
            )
            &&& res matches RecvResult::Received(n) ==> n <= buf.len() ==> if n >= 5 && buf[0]
                == 112 && buf[1] == 105 && buf[2] == 110 && buf[3] == 103 {
                &&& b1.phase == PhaseB::Reply
                &&& holds_exactly(buf, n, b1.last_ping)
                &&& end == SliceEnd::Yield
            } else {
                b1 == b && end == SliceEnd::Panic(Bug::MalformedPing(n))
            }
        }),
{
    let (k1, res, buf) = protocol::recv(k, 0, slice::zeros());
    if let RecvResult::Received(n) = res {
        law_ping_and_answer(buf.take(n as int));
    }
}

/// **B answers, except when it faults.** In its reply phase B counts an exchange.
/// If the count leaves 300 when divided by 400, it faults with the kernel
/// untouched. Otherwise it notifies task 0 with bit 0 and replies with the answer
/// to the ping it remembers, then goes on to receive.
pub proof fn law_b_answers(k: KernelView, b: TaskBView)
    requires
        b.phase == PhaseB::Reply,
    ensures
        ({
            let (k1, told) = protocol::notify(k, 0, 1);
            let (k2, replied) = protocol::reply(k1, demo::answer(b.last_ping));
            let (k3, b1, end) = demo::slice_b(k, b);
            let n = (b.exchanges + 1) % 0x1_0000_0000;
            &&& b1.exchanges == n
            &&& b1.last_ping == b.last_ping
            &&& n % 400 == 300 <==> end == SliceEnd::Fault
            &&& end == SliceEnd::Fault ==> k3 == k && b1.phase == PhaseB::Reply
            &&& n % 400 != 300 ==> {
                &&& told matches NotifyResult::Failed(e) ==> k3 == k1 && b1.phase == PhaseB::Reply
                    && end == SliceEnd::Panic(Bug::Notify(e))
                &&& told is Notified ==> k3 == k2
                &&& told is Notified && replied is Replied ==> b1.phase == PhaseB::Recv && end
                    == SliceEnd::Yield
                &&& told is Notified ==> (replied matches ReplyResult::Failed(e) ==> b1.phase
                    == PhaseB::Reply && end == SliceEnd::Panic(Bug::Reply(e)))
            }
        }),
{
}

// ---------------------------------------------------------------------------
// Task C
// ---------------------------------------------------------------------------

/// **C counts 200 slices.** In its count phase C touches no kernel state. It
/// counts the slice, and the one that makes it 200 or more starts a toggle with
/// the count back at zero.
pub proof fn law_c_counts(k: KernelView, c: TaskC)
    requires
        c.phase == PhaseC::Count,
    ensures
        ({
            let (k1, c1, end) = demo::slice_c(k, c);
            let n = (c.slices + 1) % 0x1_0000_0000;
            &&& k1 == k
            &&& end == SliceEnd::Yield
            &&& n < 200 ==> c1.phase == PhaseC::Count && c1.slices == n
            &&& n >= 200 ==> c1.phase == PhaseC::Toggle && c1.slices == 0
        }),
{
}

/// **C toggles the LED.** In its toggle phase C calls endpoint 2 with `^`. It
/// counts again exactly if the answer has two bytes or more and the first is
/// zero; any other answer is a broken protocol.
pub proof fn law_c_toggles(k: KernelView, c: TaskC)
    requires
        c.phase == PhaseC::Toggle,
    ensures
        ({
            let (k1, res, buf) = protocol::call(k, 2, seq![94u8], slice::zeros());
            let (k2, c1, end) = demo::slice_c(k, c);
            &&& k2 == k1
            &&& c1.slices == c.slices
            &&& try_again(res) ==> c1.phase == PhaseC::Toggle && end == SliceEnd::Yield
            &&& res matches CallResult::Failed(e) ==> !try_again(res) ==> end == SliceEnd::Panic(
                Bug::LedCall(e),
            ) && c1.phase == PhaseC::Toggle
            &&& res matches CallResult::Replied(n) ==> if n >= 2 && buf[0] == 0 {
                c1.phase == PhaseC::Count && end == SliceEnd::Yield
            } else {
                c1.phase == PhaseC::Toggle && end == SliceEnd::Panic(Bug::LedToggle)
            }
        }),
{
    reveal_strlit("^");
    assert(text::ascii("^"@) =~= seq![94u8]);
}

// ---------------------------------------------------------------------------
// GPIO and UART capsules
// ---------------------------------------------------------------------------

/// **The GPIO capsule answers what it is asked.** It receives on endpoint 1 and
/// handles and answers the bytes that came, whole; with nothing received it does
/// nothing.
pub proof fn law_gpio_answers(k: KernelView, g: GpioView, gpio_in: u32)
    ensures
        ({
            let (k1, res, buf) = protocol::recv(k, 1, slice::zeros());
            let (k2, g1, writes, end) = capsule::slice_gpio(k, g, gpio_in);
            &&& res == RecvResult::Blocked ==> k2 == k1 && g1 == g && writes.len() == 0 && end
                == SliceEnd::Yield
            &&& res matches RecvResult::Failed(e) ==> k2 == k1 && g1 == g && writes.len() == 0
                && end == SliceEnd::Panic(Bug::Recv(e))
            &&& forall|req: Seq<u8>|
                #![trigger gpio::handled(g, req, gpio_in)]
                res is Received && res->Received_0 <= buf.len() && holds_exactly(
                    buf,
                    res->Received_0,
                    req,
                ) ==> {
                    let (g2, rep, w) = gpio::handled(g, req, gpio_in);
                    let (k3, replied) = protocol::reply(k1, rep);
                    &&& k2 == k3 && g1 == g2 && writes == w
                    &&& replied is Replied ==> end == SliceEnd::Yield
                    &&& replied matches ReplyResult::Failed(e) ==> end == SliceEnd::Panic(
                        Bug::Reply(e),
                    )
                }
        }),
{
    let (k1, res, buf) = protocol::recv(k, 1, slice::zeros());
    assert forall|req: Seq<u8>|
        #![trigger gpio::handled(g, req, gpio_in)]
        res is Received && res->Received_0 <= buf.len() && holds_exactly(
            buf,
            res->Received_0,
            req,
        ) implies buf.take(res->Received_0 as int) == req by {
        assert(buf.take(res->Received_0 as int) =~= req);
    }
}

/// **The UART capsule puts out what it is given,** every byte and no other, and
/// answers with how many they were. It receives on endpoint 3.
pub proof fn law_uart_puts_out(k: KernelView)
    ensures
        ({
            let (k1, res, buf) = protocol::recv(k, 3, slice::zeros());
            let (k2, output, end) = capsule::slice_uart(k);
            &&& !(res is Received) ==> k2 == k1 && output.len() == 0
            &&& res == RecvResult::Blocked ==> end == SliceEnd::Yield
            &&& res matches RecvResult::Failed(e) ==> end == SliceEnd::Panic(Bug::Recv(e))
            &&& res matches RecvResult::Received(n) ==> n <= buf.len() ==> {
                let (k3, replied) = protocol::reply(k1, seq![n as u8]);
                &&& holds_exactly(buf, n, output)
                &&& k2 == k3
                &&& replied is Replied ==> end == SliceEnd::Yield
                &&& replied matches ReplyResult::Failed(e) ==> end == SliceEnd::Panic(
                    Bug::Reply(e),
                )
            }
        }),
{
}

/// **Output is seen as it is:** its first `len` bytes, in order.
pub proof fn law_output_seen_as_it_is(o: Output)
    requires
        o.len <= 64,
    ensures
        o.wf(),
        o@.len() == o.len,
        forall|i: int| 0 <= i < o.len ==> #[trigger] o@[i] == o.bytes@[i],
{
}

// ---------------------------------------------------------------------------
// LED capsule
// ---------------------------------------------------------------------------

/// **The LED capsule first makes its pin an output.** It calls endpoint 1 to
/// configure pin 8 as output, and serves, with the LED off, exactly when that is
/// answered OK.
pub proof fn law_led_configures(k: KernelView, l: Led)
    requires
        l.phase == PhaseLed::Init,
    ensures
        ({
            let (k1, res, buf) = protocol::call(k, 1, seq![0x43u8, 8, 1], slice::zeros());
            let (k2, l1, end) = capsule::slice_led(k, l);
            &&& k2 == k1
            &&& l1.req == l.req
            &&& try_again(res) ==> l1 == l && end == SliceEnd::Yield
            &&& res matches CallResult::Failed(e) ==> !try_again(res) ==> l1 == l && end
                == SliceEnd::Panic(Bug::GpioCall(e))
            &&& res matches CallResult::Replied(n) ==> if n >= 1 && buf[0] == 0 {
                l1.phase == PhaseLed::Serve && l1.state == 0 && end == SliceEnd::Yield
            } else {
                l1 == l && end == SliceEnd::Panic(Bug::GpioConfigure)
            }
        }),
{
}

/// **The LED capsule serves `+`, `-` and `^`.** It receives on endpoint 2 and
/// remembers such a request. Any other message is answered with status 1, or
/// dropped if nobody waits for an answer.
pub proof fn law_led_serves(k: KernelView, l: Led)
    requires
        l.phase == PhaseLed::Serve,
    ensures
        ({
            let (k1, res, buf) = protocol::recv(k, 2, slice::zeros());
            let (k2, l1, end) = capsule::slice_led(k, l);
            &&& l1.state == l.state
            &&& !(res is Received) ==> k2 == k1 && l1 == l
            &&& res == RecvResult::Blocked ==> end == SliceEnd::Yield
            &&& res matches RecvResult::Failed(e) ==> end == SliceEnd::Panic(Bug::Recv(e))
            &&& res matches RecvResult::Received(n) ==> n <= buf.len() ==> if n == 1 && (buf[0]
                == 43 || buf[0] == 45 || buf[0] == 94) {
                k2 == k1 && l1.phase == PhaseLed::Gpio && l1.req == buf[0] && end
                    == SliceEnd::Yield
            } else {
                let (k3, replied) = protocol::reply(k1, seq![1u8]);
                &&& k2 == k3 && l1 == l
                &&& replied is Replied || replied == ReplyResult::Failed(IpcError::NoPartner)
                    ==> end == SliceEnd::Yield
                &&& replied matches ReplyResult::Failed(e) ==> e != IpcError::NoPartner ==> end
                    == SliceEnd::Panic(Bug::ErrorReply(e))
            }
        }),
{
}

/// **The LED capsule drives its pin.** For a remembered `+` it calls endpoint 1 to
/// set pin 8, for `-` to clear it, otherwise to toggle it. If that is answered OK,
/// for a toggle with a level, the LED's state is 1, 0, or that level, and it goes
/// on to log. Any other answer is a broken protocol.
pub proof fn law_led_drives(k: KernelView, l: Led)
    requires
        l.phase == PhaseLed::Gpio,
    ensures
        ({
            let op: u8 = if l.req == 43 {
                0x53
            } else if l.req == 45 {
                0x63
            } else {
                0x54
            };
            let (k1, res, buf) = protocol::call(k, 1, seq![op, 8u8], slice::zeros());
            let (k2, l1, end) = capsule::slice_led(k, l);
            &&& k2 == k1
            &&& l1.req == l.req
            &&& try_again(res) ==> l1 == l && end == SliceEnd::Yield
            &&& res matches CallResult::Failed(e) ==> !try_again(res) ==> l1 == l && end
                == SliceEnd::Panic(Bug::GpioCall(e))
            &&& res matches CallResult::Replied(n) ==> n <= buf.len() ==> if n >= 1 && buf[0] == 0
                && (l.req == 43 || l.req == 45 || n >= 2) {
                &&& l1.phase == PhaseLed::Log
                &&& end == SliceEnd::Yield
                &&& l.req == 43 ==> l1.state == 1
                &&& l.req == 45 ==> l1.state == 0
                &&& l.req != 43 && l.req != 45 ==> l1.state == buf[1]
            } else {
                l1 == l && end == SliceEnd::Panic(Bug::GpioOp)
            }
        }),
{
}

/// **The LED capsule logs, then answers.** It calls endpoint 3 with the line of
/// the LED's state; once that is answered it answers its own caller with status 0
/// and the state, and serves again.
pub proof fn law_led_logs(k: KernelView, l: Led)
    requires
        l.phase == PhaseLed::Log,
    ensures
        ({
            let (k1, res, buf) = protocol::call(k, 3, capsule::led_line(l.state), slice::zeros());
            let (k2, l1, end) = capsule::slice_led(k, l);
            let (k3, replied) = protocol::reply(k1, seq![0u8, l.state]);
            &&& l1.req == l.req && l1.state == l.state
            &&& !(res is Replied) ==> k2 == k1 && l1 == l
            &&& try_again(res) ==> end == SliceEnd::Yield
            &&& res matches CallResult::Failed(e) ==> !try_again(res) ==> end == SliceEnd::Panic(
                Bug::UartCall(e),
            )
            &&& res is Replied ==> k2 == k3
            &&& res is Replied && replied is Replied ==> l1.phase == PhaseLed::Serve && end
                == SliceEnd::Yield
            &&& res is Replied ==> (replied matches ReplyResult::Failed(e) ==> l1 == l && end
                == SliceEnd::Panic(Bug::Reply(e)))
        }),
{
}

// ---------------------------------------------------------------------------
// The system
// ---------------------------------------------------------------------------

/// **The running task's slice runs, and touches only its own memory.** Tasks 0 to
/// 5 are A, B, C and the GPIO, LED and UART capsules. Only the GPIO capsule writes
/// registers, only the UART capsule puts bytes out.
pub proof fn law_a_slice_is_the_running_tasks(s: SystemView, gpio_in: u32)
    requires
        0 <= s.k.current < 6,
    ensures
        ({
            let (s1, end, writes, output) = system::slice_of(s, gpio_in);
            let i = s.k.current;
            &&& i == 0 ==> (s1.k, s1.a, end) == demo::slice_a(s.k, s.a)
            &&& i == 1 ==> (s1.k, s1.b, end) == demo::slice_b(s.k, s.b)
            &&& i == 2 ==> (s1.k, s1.c, end) == demo::slice_c(s.k, s.c)
            &&& i == 3 ==> (s1.k, s1.gpio, writes, end) == capsule::slice_gpio(
                s.k,
                s.gpio,
                gpio_in,
            )
            &&& i == 4 ==> (s1.k, s1.led, end) == capsule::slice_led(s.k, s.led)
            &&& i == 5 ==> (s1.k, output, end) == capsule::slice_uart(s.k)
            &&& i != 0 ==> s1.a == s.a
            &&& i != 1 ==> s1.b == s.b
            &&& i != 2 ==> s1.c == s.c
            &&& i != 3 ==> s1.gpio == s.gpio && writes.len() == 0
            &&& i != 4 ==> s1.led == s.led
            &&& i != 5 ==> output.len() == 0
        }),
{
}

/// **What an entry point does.** It sends its task back to its first phase. A's
/// count, B's count of exchanges and remembered ping, and the LED capsule's state
/// and request survive; C's slice count and the GPIO shadow start over. No other
/// task's memory and nothing in the kernel changes.
pub proof fn law_entry_points(s: SystemView, idx: usize, i: int)
    requires
        idx <= 5,
        0 <= i < 32,
    ensures
        ({
            let s1 = system::entered(s, idx);
            &&& s1.k == s.k
            &&& s1.a.phase == if idx == 0 {
                PhaseA::Call
            } else {
                s.a.phase
            }
            &&& s1.a.count == s.a.count
            &&& s1.b.phase == if idx == 1 {
                PhaseB::Recv
            } else {
                s.b.phase
            }
            &&& s1.b.exchanges == s.b.exchanges && s1.b.last_ping == s.b.last_ping
            &&& idx == 2 ==> s1.c.phase == PhaseC::Count && s1.c.slices == 0
            &&& idx != 2 ==> s1.c == s.c
            &&& idx == 3 ==> !s1.gpio.outputs[i] && !s1.gpio.levels[i]
            &&& idx != 3 ==> s1.gpio == s.gpio
            &&& s1.led.phase == if idx == 4 {
                PhaseLed::Init
            } else {
                s.led.phase
            }
            &&& s1.led.state == s.led.state && s1.led.req == s.led.req
        }),
{
}

/// **A restart of the system restarts the kernel's task and enters it.**
pub proof fn law_system_restart(s: SystemView, idx: usize)
    requires
        idx <= 5,
    ensures
        system::restarted(s, idx).k == protocol::request_restart(s.k, idx),
        system::restarted(s, idx) == (SystemView {
            k: protocol::request_restart(s.k, idx),
            ..system::entered(s, idx)
        }),
{
}

/// **At boot every task is in its first phase** and has counted nothing; all pins
/// are inputs and the LED is off.
pub proof fn law_system_boot(entries: Seq<u32>, stacks: Seq<u32>, i: int)
    requires
        0 <= i < 32,
    ensures
        ({
            let s = system::booted(entries, stacks);
            &&& s.k == task::initialized(task::power_up(entries), stacks)
            &&& s.a.phase == PhaseA::Call && s.a.count == 0
            &&& s.b.phase == PhaseB::Recv && s.b.exchanges == 0 && s.b.last_ping.len() == 0
            &&& s.c.phase == PhaseC::Count && s.c.slices == 0
            &&& !s.gpio.outputs[i] && !s.gpio.levels[i]
            &&& s.led.phase == PhaseLed::Init && s.led.req == 0 && s.led.state == 0
        }),
{
}

/// **The system is seen as it is,** B's remembered ping being the first bytes of
/// its buffer, and is well formed if its kernel is and that ping fits.
pub proof fn law_system_seen_as_it_is(s: System)
    ensures
        s@.k == s.kernel@,
        s@.a == s.a,
        s@.b.phase == s.b.phase,
        s@.b.exchanges == s.b.exchanges,
        s.b.last_ping_len <= 64 ==> s@.b.last_ping.len() == s.b.last_ping_len,
        s.b.last_ping_len <= 64 ==> forall|i: int|
            0 <= i < s.b.last_ping_len ==> #[trigger] s@.b.last_ping[i] == s.b.last_ping@[i],
        s@.c == s.c,
        s@.gpio.outputs == gpio::bits(s.gpio.dirs),
        s@.gpio.levels == gpio::bits(s.gpio.levels),
        s@.led == s.led,
        s.wf() <==> s.kernel.wf() && s.b.last_ping_len <= 64 && (s.b.phase == PhaseB::Reply
            ==> s.b.last_ping_len >= 5),
{
}

} // verus!
