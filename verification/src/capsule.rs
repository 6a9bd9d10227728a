//! Driver capsules: the GPIO, LED and UART tasks.
//!
//! Each capsule owns one peripheral exclusively; every access goes through
//! synchronous IPC to its endpoint. The LED capsule owns no hardware: it is a
//! client of the other two.

use vstd::prelude::*;

use crate::gpio;
use crate::gpio::{
    Gpio, GpioView, GPIO_OK, OP_CLEAR, OP_CONFIGURE, OP_SET, OP_TOGGLE,
};
use crate::ipc;
use crate::ipc::{
    CallResult, IpcError, RecvResult, ReplyResult, EP_GPIO, EP_LED, EP_UART, MSG_MAX,
};
use crate::mmio::{RegWrite, WriteList};
use crate::protocol;
use crate::protocol::KernelView;
use crate::slice;
use crate::slice::{Bug, SliceEnd};
use crate::task::Kernel;
use crate::text;

verus! {

// ---------------------------------------------------------------------------
// GPIO capsule
// ---------------------------------------------------------------------------

/// One slice of the GPIO capsule, given the input register. Besides the states
/// it gives the register writes.
pub open spec fn slice_gpio(k: KernelView, g: GpioView, gpio_in: u32) -> (
    KernelView,
    GpioView,
    Seq<RegWrite>,
    SliceEnd,
) {
    let (k1, res, buf) = protocol::recv(k, EP_GPIO, slice::zeros());
    match res {
        RecvResult::Received(len) => {
            let (g1, rep, writes) = gpio::handled(g, buf.take(len as int), gpio_in);
            let (k2, replied) = protocol::reply(k1, rep);
            match replied {
                ReplyResult::Replied => (k2, g1, writes, SliceEnd::Yield),
                ReplyResult::Failed(e) => (k2, g1, writes, SliceEnd::Panic(Bug::Reply(e))),
            }
        },
        RecvResult::Blocked => (k1, g, Seq::empty(), SliceEnd::Yield),
        RecvResult::Failed(e) => (k1, g, Seq::empty(), SliceEnd::Panic(Bug::Recv(e))),
    }
}

/// GPIO capsule: owns the GPIO peripheral. A pure server: receive, handle,
/// reply; never an IPC client. `gpio_in` is the input register as read now.
pub fn task_gpio(k: &mut Kernel, g: &mut Gpio, gpio_in: u32) -> (r: (SliceEnd, WriteList))
    requires
        old(k).wf(),
    ensures
        final(k).wf(),
        r.1.wf(),
        (final(k)@, final(g)@, r.1@, r.0) == slice_gpio(old(k)@, old(g)@, gpio_in),
{
    let mut rbuf = [0u8; MSG_MAX];
    assert(rbuf@ =~= slice::zeros());
    match ipc::recv(k, EP_GPIO, &mut rbuf) {
        RecvResult::Received(rlen) => {
            let req: &[u8] = &rbuf;
            let h = gpio::gpio_handle(g, &req[0..rlen], gpio_in);
            let rep: &[u8] = &h.reply;
            match ipc::reply(k, &rep[0..h.len]) {
                ReplyResult::Replied => (SliceEnd::Yield, h.writes),
                ReplyResult::Failed(e) => (SliceEnd::Panic(Bug::Reply(e)), h.writes),
            }
        },
        RecvResult::Blocked => (SliceEnd::Yield, WriteList::none()),
        RecvResult::Failed(e) => (SliceEnd::Panic(Bug::Recv(e)), WriteList::none()),
    }
}

impl Gpio {
    /// Fresh start: all pins inputs, which is the honest state after a fault.
    pub fn enter(&mut self)
        ensures
            final(self)@ == gpio::all_inputs(),
    {
        *self = Gpio::new();
    }
}

// ---------------------------------------------------------------------------
// LED capsule
// ---------------------------------------------------------------------------

/// The LED pin: a safe general-purpose pin (not strapping, not USB serial/JTAG).
pub const LED_PIN: u8 = 8;

/// LED on: ASCII `+`.
pub const LED_ON: u8 = 0x2B;

/// LED off: ASCII `-`.
pub const LED_OFF: u8 = 0x2D;

/// Toggle the LED: ASCII `^`.
pub const LED_TOGGLE: u8 = 0x5E;

/// The status byte of a refused LED request.
pub const LED_BAD_REQ: u8 = 1;

#[derive(Debug, Clone, Copy, PartialEq, Eq, Structural)]
pub enum PhaseLed {
    /// (Re)configure the LED pin as output through the GPIO capsule.
    Init,
    /// Serve requests.
    Serve,
    /// A GPIO op is outstanding for the saved request.
    Gpio,
    /// Log the new state through the UART capsule, then reply.
    Log,
}

/// What the LED capsule remembers.
#[derive(Debug, Clone, Copy, PartialEq, Eq, Structural)]
pub struct Led {
    pub phase: PhaseLed,
    pub req: u8,
    /// 0 = off, 1 = on: the state after the last completed op.
    pub state: u8,
}

/// A request that the LED capsule serves.
pub open spec fn is_led_request(m: Seq<u8>) -> bool {
    m.len() == 1 && (m[0] == LED_ON || m[0] == LED_OFF || m[0] == LED_TOGGLE)
}

/// The GPIO operation for an LED request.
pub open spec fn gpio_op(req: u8) -> u8 {
    if req == LED_ON {
        OP_SET
    } else if req == LED_OFF {
        OP_CLEAR
    } else {
        OP_TOGGLE
    }
}

/// The GPIO capsule's answer to operation `op` reports success, with a level
/// where there is one to report.
pub open spec fn gpio_done(op: u8, rep: Seq<u8>) -> bool {
    &&& rep.len() >= 1
    &&& rep[0] == GPIO_OK
    &&& op == OP_TOGGLE ==> rep.len() >= 2
}

/// The line that logs the LED's state.
pub open spec fn led_line(state: u8) -> Seq<u8> {
    if state == 1 {
        text::ascii("[led] on\n"@)
    } else {
        text::ascii("[led] off\n"@)
    }
}

/// What a failed call of the LED capsule means: a dead partner is retried, any
/// other failure is a bug.
pub open spec fn retried(e: IpcError, bug: Bug) -> SliceEnd {
    if e == IpcError::PartnerFaulted {
        SliceEnd::Yield
    } else {
        SliceEnd::Panic(bug)
    }
}

/// One slice of the LED capsule.
pub open spec fn slice_led(k: KernelView, l: Led) -> (KernelView, Led, SliceEnd) {
    match l.phase {
        PhaseLed::Init => {
            let (k1, res, buf) = protocol::call(
                k,
                EP_GPIO,
                seq![OP_CONFIGURE, LED_PIN, 1u8],
                slice::zeros(),
            );
            match res {
                CallResult::Replied(len) => if len < 1 || buf[0] != GPIO_OK {
                    (k1, l, SliceEnd::Panic(Bug::GpioConfigure))
                } else {
                    (k1, Led { phase: PhaseLed::Serve, state: 0, ..l }, SliceEnd::Yield)
                },
                CallResult::Blocked => (k1, l, SliceEnd::Yield),
                CallResult::Failed(e) => (k1, l, retried(e, Bug::GpioCall(e))),
            }
        },
        PhaseLed::Serve => {
            let (k1, res, buf) = protocol::recv(k, EP_LED, slice::zeros());
            match res {
                RecvResult::Received(len) => {
                    let m = buf.take(len as int);
                    if is_led_request(m) {
                        (k1, Led { phase: PhaseLed::Gpio, req: m[0], ..l }, SliceEnd::Yield)
                    } else {
                        let (k2, replied) = protocol::reply(k1, seq![LED_BAD_REQ]);
                        match replied {
                            ReplyResult::Replied => (k2, l, SliceEnd::Yield),
                            // The sender wasn't waiting for a reply.
                            ReplyResult::Failed(e) => if e == IpcError::NoPartner {
                                (k2, l, SliceEnd::Yield)
                            } else {
                                (k2, l, SliceEnd::Panic(Bug::ErrorReply(e)))
                            },
                        }
                    }
                },
                RecvResult::Blocked => (k1, l, SliceEnd::Yield),
                RecvResult::Failed(e) => (k1, l, SliceEnd::Panic(Bug::Recv(e))),
            }
        },
        PhaseLed::Gpio => {
            let op = gpio_op(l.req);
            let (k1, res, buf) = protocol::call(k, EP_GPIO, seq![op, LED_PIN], slice::zeros());
            match res {
                CallResult::Replied(len) => if gpio_done(op, buf.take(len as int)) {
                    let state = if l.req == LED_ON {
                        1
                    } else if l.req == LED_OFF {
                        0
                    } else {
                        buf[1]
                    };
                    (k1, Led { phase: PhaseLed::Log, state, ..l }, SliceEnd::Yield)
                } else {
                    (k1, l, SliceEnd::Panic(Bug::GpioOp))
                },
                CallResult::Blocked => (k1, l, SliceEnd::Yield),
                CallResult::Failed(e) => (k1, l, retried(e, Bug::GpioCall(e))),
            }
        },
        PhaseLed::Log => {
            let (k1, res, buf) = protocol::call(k, EP_UART, led_line(l.state), slice::zeros());
            match res {
                CallResult::Replied(len) => {
                    let (k2, replied) = protocol::reply(k1, seq![0u8, l.state]);
                    match replied {
                        ReplyResult::Replied => (
                            k2,
                            Led { phase: PhaseLed::Serve, ..l },
                            SliceEnd::Yield,
                        ),
                        ReplyResult::Failed(e) => (k2, l, SliceEnd::Panic(Bug::Reply(e))),
                    }
                },
                CallResult::Blocked => (k1, l, SliceEnd::Yield),
                CallResult::Failed(e) => (k1, l, retried(e, Bug::UartCall(e))),
            }
        },
    }
}

impl Led {
    pub fn new() -> (l: Self)
        ensures
            l == (Led { phase: PhaseLed::Init, req: 0, state: 0 }),
    {
        Led { phase: PhaseLed::Init, req: 0, state: 0 }
    }

    /// Fresh start: configure the pin again.
    pub fn enter(&mut self)
        ensures
            *final(self) == (Led { phase: PhaseLed::Init, ..*old(self) }),
    {
        self.phase = PhaseLed::Init;
    }
}

/// A dead partner is retried, any other failure is a bug.
fn retry_or(e: IpcError, bug: Bug) -> (end: SliceEnd)
    ensures
        end == retried(e, bug),
{
    if e == IpcError::PartnerFaulted {
        SliceEnd::Yield
    } else {
        SliceEnd::Panic(bug)
    }
}

/// LED capsule: drives the LED pin through the GPIO capsule and logs state
/// changes through the UART capsule. Restart-tolerant: a dead partner is retried
/// in the same, idempotent phase.
pub fn task_led(k: &mut Kernel, l: &mut Led) -> (end: SliceEnd)
    requires
        old(k).wf(),
    ensures
        final(k).wf(),
        (final(k)@, *final(l), end) == slice_led(old(k)@, *old(l)),
{
    let mut rbuf = [0u8; MSG_MAX];
    assert(rbuf@ =~= slice::zeros());
    match l.phase {
        PhaseLed::Init => {
            let req = [OP_CONFIGURE, LED_PIN, 1u8];
            assert(req@ =~= seq![OP_CONFIGURE, LED_PIN, 1u8]);
            match ipc::call(k, EP_GPIO, &req, &mut rbuf) {
                CallResult::Replied(rlen) => {
                    if rlen < 1 || rbuf[0] != GPIO_OK {
                        return SliceEnd::Panic(Bug::GpioConfigure);
                    }
                    l.state = 0;
                    l.phase = PhaseLed::Serve;
                    SliceEnd::Yield
                },
                CallResult::Blocked => SliceEnd::Yield,
                CallResult::Failed(e) => retry_or(e, Bug::GpioCall(e)),
            }
        },
        PhaseLed::Serve => {
            match ipc::recv(k, EP_LED, &mut rbuf) {
                RecvResult::Received(rlen) => {
                    if rlen == 1 && (rbuf[0] == LED_ON || rbuf[0] == LED_OFF || rbuf[0]
                        == LED_TOGGLE) {
                        l.req = rbuf[0];
                        l.phase = PhaseLed::Gpio;
                        return SliceEnd::Yield;
                    }
                    // Bad request: honest error reply, keep serving.
                    let rep = [LED_BAD_REQ];
                    assert(rep@ =~= seq![LED_BAD_REQ]);
                    match ipc::reply(k, &rep) {
                        ReplyResult::Replied => SliceEnd::Yield,
                        ReplyResult::Failed(e) => {
                            // The sender wasn't waiting for a reply: drop it.
                            if e == IpcError::NoPartner {
                                SliceEnd::Yield
                            } else {
                                SliceEnd::Panic(Bug::ErrorReply(e))
                            }
                        },
                    }
                },
                RecvResult::Blocked => SliceEnd::Yield,
                RecvResult::Failed(e) => SliceEnd::Panic(Bug::Recv(e)),
            }
        },
        PhaseLed::Gpio => {
            // Map the LED op onto the GPIO op. The last arm is `^`: `Serve` only
            // admits `+`, `-`, `^`.
            let op: u8 = if l.req == LED_ON {
                OP_SET
            } else if l.req == LED_OFF {
                OP_CLEAR
            } else {
                OP_TOGGLE
            };
            let req = [op, LED_PIN];
            assert(req@ =~= seq![op, LED_PIN]);
            match ipc::call(k, EP_GPIO, &req, &mut rbuf) {
                CallResult::Replied(rlen) => {
                    let ok = rlen >= 1 && rbuf[0] == GPIO_OK && (op != OP_TOGGLE || rlen >= 2);
                    if !ok {
                        return SliceEnd::Panic(Bug::GpioOp);
                    }
                    l.state = if l.req == LED_ON {
                        1
                    } else if l.req == LED_OFF {
                        0
                    } else {
                        rbuf[1]
                    };
                    l.phase = PhaseLed::Log;
                    SliceEnd::Yield
                },
                CallResult::Blocked => SliceEnd::Yield,
                // No reply sent yet, so the GPIO op simply runs again.
                CallResult::Failed(e) => retry_or(e, Bug::GpioCall(e)),
            }
        },
        PhaseLed::Log => {
            proof {
                reveal_strlit("[led] on\n");
                reveal_strlit("[led] off\n");
            }
            let line: &[u8] = if l.state == 1 {
                text::bytes("[led] on\n")
            } else {
                text::bytes("[led] off\n")
            };
            match ipc::call(k, EP_UART, line, &mut rbuf) {
                CallResult::Replied(_) => {
                    let rep = [0u8, l.state];
                    assert(rep@ =~= seq![0u8, l.state]);
                    match ipc::reply(k, &rep) {
                        ReplyResult::Replied => {
                            l.phase = PhaseLed::Serve;
                            SliceEnd::Yield
                        },
                        ReplyResult::Failed(e) => SliceEnd::Panic(Bug::Reply(e)),
                    }
                },
                CallResult::Blocked => SliceEnd::Yield,
                // No reply was sent, so the line was not printed: retry.
                CallResult::Failed(e) => retry_or(e, Bug::UartCall(e)),
            }
        },
    }
}

// ---------------------------------------------------------------------------
// UART capsule
// ---------------------------------------------------------------------------

/// Bytes for UART0.
#[derive(Debug, Clone, Copy)]
pub struct Output {
    pub bytes: [u8; MSG_MAX],
    /// How many of `bytes` count.
    pub len: usize,
}

impl View for Output {
    type V = Seq<u8>;

    open spec fn view(&self) -> Seq<u8> {
        self.bytes@.take(self.len as int)
    }
}

impl Output {
    pub open spec fn wf(self) -> bool {
        self.len <= MSG_MAX
    }

    /// No output.
    pub fn none() -> (o: Self)
        ensures
            o.wf(),
            o@ == Seq::<u8>::empty(),
    {
        let o = Output { bytes: [0; MSG_MAX], len: 0 };
        assert(o@ =~= Seq::<u8>::empty());
        o
    }
}

/// One slice of the UART capsule. Besides the kernel it gives the bytes to put
/// out. The reply is made in the slice; the bytes go out right after it, before
/// any other task runs.
pub open spec fn slice_uart(k: KernelView) -> (KernelView, Seq<u8>, SliceEnd) {
    let (k1, res, buf) = protocol::recv(k, EP_UART, slice::zeros());
    match res {
        RecvResult::Received(len) => {
            let (k2, replied) = protocol::reply(k1, seq![len as u8]);
            match replied {
                ReplyResult::Replied => (k2, buf.take(len as int), SliceEnd::Yield),
                ReplyResult::Failed(e) => (
                    k2,
                    buf.take(len as int),
                    SliceEnd::Panic(Bug::Reply(e)),
                ),
            }
        },
        RecvResult::Blocked => (k1, Seq::empty(), SliceEnd::Yield),
        RecvResult::Failed(e) => (k1, Seq::empty(), SliceEnd::Panic(Bug::Recv(e))),
    }
}

/// UART capsule: owns UART0. All task output flows through it: receive a line,
/// put it out, reply with the byte count. Never an IPC client.
pub fn task_uart(k: &mut Kernel) -> (r: (SliceEnd, Output))
    requires
        old(k).wf(),
    ensures
        final(k).wf(),
        r.1.wf(),
        (final(k)@, r.1@, r.0) == slice_uart(old(k)@),
{
    let mut rbuf = [0u8; MSG_MAX];
    assert(rbuf@ =~= slice::zeros());
    match ipc::recv(k, EP_UART, &mut rbuf) {
        RecvResult::Received(rlen) => {
            let out = Output { bytes: rbuf, len: rlen };
            let rep = [rlen as u8];
            assert(rep@ =~= seq![rlen as u8]);
            match ipc::reply(k, &rep) {
                ReplyResult::Replied => (SliceEnd::Yield, out),
                ReplyResult::Failed(e) => (SliceEnd::Panic(Bug::Reply(e)), out),
            }
        },
        RecvResult::Blocked => (SliceEnd::Yield, Output::none()),
        RecvResult::Failed(e) => (SliceEnd::Panic(Bug::Recv(e)), Output::none()),
    }
}

} // verus!
