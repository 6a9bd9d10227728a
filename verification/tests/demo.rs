//! The six tasks, alone and together.

use tallow::capsule::{task_gpio, task_led, task_uart, Led, PhaseLed};
use tallow::demo::{task_a, task_b, task_c, PhaseA, PhaseB, PhaseC, TaskA, TaskB, TaskC};
use tallow::gpio::Gpio;
use tallow::ipc::{
    call, notify, recv, reply, send, CallResult, IpcError, NotifyResult, RecvResult, ReplyResult,
    SendResult, EP_GPIO, EP_LED, EP_PING, EP_UART, MSG_MAX, N_TASKS, TASK_A, TASK_B, TASK_C,
    TASK_GPIO, TASK_LED, TASK_UART,
};
use tallow::mmio::RegWrite;
use tallow::sched::{run, RunAction, Sched};
use tallow::slice::{Bug, SliceEnd};
use tallow::system::System;
use tallow::task::{Kernel, TaskState};

fn kernel() -> Kernel {
    Kernel::new(&[0; N_TASKS])
}

fn system() -> System {
    System::boot(&[0x4037_0000; N_TASKS], &[0x3FC9_0000; N_TASKS])
}

/// A line of output with the tick in which it came.
type Line = (u32, String);

struct Machine {
    system: System,
    sched: Sched,
    lines: Vec<Line>,
    writes: Vec<RegWrite>,
    /// The level of the LED pin at each of the LED's lines.
    pin_levels: Vec<bool>,
    /// Faults: the exchange under way and the restart count.
    faults: Vec<(u32, u32)>,
    /// Tasks whose entry point is to run at their next resume.
    to_enter: [bool; N_TASKS],
}

impl Machine {
    fn new() -> Self {
        Machine {
            system: system(),
            sched: Sched::new(),
            lines: Vec::new(),
            writes: Vec::new(),
            pin_levels: Vec::new(),
            faults: Vec::new(),
            to_enter: [false; N_TASKS],
        }
    }

    fn tick(&mut self) {
        let mut tick = true;
        loop {
            match run(&mut self.system.kernel, &mut self.sched, tick) {
                RunAction::Poll => panic!("polled within a round"),
                RunAction::Report { .. } => return,
                RunAction::Resume(idx) => self.resume(idx),
            }
            tick = false;
        }
    }

    fn resume(&mut self, idx: usize) {
        if self.to_enter[idx] {
            self.to_enter[idx] = false;
            self.system.enter(idx);
        }
        let out = self.system.slice(0);
        self.writes.extend_from_slice(&out.writes.items[..out.writes.len]);
        if out.output.len > 0 {
            let text = String::from_utf8(out.output.bytes[..out.output.len].to_vec()).unwrap();
            if text.starts_with("[led]") {
                self.pin_levels.push(self.system.gpio.levels & 0x100 != 0);
            }
            self.lines.push((self.sched.ticks, text));
        }
        match out.end {
            SliceEnd::Yield => {}
            SliceEnd::Fault => {
                let count = self.system.restart(idx);
                self.faults.push((self.system.a.count, count));
            }
            SliceEnd::Panic(bug) => panic!("task {}: {:?}", idx, bug),
        }
        assert!(self.system.kernel.tasks.iter().any(|t| t.state == TaskState::Ready));
    }

    fn with_prefix(&self, prefix: &str) -> Vec<Line> {
        self.lines.iter().filter(|l| l.1.starts_with(prefix)).cloned().collect()
    }
}

#[test]
fn exchanges_are_reported_in_sequence() {
    let mut m = Machine::new();
    for _ in 0..4000 {
        m.tick();
    }
    let ipc = m.with_prefix("[ipc ");
    assert!(ipc.len() > 600);
    for (n, line) in ipc.iter().enumerate() {
        assert_eq!(line.1, format!("[ipc {:04}] ping -> pong\n", n));
    }
    assert_eq!(ipc.len() + m.with_prefix("[led] ").len(), m.lines.len());
}

#[test]
fn an_exchange_takes_six_ticks() {
    let mut m = Machine::new();
    for _ in 0..1801 {
        m.tick();
    }
    let ticks: Vec<u32> = m.with_prefix("[ipc ").iter().map(|l| l.0).collect();
    let mut expected: Vec<u32> = (0..299).map(|n| 4 + 6 * n).collect();
    // The exchange in which B faults is retried: three ticks more.
    expected.push(1801);
    assert_eq!(ticks, expected);
}

#[test]
fn b_faults_on_schedule_and_no_exchange_is_lost() {
    let mut m = Machine::new();
    for _ in 0..6800 {
        m.tick();
    }
    assert_eq!(m.faults, vec![(299, 1), (698, 2), (1097, 3)]);
    assert_eq!(m.system.kernel.restarts, [0, 3, 0, 0, 0, 0]);
    let ipc = m.with_prefix("[ipc ");
    assert!(ipc.len() > 1100);
    for (n, line) in ipc.iter().enumerate() {
        assert_eq!(line.1, format!("[ipc {:04}] ping -> pong\n", n));
    }
}

#[test]
fn entry_points_change_nothing_at_the_first_resume() {
    let mut plain = Machine::new();
    let mut entering = Machine::new();
    entering.to_enter = [true; N_TASKS];
    for _ in 0..2500 {
        let faults = entering.faults.len();
        plain.tick();
        entering.tick();
        if entering.faults.len() > faults {
            entering.to_enter[TASK_B] = true;
        }
    }
    assert_eq!(entering.faults, vec![(299, 1)]);
    assert_eq!(entering.to_enter, [false; N_TASKS]);
    assert_eq!(plain.lines, entering.lines);
    assert_eq!(plain.writes, entering.writes);
    assert_eq!(plain.system.gpio, entering.system.gpio);
}

#[test]
fn the_led_blinks() {
    let mut m = Machine::new();
    for _ in 0..1100 {
        m.tick();
    }
    let led = m.with_prefix("[led] ");
    assert_eq!(led[0], (204, String::from("[led] on\n")));
    assert_eq!(led[1], (410, String::from("[led] off\n")));
    for (n, line) in led.iter().enumerate() {
        let text = if n % 2 == 0 { "[led] on\n" } else { "[led] off\n" };
        assert_eq!(line.1, text);
    }
    assert_eq!(led.len(), 5);
    // The lines tell at which level the pin is driven.
    assert_eq!(m.pin_levels, vec![true, false, true, false, true]);
    // The pin was configured once and then toggled.
    let configured = vec![
        RegWrite { addr: 0x6000_8020, value: 0x1000 },
        RegWrite { addr: 0x6000_4024, value: 0x100 },
        RegWrite { addr: 0x6000_4008, value: 0x100 },
    ];
    assert_eq!(m.writes[..3], configured[..]);
    assert_eq!(m.writes[3], RegWrite { addr: 0x6000_4004, value: 0x100 });
    assert_eq!(m.writes[4], RegWrite { addr: 0x6000_4008, value: 0x100 });
    assert_eq!(m.writes.len(), 8);
}

#[test]
fn servers_may_die_at_any_time() {
    for victim in [TASK_B, TASK_GPIO, TASK_UART] {
        let mut m = Machine::new();
        for n in 0..1500u32 {
            m.tick();
            if n % 7 == 3 {
                m.system.restart(victim);
            }
        }
        let ipc = m.with_prefix("[ipc ");
        assert!(ipc.len() > 100);
        for (n, line) in ipc.iter().enumerate() {
            assert_eq!(line.1, format!("[ipc {:04}] ping -> pong\n", n));
        }
    }
}

#[test]
fn a_task_may_die_whenever_it_could_run() {
    for victim in 0..N_TASKS {
        let mut m = Machine::new();
        for n in 0..3000u32 {
            m.tick();
            if n % 7 == 3 && m.system.kernel.tasks[victim].state == TaskState::Ready {
                m.system.restart(victim);
            }
        }
        assert!(m.system.kernel.restarts[victim] > 0);
        // An A that died before it saw its line printed prints it again; nothing
        // is left out.
        let numbers: Vec<u32> =
            m.with_prefix("[ipc ").iter().map(|l| l.1[5..9].parse().unwrap()).collect();
        assert!(numbers.len() > 100);
        assert_eq!(numbers[0], 0);
        for pair in numbers.windows(2) {
            assert!(pair[1] == pair[0] + 1 || (victim == TASK_A && pair[1] == pair[0]));
        }
    }
}

#[test]
fn the_system_boots_with_everybody_ready() {
    let s = system();
    assert!(s.kernel.tasks.iter().all(|t| t.state == TaskState::Ready && t.op.is_none()));
    assert_eq!(s.kernel.tasks[0].stack_top, 0x3FC9_1000);
    assert_eq!(s.a, TaskA { phase: PhaseA::Call, count: 0 });
    assert_eq!((s.b.phase, s.b.exchanges), (PhaseB::Recv, 0));
    assert_eq!(s.c, TaskC { phase: PhaseC::Count, slices: 0 });
    assert_eq!(s.gpio, Gpio { dirs: 0, levels: 0 });
    assert_eq!(s.led, Led { phase: PhaseLed::Init, req: 0, state: 0 });
}

#[test]
fn entry_points_keep_what_must_survive() {
    let mut s = system();
    s.a = TaskA { phase: PhaseA::Wait, count: 9 };
    s.b.phase = PhaseB::Reply;
    s.b.last_ping_len = 6;
    s.b.exchanges = 5;
    s.c = TaskC { phase: PhaseC::Toggle, slices: 3 };
    s.gpio = Gpio { dirs: 1, levels: 1 };
    s.led = Led { phase: PhaseLed::Log, req: 0x2B, state: 1 };
    for idx in 0..N_TASKS {
        s.enter(idx);
    }
    assert_eq!(s.a, TaskA { phase: PhaseA::Call, count: 9 });
    assert_eq!((s.b.phase, s.b.exchanges), (PhaseB::Recv, 5));
    assert_eq!(s.c, TaskC { phase: PhaseC::Count, slices: 0 });
    assert_eq!(s.gpio, Gpio { dirs: 0, levels: 0 });
    assert_eq!(s.led, Led { phase: PhaseLed::Init, req: 0x2B, state: 1 });
}

// Task A

/// B takes A's ping.
fn b_takes(k: &mut Kernel) -> Vec<u8> {
    let mut out = [0u8; MSG_MAX];
    k.current = TASK_B;
    match recv(k, EP_PING, &mut out) {
        RecvResult::Received(n) => out[..n].to_vec(),
        other => panic!("{:?}", other),
    }
}

#[test]
fn a_pings_prints_and_waits() {
    let mut k = kernel();
    let mut a = TaskA { phase: PhaseA::Call, count: 41 };
    assert_eq!(task_a(&mut k, &mut a), SliceEnd::Yield);
    assert_eq!(a.phase, PhaseA::Call);
    assert_eq!(b_takes(&mut k), b"ping 41".to_vec());
    assert_eq!(notify(&mut k, TASK_A, 1), NotifyResult::Notified);
    assert_eq!(reply(&mut k, b"pong 41"), ReplyResult::Replied);
    k.current = TASK_A;
    assert_eq!(task_a(&mut k, &mut a), SliceEnd::Yield);
    assert_eq!(a, TaskA { phase: PhaseA::Print, count: 41 });
    assert_eq!(task_a(&mut k, &mut a), SliceEnd::Yield);
    k.current = TASK_UART;
    let (end, output) = task_uart(&mut k);
    assert_eq!(end, SliceEnd::Yield);
    assert_eq!(&output.bytes[..output.len], b"[ipc 0041] ping -> pong\n");
    k.current = TASK_A;
    assert_eq!(task_a(&mut k, &mut a), SliceEnd::Yield);
    assert_eq!(a, TaskA { phase: PhaseA::Wait, count: 42 });
    assert_eq!(task_a(&mut k, &mut a), SliceEnd::Yield);
    assert_eq!(a, TaskA { phase: PhaseA::Call, count: 42 });
}

#[test]
fn a_panics_on_a_wrong_pong() {
    for answer in [&b"pong 42"[..], b"pong 411", b"ping 41", b""] {
        let mut k = kernel();
        let mut a = TaskA { phase: PhaseA::Call, count: 41 };
        assert_eq!(task_a(&mut k, &mut a), SliceEnd::Yield);
        b_takes(&mut k);
        assert_eq!(reply(&mut k, answer), ReplyResult::Replied);
        k.current = TASK_A;
        assert_eq!(task_a(&mut k, &mut a), SliceEnd::Panic(Bug::BadReply(41)));
    }
}

#[test]
fn a_retries_when_b_dies() {
    let mut k = kernel();
    let mut a = TaskA { phase: PhaseA::Call, count: 3 };
    assert_eq!(task_a(&mut k, &mut a), SliceEnd::Yield);
    b_takes(&mut k);
    tallow::sched::request_restart(&mut k, TASK_B);
    k.current = TASK_A;
    assert_eq!(task_a(&mut k, &mut a), SliceEnd::Yield);
    assert_eq!(a, TaskA { phase: PhaseA::Call, count: 3 });
    assert_eq!(task_a(&mut k, &mut a), SliceEnd::Yield);
    assert_eq!(b_takes(&mut k), b"ping 3".to_vec());
}

#[test]
fn a_panics_when_it_is_busy() {
    let mut k = kernel();
    let mut out = [0u8; MSG_MAX];
    assert_eq!(recv(&mut k, EP_PING, &mut out), RecvResult::Blocked);
    for (phase, bug) in [
        (PhaseA::Call, Bug::Call(IpcError::Busy)),
        (PhaseA::Print, Bug::UartCall(IpcError::Busy)),
        (PhaseA::Wait, Bug::Wait(IpcError::Busy)),
    ] {
        let mut a = TaskA { phase, count: 0 };
        assert_eq!(task_a(&mut k, &mut a), SliceEnd::Panic(bug));
    }
}

#[test]
fn a_waits_for_its_notification() {
    let mut k = kernel();
    let mut a = TaskA { phase: PhaseA::Wait, count: 1 };
    assert_eq!(task_a(&mut k, &mut a), SliceEnd::Yield);
    assert_eq!(a.phase, PhaseA::Wait);
    assert_eq!(k.tasks[TASK_A].state, TaskState::Blocked);
}

#[test]
fn the_count_wraps() {
    let mut k = kernel();
    let mut a = TaskA { phase: PhaseA::Print, count: u32::MAX };
    assert_eq!(task_a(&mut k, &mut a), SliceEnd::Yield);
    k.current = TASK_UART;
    let (_, output) = task_uart(&mut k);
    assert_eq!(&output.bytes[..output.len], b"[ipc 4294967295] ping -> pong\n");
    k.current = TASK_A;
    assert_eq!(task_a(&mut k, &mut a), SliceEnd::Yield);
    assert_eq!(a, TaskA { phase: PhaseA::Wait, count: 0 });
}

// Task B

fn a_calls(k: &mut Kernel, msg: &[u8]) {
    let mut out = [0u8; MSG_MAX];
    k.current = TASK_A;
    assert_eq!(call(k, EP_PING, msg, &mut out), CallResult::Blocked);
    k.current = TASK_B;
}

#[test]
fn b_answers_with_the_same_number() {
    let mut k = kernel();
    let mut b = TaskB::new();
    a_calls(&mut k, b"ping 12345");
    assert_eq!(task_b(&mut k, &mut b), SliceEnd::Yield);
    assert_eq!(b.phase, PhaseB::Reply);
    assert_eq!(task_b(&mut k, &mut b), SliceEnd::Yield);
    assert_eq!((b.phase, b.exchanges), (PhaseB::Recv, 1));
    assert_eq!(k.tasks[TASK_A].pending, 1);
    k.current = TASK_A;
    let mut out = [0u8; MSG_MAX];
    assert_eq!(call(&mut k, EP_PING, b"", &mut out), CallResult::Replied(10));
    assert_eq!(&out[..10], b"pong 12345");
}

#[test]
fn b_panics_on_a_malformed_ping() {
    for (msg, len) in [(&b"ping"[..], 4), (b"pong 1", 6), (b"", 0), (b"Ping 1", 6)] {
        let mut k = kernel();
        let mut b = TaskB::new();
        a_calls(&mut k, msg);
        assert_eq!(task_b(&mut k, &mut b), SliceEnd::Panic(Bug::MalformedPing(len)));
    }
}

#[test]
fn b_faults_in_every_four_hundredth_exchange() {
    for (before, faults) in [(0, false), (298, false), (299, true), (300, false), (698, false), (699, true), (1099, true)] {
        let mut k = kernel();
        let mut b = TaskB::new();
        b.exchanges = before;
        a_calls(&mut k, b"ping 0");
        assert_eq!(task_b(&mut k, &mut b), SliceEnd::Yield);
        let end = task_b(&mut k, &mut b);
        assert_eq!(end, if faults { SliceEnd::Fault } else { SliceEnd::Yield });
        assert_eq!(b.exchanges, before + 1);
        // A faulting B has neither notified nor replied.
        assert_eq!(k.tasks[TASK_A].pending, if faults { 0 } else { 1 });
        assert_eq!(k.tasks[TASK_A].state == TaskState::Blocked, faults);
    }
}

#[test]
fn b_panics_when_the_caller_is_gone_or_it_is_busy() {
    let mut k = kernel();
    let mut b = TaskB::new();
    k.current = TASK_A;
    assert_eq!(send(&mut k, EP_PING, b"ping 1"), SendResult::Blocked);
    k.current = TASK_B;
    assert_eq!(task_b(&mut k, &mut b), SliceEnd::Yield);
    assert_eq!(task_b(&mut k, &mut b), SliceEnd::Panic(Bug::Reply(IpcError::NoPartner)));
    let mut k = kernel();
    k.current = TASK_B;
    let mut b = TaskB::new();
    assert_eq!(send(&mut k, EP_LED, b"x"), SendResult::Blocked);
    assert_eq!(task_b(&mut k, &mut b), SliceEnd::Panic(Bug::Recv(IpcError::Busy)));
}

// Task C

#[test]
fn c_toggles_after_two_hundred_slices() {
    let mut k = kernel();
    k.current = TASK_C;
    let mut c = TaskC::new();
    for n in 1..200 {
        assert_eq!(task_c(&mut k, &mut c), SliceEnd::Yield);
        assert_eq!(c, TaskC { phase: PhaseC::Count, slices: n });
    }
    assert_eq!(task_c(&mut k, &mut c), SliceEnd::Yield);
    assert_eq!(c, TaskC { phase: PhaseC::Toggle, slices: 0 });
    assert_eq!(task_c(&mut k, &mut c), SliceEnd::Yield);
    let mut out = [0u8; MSG_MAX];
    k.current = TASK_LED;
    assert_eq!(recv(&mut k, EP_LED, &mut out), RecvResult::Received(1));
    assert_eq!(&out[..1], b"^");
    assert_eq!(reply(&mut k, &[0, 1]), ReplyResult::Replied);
    k.current = TASK_C;
    assert_eq!(task_c(&mut k, &mut c), SliceEnd::Yield);
    assert_eq!(c, TaskC { phase: PhaseC::Count, slices: 0 });
}

#[test]
fn c_panics_on_a_refusal() {
    for answer in [&[1u8][..], &[0u8], &[1u8, 0], &[]] {
        let mut k = kernel();
        let mut c = TaskC { phase: PhaseC::Toggle, slices: 0 };
        k.current = TASK_C;
        assert_eq!(task_c(&mut k, &mut c), SliceEnd::Yield);
        let mut out = [0u8; MSG_MAX];
        k.current = TASK_LED;
        assert_eq!(recv(&mut k, EP_LED, &mut out), RecvResult::Received(1));
        assert_eq!(reply(&mut k, answer), ReplyResult::Replied);
        k.current = TASK_C;
        assert_eq!(task_c(&mut k, &mut c), SliceEnd::Panic(Bug::LedToggle));
    }
    let mut k = kernel();
    k.current = TASK_C;
    let mut c = TaskC { phase: PhaseC::Toggle, slices: 0 };
    assert_eq!(send(&mut k, EP_PING, b"x"), SendResult::Blocked);
    assert_eq!(task_c(&mut k, &mut c), SliceEnd::Panic(Bug::LedCall(IpcError::Busy)));
}

#[test]
fn c_retries_when_the_led_capsule_dies() {
    let mut k = kernel();
    let mut c = TaskC { phase: PhaseC::Toggle, slices: 0 };
    k.current = TASK_C;
    assert_eq!(task_c(&mut k, &mut c), SliceEnd::Yield);
    let mut out = [0u8; MSG_MAX];
    k.current = TASK_LED;
    assert_eq!(recv(&mut k, EP_LED, &mut out), RecvResult::Received(1));
    tallow::sched::request_restart(&mut k, TASK_LED);
    k.current = TASK_C;
    assert_eq!(task_c(&mut k, &mut c), SliceEnd::Yield);
    assert_eq!(c.phase, PhaseC::Toggle);
    assert_eq!(k.tasks[TASK_C].op, None);
}

// Capsules

/// Task C asks a capsule.
fn c_asks(k: &mut Kernel, ep: u8, msg: &[u8], server: usize) {
    let mut out = [0u8; MSG_MAX];
    k.current = TASK_C;
    assert_eq!(call(k, ep, msg, &mut out), CallResult::Blocked);
    k.current = server;
}

fn c_gets(k: &mut Kernel, ep: u8) -> Vec<u8> {
    let mut out = [0u8; MSG_MAX];
    k.current = TASK_C;
    match call(k, ep, b"", &mut out) {
        CallResult::Replied(n) => out[..n].to_vec(),
        other => panic!("{:?}", other),
    }
}

#[test]
fn the_gpio_capsule_serves() {
    let mut k = kernel();
    let mut g = Gpio::new();
    c_asks(&mut k, EP_GPIO, b"T\x03", TASK_GPIO);
    let (end, writes) = task_gpio(&mut k, &mut g, 0);
    assert_eq!(end, SliceEnd::Yield);
    assert_eq!(writes.len, 1);
    assert_eq!(writes.items[0], RegWrite { addr: 0x6000_4004, value: 8 });
    assert_eq!(c_gets(&mut k, EP_GPIO), vec![0, 1]);
    c_asks(&mut k, EP_GPIO, b"R\x04", TASK_GPIO);
    assert_eq!(task_gpio(&mut k, &mut g, 0x10).0, SliceEnd::Yield);
    assert_eq!(c_gets(&mut k, EP_GPIO), vec![0, 1]);
    c_asks(&mut k, EP_GPIO, b"?", TASK_GPIO);
    assert_eq!(task_gpio(&mut k, &mut g, 0).0, SliceEnd::Yield);
    assert_eq!(c_gets(&mut k, EP_GPIO), vec![2]);
}

#[test]
fn the_gpio_capsule_panics_on_a_plain_send() {
    let mut k = kernel();
    let mut g = Gpio::new();
    assert_eq!(send(&mut k, EP_GPIO, b"S\x03"), SendResult::Blocked);
    k.current = TASK_GPIO;
    let (end, writes) = task_gpio(&mut k, &mut g, 0);
    assert_eq!(end, SliceEnd::Panic(Bug::Reply(IpcError::NoPartner)));
    // The request was carried out all the same.
    assert_eq!((writes.len, g.levels), (1, 8));
}

#[test]
fn the_uart_capsule_reports_how_much_it_wrote() {
    let mut k = kernel();
    c_asks(&mut k, EP_UART, b"line\n", TASK_UART);
    let (end, output) = task_uart(&mut k);
    assert_eq!(end, SliceEnd::Yield);
    assert_eq!(&output.bytes[..output.len], b"line\n");
    assert_eq!(c_gets(&mut k, EP_UART), vec![5]);
    let full = [b'x'; MSG_MAX];
    c_asks(&mut k, EP_UART, &full, TASK_UART);
    let (_, output) = task_uart(&mut k);
    assert_eq!(&output.bytes[..output.len], &full[..]);
    assert_eq!(c_gets(&mut k, EP_UART), vec![64]);
}

#[test]
fn the_uart_capsule_is_silent_without_a_request() {
    let mut k = kernel();
    k.current = TASK_UART;
    let (end, output) = task_uart(&mut k);
    assert_eq!((end, output.len), (SliceEnd::Yield, 0));
    assert_eq!(k.tasks[TASK_UART].state, TaskState::Blocked);
    let mut k = kernel();
    assert_eq!(send(&mut k, EP_UART, b"x"), SendResult::Blocked);
    k.current = TASK_UART;
    let (end, output) = task_uart(&mut k);
    assert_eq!(end, SliceEnd::Panic(Bug::Reply(IpcError::NoPartner)));
    assert_eq!(output.len, 1);
}

/// Run the LED capsule and the two it calls until it has nothing to do.
fn led_settles(k: &mut Kernel, l: &mut Led, g: &mut Gpio) -> Vec<u8> {
    let mut log = Vec::new();
    for _ in 0..12 {
        for idx in [TASK_GPIO, TASK_LED, TASK_UART] {
            if k.tasks[idx].state == TaskState::Ready {
                k.current = idx;
                let end = if idx == TASK_GPIO {
                    task_gpio(k, g, 0).0
                } else if idx == TASK_LED {
                    task_led(k, l)
                } else {
                    let (end, output) = task_uart(k);
                    log.extend_from_slice(&output.bytes[..output.len]);
                    end
                };
                assert_eq!(end, SliceEnd::Yield);
            }
        }
    }
    log
}

#[test]
fn the_led_capsule_serves() {
    let mut k = kernel();
    let mut l = Led::new();
    let mut g = Gpio::new();
    assert_eq!(led_settles(&mut k, &mut l, &mut g), b"".to_vec());
    assert_eq!(l.phase, PhaseLed::Serve);
    assert_eq!(g, Gpio { dirs: 0x100, levels: 0 });
    for (request, state, line) in [
        (&b"^"[..], 1u8, &b"[led] on\n"[..]),
        (b"^", 0, b"[led] off\n"),
        (b"+", 1, b"[led] on\n"),
        (b"+", 1, b"[led] on\n"),
        (b"^", 0, b"[led] off\n"),
        (b"-", 0, b"[led] off\n"),
    ] {
        c_asks(&mut k, EP_LED, request, TASK_LED);
        assert_eq!(led_settles(&mut k, &mut l, &mut g), line.to_vec());
        assert_eq!(c_gets(&mut k, EP_LED), vec![0, state]);
        assert_eq!(l.state, state);
        assert_eq!(g.levels, if state == 1 { 0x100 } else { 0 });
    }
}

#[test]
fn the_led_capsule_refuses_bad_requests() {
    let mut k = kernel();
    let mut l = Led { phase: PhaseLed::Serve, req: 0, state: 0 };
    for request in [&b""[..], b"x", b"++"] {
        c_asks(&mut k, EP_LED, request, TASK_LED);
        assert_eq!(task_led(&mut k, &mut l), SliceEnd::Yield);
        assert_eq!(c_gets(&mut k, EP_LED), vec![1]);
        assert_eq!(l.phase, PhaseLed::Serve);
    }
    // A plain send with a bad request is dropped.
    k.current = TASK_C;
    assert_eq!(send(&mut k, EP_LED, b"x"), SendResult::Blocked);
    k.current = TASK_LED;
    assert_eq!(task_led(&mut k, &mut l), SliceEnd::Yield);
    assert_eq!(l.phase, PhaseLed::Serve);
}

/// The GPIO capsule's place answers the LED capsule.
fn answered(k: &mut Kernel, ep: u8, server: usize, answer: &[u8]) {
    let mut out = [0u8; MSG_MAX];
    k.current = server;
    assert!(matches!(recv(k, ep, &mut out), RecvResult::Received(_)));
    assert_eq!(reply(k, answer), ReplyResult::Replied);
    k.current = TASK_LED;
}

#[test]
fn the_led_capsule_panics_on_refusals() {
    let mut k = kernel();
    k.current = TASK_LED;
    let mut l = Led::new();
    assert_eq!(task_led(&mut k, &mut l), SliceEnd::Yield);
    answered(&mut k, EP_GPIO, TASK_GPIO, &[2]);
    assert_eq!(task_led(&mut k, &mut l), SliceEnd::Panic(Bug::GpioConfigure));
    // A toggle must report the level.
    for (req, answer, ok) in
        [(0x5Eu8, &[0u8][..], false), (0x5E, &[0, 1], true), (0x2B, &[0], true), (0x2B, &[1], false), (0x2D, &[], false)]
    {
        let mut k = kernel();
        k.current = TASK_LED;
        let mut l = Led { phase: PhaseLed::Gpio, req, state: 0 };
        assert_eq!(task_led(&mut k, &mut l), SliceEnd::Yield);
        answered(&mut k, EP_GPIO, TASK_GPIO, answer);
        let end = task_led(&mut k, &mut l);
        assert_eq!(end, if ok { SliceEnd::Yield } else { SliceEnd::Panic(Bug::GpioOp) });
    }
    // Nobody to answer after logging.
    let mut k = kernel();
    k.current = TASK_LED;
    let mut l = Led { phase: PhaseLed::Log, req: 0x2B, state: 1 };
    assert_eq!(task_led(&mut k, &mut l), SliceEnd::Yield);
    answered(&mut k, EP_UART, TASK_UART, &[9]);
    assert_eq!(task_led(&mut k, &mut l), SliceEnd::Panic(Bug::Reply(IpcError::NoPartner)));
}

#[test]
fn the_led_capsule_panics_when_it_is_busy() {
    let mut k = kernel();
    k.current = TASK_LED;
    assert_eq!(send(&mut k, EP_PING, b"x"), SendResult::Blocked);
    for (phase, bug) in [
        (PhaseLed::Init, Bug::GpioCall(IpcError::Busy)),
        (PhaseLed::Serve, Bug::Recv(IpcError::Busy)),
        (PhaseLed::Gpio, Bug::GpioCall(IpcError::Busy)),
        (PhaseLed::Log, Bug::UartCall(IpcError::Busy)),
    ] {
        let mut l = Led { phase, req: 0, state: 0 };
        assert_eq!(task_led(&mut k, &mut l), SliceEnd::Panic(bug));
    }
}

#[test]
fn the_led_capsule_retries_when_a_partner_dies() {
    for (phase, ep, server) in [
        (PhaseLed::Init, EP_GPIO, TASK_GPIO),
        (PhaseLed::Gpio, EP_GPIO, TASK_GPIO),
        (PhaseLed::Log, EP_UART, TASK_UART),
    ] {
        let mut k = kernel();
        let mut out = [0u8; MSG_MAX];
        k.current = TASK_LED;
        let mut l = Led { phase, req: 0x5E, state: 0 };
        assert_eq!(task_led(&mut k, &mut l), SliceEnd::Yield);
        k.current = server;
        assert!(matches!(recv(&mut k, ep, &mut out), RecvResult::Received(_)));
        tallow::sched::request_restart(&mut k, server);
        k.current = TASK_LED;
        assert_eq!(task_led(&mut k, &mut l), SliceEnd::Yield);
        assert_eq!(l, Led { phase, req: 0x5E, state: 0 });
        assert_eq!(k.tasks[TASK_LED].op, None);
    }
}
