//! The whole system: the kernel and the six tasks on it.

use vstd::prelude::*;

use crate::capsule;
use crate::capsule::{Led, Output};
use crate::demo;
use crate::demo::{TaskA, TaskB, TaskBView, TaskC};
use crate::gpio;
use crate::gpio::{Gpio, GpioView};
use crate::ipc::{N_TASKS, TASK_A, TASK_B, TASK_C, TASK_GPIO, TASK_LED};
use crate::mmio::{RegWrite, WriteList};
use crate::protocol;
use crate::protocol::KernelView;
use crate::sched;
use crate::slice::SliceEnd;
use crate::task;
use crate::task::{Kernel, STACK_BYTES};

verus! {

/// The kernel and what each task remembers. (The UART capsule remembers
/// nothing.)
#[derive(Debug, Clone, Copy)]
pub struct System {
    pub kernel: Kernel,
    pub a: TaskA,
    pub b: TaskB,
    pub c: TaskC,
    pub gpio: Gpio,
    pub led: Led,
}

/// The system without scratch bytes.
#[verifier::ext_equal]
pub struct SystemView {
    pub k: KernelView,
    pub a: TaskA,
    pub b: TaskBView,
    pub c: TaskC,
    pub gpio: GpioView,
    pub led: Led,
}

impl View for System {
    type V = SystemView;

    open spec fn view(&self) -> SystemView {
        SystemView {
            k: self.kernel@,
            a: self.a,
            b: self.b@,
            c: self.c,
            gpio: self.gpio@,
            led: self.led,
        }
    }
}

/// What a slice gives to the outside.
#[derive(Debug, Clone, Copy)]
pub struct SliceOut {
    pub end: SliceEnd,
    /// Register writes to perform.
    pub writes: WriteList,
    /// Bytes to put out on UART0.
    pub output: Output,
}

/// What a slice of the current task does: the new system, how the slice ends,
/// the register writes, and the UART output.
pub open spec fn slice_of(s: SystemView, gpio_in: u32) -> (
    SystemView,
    SliceEnd,
    Seq<RegWrite>,
    Seq<u8>,
) {
    let i = s.k.current;
    let silent = Seq::<u8>::empty();
    let still = Seq::<RegWrite>::empty();
    if i == TASK_A {
        let (k, a, end) = demo::slice_a(s.k, s.a);
        (SystemView { k, a, ..s }, end, still, silent)
    } else if i == TASK_B {
        let (k, b, end) = demo::slice_b(s.k, s.b);
        (SystemView { k, b, ..s }, end, still, silent)
    } else if i == TASK_C {
        let (k, c, end) = demo::slice_c(s.k, s.c);
        (SystemView { k, c, ..s }, end, still, silent)
    } else if i == TASK_GPIO {
        let (k, gpio, writes, end) = capsule::slice_gpio(s.k, s.gpio, gpio_in);
        (SystemView { k, gpio, ..s }, end, writes, silent)
    } else if i == TASK_LED {
        let (k, led, end) = capsule::slice_led(s.k, s.led);
        (SystemView { k, led, ..s }, end, still, silent)
    } else {
        let (k, output, end) = capsule::slice_uart(s.k);
        (SystemView { k, ..s }, end, still, output)
    }
}

/// What a task's entry point does to its memory.
pub open spec fn entered(s: SystemView, idx: usize) -> SystemView {
    if idx == TASK_A {
        SystemView { a: TaskA { phase: demo::PhaseA::Call, ..s.a }, ..s }
    } else if idx == TASK_B {
        SystemView { b: TaskBView { phase: demo::PhaseB::Recv, ..s.b }, ..s }
    } else if idx == TASK_C {
        SystemView { c: TaskC { phase: demo::PhaseC::Count, slices: 0 }, ..s }
    } else if idx == TASK_GPIO {
        SystemView { gpio: gpio::all_inputs(), ..s }
    } else if idx == TASK_LED {
        SystemView { led: Led { phase: capsule::PhaseLed::Init, ..s.led }, ..s }
    } else {
        s
    }
}

/// The system after task `idx` was killed, restarted and entered.
pub open spec fn restarted(s: SystemView, idx: usize) -> SystemView {
    entered(SystemView { k: protocol::request_restart(s.k, idx), ..s }, idx)
}

/// The system at boot, for tasks with the given entry addresses and stacks.
pub open spec fn booted(entries: Seq<u32>, stacks: Seq<u32>) -> SystemView {
    SystemView {
        k: task::initialized(task::power_up(entries), stacks),
        a: TaskA { phase: demo::PhaseA::Call, count: 0 },
        b: TaskBView { phase: demo::PhaseB::Recv, last_ping: Seq::empty(), exchanges: 0 },
        c: TaskC { phase: demo::PhaseC::Count, slices: 0 },
        gpio: gpio::all_inputs(),
        led: Led { phase: capsule::PhaseLed::Init, req: 0, state: 0 },
    }
}

impl System {
    pub open spec fn wf(self) -> bool {
        self.kernel.wf() && self.b.wf()
    }

    /// The system at boot. `entries` are the tasks' entry addresses, `stacks`
    /// where their stacks begin.
    pub fn boot(entries: &[u32; N_TASKS], stacks: &[u32; N_TASKS]) -> (s: Self)
        requires
            forall|i: int| 0 <= i < N_TASKS ==> #[trigger] stacks@[i] + STACK_BYTES <= u32::MAX,
        ensures
            s.wf(),
            s@ == booted(entries@, stacks@),
    {
        let mut kernel = Kernel::new(entries);
        task::init(&mut kernel, stacks);
        System {
            kernel,
            a: TaskA::new(),
            b: TaskB::new(),
            c: TaskC::new(),
            gpio: Gpio::new(),
            led: Led::new(),
        }
    }

    /// Run one slice of the current task. `gpio_in` is the GPIO input register
    /// as read now; only the GPIO capsule looks at it.
    pub fn slice(&mut self, gpio_in: u32) -> (out: SliceOut)
        requires
            old(self).wf(),
        ensures
            final(self).wf(),
            out.writes.wf(),
            out.output.wf(),
            (final(self)@, out.end, out.writes@, out.output@) == slice_of(old(self)@, gpio_in),
    {
        let mut out = SliceOut {
            end: SliceEnd::Yield,
            writes: WriteList::none(),
            output: Output::none(),
        };
        match self.kernel.current {
            TASK_A => out.end = demo::task_a(&mut self.kernel, &mut self.a),
            TASK_B => out.end = demo::task_b(&mut self.kernel, &mut self.b),
            TASK_C => out.end = demo::task_c(&mut self.kernel, &mut self.c),
            TASK_GPIO => {
                let (end, writes) = capsule::task_gpio(&mut self.kernel, &mut self.gpio, gpio_in);
                out.end = end;
                out.writes = writes;
            },
            TASK_LED => out.end = capsule::task_led(&mut self.kernel, &mut self.led),
            _ => {
                let (end, output) = capsule::task_uart(&mut self.kernel);
                out.end = end;
                out.output = output;
            },
        }
        out
    }

    /// What task `idx`'s entry point does first, at boot and after every fault.
    pub fn enter(&mut self, idx: usize)
        requires
            old(self).wf(),
        ensures
            final(self).wf(),
            final(self)@ == entered(old(self)@, idx),
    {
        match idx {
            TASK_A => self.a.enter(),
            TASK_B => self.b.enter(),
            TASK_C => self.c.enter(),
            TASK_GPIO => self.gpio.enter(),
            TASK_LED => self.led.enter(),
            _ => {},
        }
    }

    /// Kill, restart and enter task `idx`. Returns how often it has been
    /// restarted.
    pub fn restart(&mut self, idx: usize) -> (count: u32)
        requires
            old(self).wf(),
            idx < N_TASKS,
        ensures
            final(self).wf(),
            final(self)@ == restarted(old(self)@, idx),
            count == protocol::counted(old(self)@.k.restarts[idx as int]),
    {
        let count: u32 = sched::request_restart(&mut self.kernel, idx);
        self.enter(idx);
        count
    }
}

} // verus!
