# Tallow

A tiny cooperative kernel for the ESP32-S3 with synchronous rendezvous IPC,
verified with Verus.

Six static tasks share the machine: A and B hold a ping-pong conversation, C
blinks an LED, and the GPIO, LED and UART capsules own the peripherals. All of
them talk through six system calls: `send`, `recv`, `call`, `reply`, `notify`
and `wait`. A faulting task is killed and restarted; its partners learn of it.

## Layout

- `src/` is the verified library.
  - `protocol` is the model: the kernel as a value, and each system call as a
    function from state to state.
  - `ipc`, `task`, `sched` implement it: the system calls, the task table, the
    scheduler's choices and fault restarts.
  - `laws` states what holds of the system calls across tasks and calls.
  - `timer`, `uart`, `gpio`, `mmio` are the drivers, as register writes.
  - `demo` and `capsule` are the six tasks, one slice at a time; `text` writes
    the numbers in their messages.
  - `system` puts everything together, and `system_laws` states what holds of
    the whole: no task ever panics, no deadlock, no exchange lost.
- `app/` is the machine around it: volatile registers, the register-window
  switch, stacks, the console, boot and panic.
- `tests/` runs the library.
