//! Kill and restart: what a faulted task and its partners find.

use tallow::ipc::{
    call, notify, recv, reply, reset_for_restart, send, wait, CallResult, IpcError, NotifyResult,
    RecvResult, ReplyResult, SendResult, WaitResult, EP_LED, EP_PING, EP_UART, MSG_MAX, N_TASKS,
    TASK_A, TASK_B, TASK_C, TASK_GPIO, TASK_UART,
};
use tallow::sched::request_restart;
use tallow::task::{init, Kernel, TaskState};

fn kernel() -> Kernel {
    let mut k = Kernel::new(&[0x4037_0000, 0x4037_0100, 0x4037_0200, 0x4037_0300, 0x4037_0400, 0x4037_0500]);
    init(&mut k, &[0x3FC9_0004, 0x3FC9_1004, 0x3FC9_2004, 0x3FC9_3004, 0x3FC9_4004, 0x3FC9_5004]);
    k
}

fn switch(k: &mut Kernel, idx: usize) {
    k.current = idx;
}

#[test]
fn a_waiting_caller_learns_of_the_death() {
    let mut k = kernel();
    let mut out = [0u8; MSG_MAX];
    assert_eq!(call(&mut k, EP_PING, b"ping 0", &mut out), CallResult::Blocked);
    switch(&mut k, TASK_B);
    assert_eq!(recv(&mut k, EP_PING, &mut out), RecvResult::Received(6));
    assert_eq!(request_restart(&mut k, TASK_B), 1);
    assert_eq!(k.tasks[TASK_A].state, TaskState::Ready);
    switch(&mut k, TASK_A);
    assert_eq!(
        call(&mut k, EP_PING, b"ping 0", &mut out),
        CallResult::Failed(IpcError::PartnerFaulted)
    );
    assert_eq!(k.tasks[TASK_A].op, None);
    assert_eq!(k.tasks[TASK_A].reply_from, None);
    // The retry is answered by the fresh B.
    assert_eq!(call(&mut k, EP_PING, b"ping 0", &mut out), CallResult::Blocked);
    switch(&mut k, TASK_B);
    assert_eq!(recv(&mut k, EP_PING, &mut out), RecvResult::Received(6));
    assert_eq!(reply(&mut k, b"pong 0"), ReplyResult::Replied);
}

#[test]
fn a_restarted_task_remembers_nothing() {
    let mut k = kernel();
    let mut out = [0u8; MSG_MAX];
    switch(&mut k, TASK_A);
    assert_eq!(call(&mut k, EP_PING, b"x", &mut out), CallResult::Blocked);
    switch(&mut k, TASK_B);
    assert_eq!(recv(&mut k, EP_PING, &mut out), RecvResult::Received(1));
    assert_eq!(wait(&mut k), WaitResult::Blocked);
    switch(&mut k, TASK_C);
    assert_eq!(notify(&mut k, TASK_B, 6), NotifyResult::Notified);
    k.task_ctx[TASK_B].pc = 0x1234;
    k.task_ctx[TASK_B].a[3] = 7;
    k.task_ctx[TASK_B].windowbase = 2;
    k.task_ctx[TASK_B].windowstart = 4;
    assert_eq!(request_restart(&mut k, TASK_B), 1);
    let b = &k.tasks[TASK_B];
    assert_eq!(b.state, TaskState::Ready);
    assert_eq!(b.op, None);
    assert_eq!(b.pending, 0);
    assert_eq!(b.reply_to, None);
    assert_eq!(b.reply_from, None);
    assert_eq!(b.name, "B");
    let c = &k.task_ctx[TASK_B];
    assert_eq!(c.pc, 0x4037_0100);
    assert_eq!(c.sp, 0x3FC9_2000);
    assert_eq!(c.a, [0; 16]);
    assert_eq!((c.sar, c.windowbase, c.windowstart), (0, 0, 1));
}

#[test]
fn whoever_owes_the_dead_task_a_reply_owes_it_no_more() {
    let mut k = kernel();
    let mut out = [0u8; MSG_MAX];
    assert_eq!(call(&mut k, EP_PING, b"x", &mut out), CallResult::Blocked);
    switch(&mut k, TASK_B);
    assert_eq!(recv(&mut k, EP_PING, &mut out), RecvResult::Received(1));
    request_restart(&mut k, TASK_A);
    assert_eq!(reply(&mut k, b"y"), ReplyResult::Failed(IpcError::NoPartner));
}

#[test]
fn other_operations_survive() {
    let mut k = kernel();
    let mut out = [0u8; MSG_MAX];
    // A offers a call, C a send; GPIO receives, UART waits.
    assert_eq!(call(&mut k, EP_PING, b"offer", &mut out), CallResult::Blocked);
    switch(&mut k, TASK_C);
    assert_eq!(send(&mut k, EP_LED, b"kept"), SendResult::Blocked);
    switch(&mut k, TASK_GPIO);
    assert_eq!(recv(&mut k, EP_UART, &mut out), RecvResult::Blocked);
    switch(&mut k, TASK_UART);
    assert_eq!(wait(&mut k), WaitResult::Blocked);
    reset_for_restart(&mut k, TASK_B);
    for idx in [TASK_A, TASK_C, TASK_GPIO, TASK_UART] {
        assert_eq!(k.tasks[idx].state, TaskState::Blocked);
    }
    switch(&mut k, TASK_B);
    assert_eq!(recv(&mut k, EP_PING, &mut out), RecvResult::Received(5));
    assert_eq!(&out[..5], b"offer");
    assert_eq!(recv(&mut k, EP_LED, &mut out), RecvResult::Received(4));
    assert_eq!(&out[..4], b"kept");
}

#[test]
fn a_call_awaiting_somebody_else_survives() {
    let mut k = kernel();
    let mut out = [0u8; MSG_MAX];
    assert_eq!(call(&mut k, EP_PING, b"x", &mut out), CallResult::Blocked);
    switch(&mut k, TASK_B);
    assert_eq!(recv(&mut k, EP_PING, &mut out), RecvResult::Received(1));
    request_restart(&mut k, TASK_GPIO);
    assert_eq!(k.tasks[TASK_A].state, TaskState::Blocked);
    assert_eq!(reply(&mut k, b"y"), ReplyResult::Replied);
}

#[test]
fn restarts_are_counted_per_task() {
    let mut k = kernel();
    assert_eq!(request_restart(&mut k, TASK_B), 1);
    assert_eq!(request_restart(&mut k, TASK_B), 2);
    assert_eq!(request_restart(&mut k, TASK_C), 1);
    assert_eq!(request_restart(&mut k, TASK_B), 3);
    assert_eq!(k.restarts, [0, 3, 1, 0, 0, 0]);
    k.restarts[TASK_B] = u32::MAX;
    assert_eq!(request_restart(&mut k, TASK_B), 0);
    assert_eq!(k.restarts.len(), N_TASKS);
}

#[test]
fn a_reset_alone_keeps_the_context() {
    let mut k = kernel();
    k.task_ctx[TASK_B].pc = 0x1234;
    reset_for_restart(&mut k, TASK_B);
    assert_eq!(k.task_ctx[TASK_B].pc, 0x1234);
    assert_eq!(k.restarts[TASK_B], 0);
}
