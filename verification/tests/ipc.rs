//! The syscalls: rendezvous, errors, notifications.

use tallow::ipc::{
    call, notify, recv, reply, send, wait, CallResult, IpcError, NotifyResult, OpKind, PendingOp,
    RecvResult, ReplyResult, SendResult, WaitResult, EP_LED, EP_PING, EP_UART, MSG_MAX,
    N_ENDPOINTS, N_TASKS, TASK_A, TASK_B, TASK_C, TASK_GPIO,
};
use tallow::task::{Kernel, TaskState};

fn kernel() -> Kernel {
    Kernel::new(&[0; N_TASKS])
}

fn switch(k: &mut Kernel, idx: usize) {
    k.current = idx;
}

fn state(k: &Kernel, idx: usize) -> TaskState {
    k.tasks[idx].state
}

/// The task's operation and links, for comparing states.
fn snapshot(k: &Kernel) -> Vec<(TaskState, Option<PendingOp>, Vec<u8>, u32, Option<usize>, Option<usize>)> {
    k.tasks
        .iter()
        .map(|t| {
            (
                t.state,
                t.op,
                t.msg[..t.msg_len as usize].to_vec(),
                t.pending,
                t.reply_to,
                t.reply_from,
            )
        })
        .collect()
}

#[test]
fn send_to_waiting_receiver_is_delivered_at_once() {
    let mut k = kernel();
    let mut out = [0u8; MSG_MAX];
    switch(&mut k, TASK_B);
    assert_eq!(recv(&mut k, EP_PING, &mut out), RecvResult::Blocked);
    assert_eq!(state(&k, TASK_B), TaskState::Blocked);
    switch(&mut k, TASK_A);
    assert_eq!(send(&mut k, EP_PING, b"hello"), SendResult::Delivered);
    assert_eq!(state(&k, TASK_A), TaskState::Ready);
    assert_eq!(k.tasks[TASK_A].op, None);
    assert_eq!(state(&k, TASK_B), TaskState::Ready);
    switch(&mut k, TASK_B);
    assert_eq!(recv(&mut k, EP_PING, &mut out), RecvResult::Received(5));
    assert_eq!(&out[..5], b"hello");
    assert_eq!(k.tasks[TASK_B].op, None);
}

#[test]
fn send_blocks_until_a_receiver_takes_the_message() {
    let mut k = kernel();
    let mut out = [0u8; MSG_MAX];
    assert_eq!(send(&mut k, EP_PING, b"abc"), SendResult::Blocked);
    assert_eq!(
        k.tasks[TASK_A].op,
        Some(PendingOp { kind: OpKind::Send, phase: 0, ep: EP_PING, done: false, err: None })
    );
    assert_eq!(send(&mut k, EP_PING, b"abc"), SendResult::Blocked);
    switch(&mut k, TASK_B);
    assert_eq!(recv(&mut k, EP_PING, &mut out), RecvResult::Received(3));
    assert_eq!(&out[..3], b"abc");
    assert_eq!(state(&k, TASK_A), TaskState::Ready);
    switch(&mut k, TASK_A);
    // The arguments of the reaping call are ignored.
    assert_eq!(send(&mut k, EP_LED, b"other"), SendResult::Delivered);
    assert_eq!(k.tasks[TASK_A].op, None);
}

#[test]
fn an_offer_stays_until_it_is_taken() {
    let mut k = kernel();
    let mut out = [0u8; MSG_MAX];
    assert_eq!(send(&mut k, EP_PING, b"keep"), SendResult::Blocked);
    switch(&mut k, TASK_C);
    assert_eq!(send(&mut k, EP_LED, b"noise"), SendResult::Blocked);
    assert_eq!(notify(&mut k, TASK_A, 4), NotifyResult::Notified);
    switch(&mut k, TASK_GPIO);
    assert_eq!(recv(&mut k, EP_UART, &mut out), RecvResult::Blocked);
    switch(&mut k, TASK_B);
    assert_eq!(recv(&mut k, EP_PING, &mut out), RecvResult::Received(4));
    assert_eq!(&out[..4], b"keep");
}

#[test]
fn a_result_stays_until_it_is_reaped() {
    let mut k = kernel();
    let mut out = [0u8; MSG_MAX];
    switch(&mut k, TASK_B);
    assert_eq!(recv(&mut k, EP_PING, &mut out), RecvResult::Blocked);
    switch(&mut k, TASK_A);
    assert_eq!(send(&mut k, EP_PING, b"first"), SendResult::Delivered);
    // B's finished recv takes no second message.
    assert_eq!(send(&mut k, EP_PING, b"second"), SendResult::Blocked);
    switch(&mut k, TASK_B);
    assert_eq!(recv(&mut k, EP_PING, &mut out), RecvResult::Received(5));
    assert_eq!(&out[..5], b"first");
    assert_eq!(recv(&mut k, EP_PING, &mut out), RecvResult::Received(6));
    assert_eq!(&out[..6], b"second");
}

#[test]
fn endpoints_do_not_mix() {
    let mut k = kernel();
    let mut out = [0u8; MSG_MAX];
    assert_eq!(send(&mut k, EP_PING, b"x"), SendResult::Blocked);
    switch(&mut k, TASK_B);
    assert_eq!(recv(&mut k, EP_LED, &mut out), RecvResult::Blocked);
    assert_eq!(state(&k, TASK_A), TaskState::Blocked);
}

#[test]
fn the_lowest_index_is_met_first() {
    let mut k = kernel();
    let mut out = [0u8; MSG_MAX];
    switch(&mut k, TASK_GPIO);
    assert_eq!(send(&mut k, EP_PING, b"late"), SendResult::Blocked);
    switch(&mut k, TASK_C);
    assert_eq!(send(&mut k, EP_PING, b"early"), SendResult::Blocked);
    switch(&mut k, TASK_A);
    assert_eq!(recv(&mut k, EP_PING, &mut out), RecvResult::Received(5));
    assert_eq!(&out[..5], b"early");
    assert_eq!(state(&k, TASK_GPIO), TaskState::Blocked);
}

#[test]
fn call_hands_over_and_reply_comes_back() {
    let mut k = kernel();
    let mut out = [0u8; MSG_MAX];
    assert_eq!(call(&mut k, EP_PING, b"ping 7", &mut out), CallResult::Blocked);
    switch(&mut k, TASK_B);
    assert_eq!(recv(&mut k, EP_PING, &mut out), RecvResult::Received(6));
    assert_eq!(&out[..6], b"ping 7");
    // The caller goes on waiting, now for B.
    assert_eq!(state(&k, TASK_A), TaskState::Blocked);
    assert_eq!(k.tasks[TASK_A].reply_from, Some(TASK_B));
    assert_eq!(k.tasks[TASK_B].reply_to, Some(TASK_A));
    assert_eq!(
        k.tasks[TASK_A].op,
        Some(PendingOp { kind: OpKind::Call, phase: 1, ep: EP_PING, done: false, err: None })
    );
    assert_eq!(reply(&mut k, b"pong 7"), ReplyResult::Replied);
    assert_eq!(state(&k, TASK_A), TaskState::Ready);
    assert_eq!(k.tasks[TASK_B].reply_to, None);
    switch(&mut k, TASK_A);
    let mut answer = [0u8; MSG_MAX];
    assert_eq!(call(&mut k, EP_PING, b"ignored", &mut answer), CallResult::Replied(6));
    assert_eq!(&answer[..6], b"pong 7");
    assert_eq!(k.tasks[TASK_A].op, None);
    assert_eq!(k.tasks[TASK_A].reply_from, None);
}

#[test]
fn call_meets_a_receiver_that_was_there_first() {
    let mut k = kernel();
    let mut out = [0u8; MSG_MAX];
    switch(&mut k, TASK_B);
    assert_eq!(recv(&mut k, EP_PING, &mut out), RecvResult::Blocked);
    switch(&mut k, TASK_A);
    assert_eq!(call(&mut k, EP_PING, b"q", &mut out), CallResult::Blocked);
    assert_eq!(state(&k, TASK_B), TaskState::Ready);
    switch(&mut k, TASK_B);
    assert_eq!(recv(&mut k, EP_PING, &mut out), RecvResult::Received(1));
    assert_eq!(reply(&mut k, b""), ReplyResult::Replied);
    switch(&mut k, TASK_A);
    assert_eq!(call(&mut k, EP_PING, b"q", &mut out), CallResult::Replied(0));
}

#[test]
fn calls_are_pairwise() {
    let mut k = kernel();
    let mut out = [0u8; MSG_MAX];
    assert_eq!(call(&mut k, EP_PING, b"from A", &mut out), CallResult::Blocked);
    switch(&mut k, TASK_C);
    assert_eq!(call(&mut k, EP_LED, b"from C", &mut out), CallResult::Blocked);
    switch(&mut k, TASK_GPIO);
    assert_eq!(recv(&mut k, EP_LED, &mut out), RecvResult::Received(6));
    assert_eq!(&out[..6], b"from C");
    switch(&mut k, TASK_B);
    assert_eq!(recv(&mut k, EP_PING, &mut out), RecvResult::Received(6));
    assert_eq!(&out[..6], b"from A");
    assert_eq!(reply(&mut k, b"to A"), ReplyResult::Replied);
    assert_eq!(state(&k, TASK_C), TaskState::Blocked);
    switch(&mut k, TASK_GPIO);
    assert_eq!(reply(&mut k, b"to C!"), ReplyResult::Replied);
    switch(&mut k, TASK_A);
    assert_eq!(call(&mut k, EP_PING, b"", &mut out), CallResult::Replied(4));
    assert_eq!(&out[..4], b"to A");
    switch(&mut k, TASK_C);
    assert_eq!(call(&mut k, EP_LED, b"", &mut out), CallResult::Replied(5));
    assert_eq!(&out[..5], b"to C!");
}

#[test]
fn messages_are_cut_to_the_buffer() {
    let mut k = kernel();
    let mut small = [0xAAu8; 4];
    assert_eq!(send(&mut k, EP_PING, b"abcdef"), SendResult::Blocked);
    switch(&mut k, TASK_B);
    assert_eq!(recv(&mut k, EP_PING, &mut small), RecvResult::Received(4));
    assert_eq!(&small, b"abcd");
    // A shorter message leaves the rest of the buffer alone.
    let mut large = [0xAAu8; 8];
    switch(&mut k, TASK_C);
    assert_eq!(send(&mut k, EP_LED, b"xy"), SendResult::Blocked);
    switch(&mut k, TASK_B);
    assert_eq!(recv(&mut k, EP_LED, &mut large), RecvResult::Received(2));
    assert_eq!(&large, b"xy\xAA\xAA\xAA\xAA\xAA\xAA");
}

#[test]
fn replies_are_cut_to_the_buffer() {
    let mut k = kernel();
    let mut out = [0u8; MSG_MAX];
    assert_eq!(call(&mut k, EP_PING, b"?", &mut out), CallResult::Blocked);
    switch(&mut k, TASK_B);
    assert_eq!(recv(&mut k, EP_PING, &mut out), RecvResult::Received(1));
    assert_eq!(reply(&mut k, b"0123456789"), ReplyResult::Replied);
    switch(&mut k, TASK_A);
    let mut small = [0u8; 3];
    assert_eq!(call(&mut k, EP_PING, b"?", &mut small), CallResult::Replied(3));
    assert_eq!(&small, b"012");
}

#[test]
fn the_largest_message_fits_and_one_more_byte_does_not() {
    let mut k = kernel();
    let mut out = [0u8; MSG_MAX];
    let full = [0x5Au8; MSG_MAX];
    let over = [0x5Au8; MSG_MAX + 1];
    assert_eq!(send(&mut k, EP_PING, &over), SendResult::Failed(IpcError::Oversize));
    assert_eq!(call(&mut k, EP_PING, &over, &mut out), CallResult::Failed(IpcError::Oversize));
    assert_eq!(reply(&mut k, &over), ReplyResult::Failed(IpcError::Oversize));
    assert_eq!(send(&mut k, EP_PING, &full), SendResult::Blocked);
    switch(&mut k, TASK_B);
    assert_eq!(recv(&mut k, EP_PING, &mut out), RecvResult::Received(MSG_MAX));
    assert_eq!(out, full);
}

#[test]
fn bad_endpoints_are_refused() {
    let mut k = kernel();
    let mut out = [0u8; MSG_MAX];
    let before = snapshot(&k);
    let over = [0u8; MSG_MAX + 1];
    assert_eq!(send(&mut k, N_ENDPOINTS, b"x"), SendResult::Failed(IpcError::BadEndpoint));
    assert_eq!(recv(&mut k, 255, &mut out), RecvResult::Failed(IpcError::BadEndpoint));
    assert_eq!(
        call(&mut k, N_ENDPOINTS, b"x", &mut out),
        CallResult::Failed(IpcError::BadEndpoint)
    );
    // The endpoint is checked before the length.
    assert_eq!(send(&mut k, 9, &over), SendResult::Failed(IpcError::BadEndpoint));
    assert_eq!(snapshot(&k), before);
    assert_eq!(send(&mut k, N_ENDPOINTS - 1, b"x"), SendResult::Blocked);
}

#[test]
fn another_call_is_busy_and_changes_nothing() {
    let mut k = kernel();
    let mut out = [0u8; MSG_MAX];
    assert_eq!(recv(&mut k, EP_PING, &mut out), RecvResult::Blocked);
    let before = snapshot(&k);
    assert_eq!(send(&mut k, EP_PING, b"x"), SendResult::Failed(IpcError::Busy));
    assert_eq!(call(&mut k, EP_PING, b"x", &mut out), CallResult::Failed(IpcError::Busy));
    assert_eq!(wait(&mut k), WaitResult::Failed(IpcError::Busy));
    assert_eq!(snapshot(&k), before);
    assert_eq!(recv(&mut k, EP_PING, &mut out), RecvResult::Blocked);
    switch(&mut k, TASK_B);
    assert_eq!(wait(&mut k), WaitResult::Blocked);
    assert_eq!(recv(&mut k, EP_LED, &mut out), RecvResult::Failed(IpcError::Busy));
    // Validation comes before Busy, also on a reaping call.
    assert_eq!(recv(&mut k, 8, &mut out), RecvResult::Failed(IpcError::BadEndpoint));
    switch(&mut k, TASK_A);
    assert_eq!(recv(&mut k, 8, &mut out), RecvResult::Failed(IpcError::BadEndpoint));
}

#[test]
fn reply_needs_a_caller() {
    let mut k = kernel();
    let mut out = [0u8; MSG_MAX];
    assert_eq!(reply(&mut k, b"x"), ReplyResult::Failed(IpcError::NoPartner));
    // A plain send leaves nobody to answer.
    assert_eq!(send(&mut k, EP_PING, b"x"), SendResult::Blocked);
    switch(&mut k, TASK_B);
    assert_eq!(recv(&mut k, EP_PING, &mut out), RecvResult::Received(1));
    assert_eq!(reply(&mut k, b"x"), ReplyResult::Failed(IpcError::NoPartner));
}

#[test]
fn reply_answers_once() {
    let mut k = kernel();
    let mut out = [0u8; MSG_MAX];
    assert_eq!(call(&mut k, EP_PING, b"x", &mut out), CallResult::Blocked);
    switch(&mut k, TASK_B);
    assert_eq!(recv(&mut k, EP_PING, &mut out), RecvResult::Received(1));
    assert_eq!(reply(&mut k, b"1"), ReplyResult::Replied);
    assert_eq!(reply(&mut k, b"2"), ReplyResult::Failed(IpcError::NoPartner));
}

#[test]
fn reply_to_a_caller_that_waits_no_more_reports_its_death() {
    let mut k = kernel();
    k.tasks[TASK_B].reply_to = Some(TASK_A);
    switch(&mut k, TASK_B);
    assert_eq!(reply(&mut k, b"x"), ReplyResult::Failed(IpcError::PartnerFaulted));
    assert_eq!(k.tasks[TASK_B].reply_to, None);
}

#[test]
fn notify_refuses_unknown_tasks() {
    let mut k = kernel();
    let before = snapshot(&k);
    assert_eq!(notify(&mut k, N_TASKS, 1), NotifyResult::Failed(IpcError::BadTask));
    assert_eq!(notify(&mut k, usize::MAX, 1), NotifyResult::Failed(IpcError::BadTask));
    assert_eq!(snapshot(&k), before);
    assert_eq!(notify(&mut k, N_TASKS - 1, 1), NotifyResult::Notified);
}

#[test]
fn notifications_accumulate_until_taken() {
    let mut k = kernel();
    switch(&mut k, TASK_B);
    assert_eq!(notify(&mut k, TASK_A, 0b001), NotifyResult::Notified);
    assert_eq!(notify(&mut k, TASK_A, 0b100), NotifyResult::Notified);
    assert_eq!(notify(&mut k, TASK_A, 0b001), NotifyResult::Notified);
    switch(&mut k, TASK_A);
    assert_eq!(wait(&mut k), WaitResult::Signaled(0b101));
    assert_eq!(k.tasks[TASK_A].pending, 0);
    assert_eq!(wait(&mut k), WaitResult::Blocked);
}

#[test]
fn notify_wakes_a_waiting_task() {
    let mut k = kernel();
    assert_eq!(wait(&mut k), WaitResult::Blocked);
    assert_eq!(wait(&mut k), WaitResult::Blocked);
    assert_eq!(state(&k, TASK_A), TaskState::Blocked);
    switch(&mut k, TASK_B);
    assert_eq!(notify(&mut k, TASK_A, 8), NotifyResult::Notified);
    assert_eq!(state(&k, TASK_A), TaskState::Ready);
    switch(&mut k, TASK_A);
    assert_eq!(wait(&mut k), WaitResult::Signaled(8));
    assert_eq!(k.tasks[TASK_A].op, None);
}

#[test]
fn notify_does_not_wake_a_task_blocked_elsewhere() {
    let mut k = kernel();
    let mut out = [0u8; MSG_MAX];
    assert_eq!(recv(&mut k, EP_PING, &mut out), RecvResult::Blocked);
    switch(&mut k, TASK_B);
    assert_eq!(notify(&mut k, TASK_A, 2), NotifyResult::Notified);
    assert_eq!(state(&k, TASK_A), TaskState::Blocked);
    assert_eq!(k.tasks[TASK_A].pending, 2);
}

#[test]
fn a_task_may_notify_itself() {
    let mut k = kernel();
    assert_eq!(notify(&mut k, TASK_A, 3), NotifyResult::Notified);
    assert_eq!(wait(&mut k), WaitResult::Signaled(3));
}

#[test]
fn a_wait_ended_without_bits_blocks_again() {
    let mut k = kernel();
    assert_eq!(wait(&mut k), WaitResult::Blocked);
    switch(&mut k, TASK_B);
    assert_eq!(notify(&mut k, TASK_A, 0), NotifyResult::Notified);
    assert_eq!(state(&k, TASK_A), TaskState::Ready);
    switch(&mut k, TASK_A);
    assert_eq!(wait(&mut k), WaitResult::Blocked);
    assert_eq!(state(&k, TASK_A), TaskState::Blocked);
    assert_eq!(
        k.tasks[TASK_A].op,
        Some(PendingOp { kind: OpKind::Wait, phase: 0, ep: 0, done: false, err: None })
    );
    switch(&mut k, TASK_B);
    assert_eq!(notify(&mut k, TASK_A, 6), NotifyResult::Notified);
    assert_eq!(state(&k, TASK_A), TaskState::Ready);
    switch(&mut k, TASK_A);
    assert_eq!(wait(&mut k), WaitResult::Signaled(6));
    assert_eq!(k.tasks[TASK_A].op, None);
}

#[test]
fn taking_bits_leaves_another_operation_alone() {
    let mut k = kernel();
    let mut out = [0u8; MSG_MAX];
    assert_eq!(notify(&mut k, TASK_A, 1), NotifyResult::Notified);
    assert_eq!(recv(&mut k, EP_PING, &mut out), RecvResult::Blocked);
    let op = k.tasks[TASK_A].op;
    assert_eq!(wait(&mut k), WaitResult::Signaled(1));
    assert_eq!(k.tasks[TASK_A].pending, 0);
    assert_eq!(k.tasks[TASK_A].op, op);
    assert_eq!(state(&k, TASK_A), TaskState::Blocked);
    assert_eq!(wait(&mut k), WaitResult::Failed(IpcError::Busy));
    assert_eq!(recv(&mut k, EP_PING, &mut out), RecvResult::Blocked);
    // Still blocked in `recv`, A is met by a sender.
    switch(&mut k, TASK_B);
    assert_eq!(send(&mut k, EP_PING, b"met"), SendResult::Delivered);
    switch(&mut k, TASK_A);
    assert_eq!(recv(&mut k, EP_PING, &mut out), RecvResult::Received(3));
    assert_eq!(&out[..3], b"met");
}

#[test]
fn a_blocked_task_cannot_free_itself() {
    let mut k = kernel();
    let mut out = [0u8; MSG_MAX];
    assert_eq!(call(&mut k, EP_PING, b"offer", &mut out), CallResult::Blocked);
    let op = k.tasks[TASK_A].op;
    assert_eq!(notify(&mut k, TASK_A, 3), NotifyResult::Notified);
    assert_eq!(wait(&mut k), WaitResult::Signaled(3));
    assert_eq!(send(&mut k, EP_LED, b"x"), SendResult::Failed(IpcError::Busy));
    assert_eq!(recv(&mut k, EP_LED, &mut out), RecvResult::Failed(IpcError::Busy));
    assert_eq!(reply(&mut k, b"x"), ReplyResult::Failed(IpcError::NoPartner));
    assert_eq!(call(&mut k, EP_LED, b"x", &mut out), CallResult::Blocked);
    assert_eq!(k.tasks[TASK_A].op, op);
    assert_eq!(state(&k, TASK_A), TaskState::Blocked);
}

#[test]
fn taking_bits_leaves_a_finished_operation_to_be_reaped() {
    let mut k = kernel();
    let mut out = [0u8; MSG_MAX];
    assert_eq!(recv(&mut k, EP_PING, &mut out), RecvResult::Blocked);
    switch(&mut k, TASK_B);
    assert_eq!(send(&mut k, EP_PING, b"kept"), SendResult::Delivered);
    assert_eq!(notify(&mut k, TASK_A, 2), NotifyResult::Notified);
    switch(&mut k, TASK_A);
    assert_eq!(wait(&mut k), WaitResult::Signaled(2));
    assert_eq!(state(&k, TASK_A), TaskState::Ready);
    assert_eq!(recv(&mut k, EP_PING, &mut out), RecvResult::Received(4));
    assert_eq!(&out[..4], b"kept");
}

#[test]
fn a_task_does_not_meet_itself() {
    let mut k = kernel();
    let mut out = [0u8; MSG_MAX];
    assert_eq!(send(&mut k, EP_PING, b"me"), SendResult::Blocked);
    assert_eq!(recv(&mut k, EP_PING, &mut out), RecvResult::Failed(IpcError::Busy));
    assert_eq!(send(&mut k, EP_PING, b"me"), SendResult::Blocked);
}
