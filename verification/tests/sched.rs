//! The scheduler loop, the task table and the contexts.

use tallow::ipc::{N_TASKS, TASK_B, TASK_C, TASK_UART};
use tallow::sched::{
    current_task, init_task_context, run, sched_ctx_ptr, task_ctx_ptr, Context, RunAction, Sched,
};
use tallow::task::{
    blank_task, init, stack_top_for, task_entry_addr, task_ptr, Kernel, TaskState, STACK_BYTES,
    STACK_WORDS,
};

fn kernel() -> Kernel {
    Kernel::new(&[10, 11, 12, 13, 14, 15])
}

/// One whole round: the tasks resumed, and the report.
fn round(k: &mut Kernel, s: &mut Sched) -> (Vec<usize>, bool, bool) {
    let mut order = Vec::new();
    let mut tick = true;
    loop {
        match run(k, s, tick) {
            RunAction::Poll => panic!("polled within a round"),
            RunAction::Resume(idx) => {
                assert_eq!(current_task(k), idx);
                order.push(idx);
            }
            RunAction::Report { marker, heartbeat } => return (order, marker, heartbeat),
        }
        tick = false;
    }
}

#[test]
fn nothing_happens_without_a_tick() {
    let mut k = kernel();
    let mut s = Sched::new();
    assert_eq!(run(&mut k, &mut s, false), RunAction::Poll);
    assert_eq!(run(&mut k, &mut s, false), RunAction::Poll);
    assert_eq!(s, Sched { ticks: 0, next: None });
}

#[test]
fn a_round_resumes_every_ready_task_in_index_order() {
    let mut k = kernel();
    let mut s = Sched::new();
    assert_eq!(round(&mut k, &mut s), (vec![0, 1, 2, 3, 4, 5], false, false));
    assert_eq!(s, Sched { ticks: 1, next: None });
    assert_eq!(run(&mut k, &mut s, false), RunAction::Poll);
}

#[test]
fn blocked_tasks_are_skipped() {
    let mut k = kernel();
    let mut s = Sched::new();
    k.tasks[0].state = TaskState::Blocked;
    k.tasks[TASK_C].state = TaskState::Blocked;
    k.tasks[TASK_UART].state = TaskState::Blocked;
    assert_eq!(round(&mut k, &mut s).0, vec![1, 3, 4]);
    for t in k.tasks.iter_mut() {
        t.state = TaskState::Blocked;
    }
    assert_eq!(round(&mut k, &mut s).0, Vec::<usize>::new());
    assert_eq!(s.ticks, 2);
}

#[test]
fn a_task_woken_before_its_turn_runs_in_the_same_round() {
    let mut k = kernel();
    let mut s = Sched::new();
    k.tasks[0].state = TaskState::Blocked;
    k.tasks[TASK_C].state = TaskState::Blocked;
    assert_eq!(run(&mut k, &mut s, true), RunAction::Resume(TASK_B));
    // B wakes A, whose turn is over, and C, whose turn is to come.
    k.tasks[0].state = TaskState::Ready;
    k.tasks[TASK_C].state = TaskState::Ready;
    assert_eq!(run(&mut k, &mut s, false), RunAction::Resume(TASK_C));
    assert_eq!(s, Sched { ticks: 1, next: Some(3) });
}

#[test]
fn ticks_within_a_round_are_ignored() {
    let mut k = kernel();
    let mut s = Sched::new();
    assert_eq!(run(&mut k, &mut s, true), RunAction::Resume(0));
    assert_eq!(run(&mut k, &mut s, true), RunAction::Resume(1));
    assert_eq!(s.ticks, 1);
}

#[test]
fn markers_and_heartbeats_come_on_time() {
    let mut k = kernel();
    let mut s = Sched::new();
    let mut markers = Vec::new();
    let mut heartbeats = Vec::new();
    for _ in 0..2000 {
        let (_, marker, heartbeat) = round(&mut k, &mut s);
        if marker {
            markers.push(s.ticks);
        }
        if heartbeat {
            heartbeats.push(s.ticks);
        }
    }
    assert_eq!(markers, (1..=20).map(|n| n * 100).collect::<Vec<u32>>());
    assert_eq!(heartbeats, vec![1000, 2000]);
}

#[test]
fn the_tick_count_wraps() {
    let mut k = kernel();
    let mut s = Sched { ticks: u32::MAX, next: None };
    // Zero is a multiple of everything.
    assert_eq!(round(&mut k, &mut s), (vec![0, 1, 2, 3, 4, 5], true, true));
    assert_eq!(s.ticks, 0);
}

#[test]
fn a_position_past_the_end_ends_the_round() {
    let mut k = kernel();
    let mut s = Sched { ticks: 7, next: Some(N_TASKS) };
    assert_eq!(
        run(&mut k, &mut s, false),
        RunAction::Report { marker: false, heartbeat: false }
    );
    assert_eq!(s, Sched { ticks: 7, next: None });
}

#[test]
fn the_table_holds_six_blank_tasks() {
    let mut k = kernel();
    let names: Vec<&str> = k.tasks.iter().map(|t| t.name).collect();
    assert_eq!(names, vec!["A", "B", "C", "GPIO", "LED", "UART"]);
    for idx in 0..N_TASKS {
        assert_eq!(task_entry_addr(&k, idx), 10 + idx as u32);
        let t = task_ptr(&mut k, idx);
        assert_eq!(t.state, TaskState::Ready);
        assert_eq!(t.op, None);
        assert_eq!((t.stack_top, t.msg_len, t.pending), (0, 0, 0));
        assert_eq!((t.reply_to, t.reply_from), (None, None));
    }
    assert_eq!(k.current, 0);
    assert_eq!(k.restarts, [0; 6]);
    let blank = blank_task(99, "X");
    assert_eq!((blank.entry, blank.name), (99, "X"));
}

#[test]
fn task_ptr_reaches_the_table() {
    let mut k = kernel();
    task_ptr(&mut k, TASK_B).pending = 5;
    assert_eq!(k.tasks[TASK_B].pending, 5);
    assert_eq!(k.tasks[TASK_C].pending, 0);
}

#[test]
fn stack_tops_are_rounded_down() {
    assert_eq!(STACK_BYTES as usize, STACK_WORDS * 4);
    let stacks = [0x3FC9_0000, 0x3FC9_1004, 0x3FC9_2008, 0x3FC9_300C, 0x3FC9_400F, 0x3FC9_5010];
    let tops: Vec<u32> = (0..6).map(|i| stack_top_for(&stacks, i)).collect();
    assert_eq!(
        tops,
        vec![0x3FC9_1000, 0x3FC9_2000, 0x3FC9_3000, 0x3FC9_4000, 0x3FC9_5000, 0x3FC9_6010]
    );
    // Any other index means the last stack.
    assert_eq!(stack_top_for(&stacks, 77), 0x3FC9_6010);
}

#[test]
fn init_points_each_task_at_its_stack() {
    let mut k = kernel();
    init(&mut k, &[0x1000, 0x2000, 0x3000, 0x4000, 0x5004, 0x6000]);
    assert_eq!(k.tasks[0].stack_top, 0x2000);
    assert_eq!(k.tasks[4].stack_top, 0x6000);
    for idx in 0..N_TASKS {
        let c = *task_ctx_ptr(&mut k, idx);
        assert_eq!(c.pc, 10 + idx as u32);
        assert_eq!(c.sp, k.tasks[idx].stack_top);
        assert_eq!(c.a, [0; 16]);
        assert_eq!((c.sar, c.windowbase, c.windowstart), (0, 0, 1));
    }
    let s = *sched_ctx_ptr(&mut k);
    assert_eq!((s.pc, s.sp, s.windowstart), (0, 0, 0));
}

#[test]
fn contexts_are_crafted_one_by_one() {
    let mut k = kernel();
    init_task_context(&mut k, TASK_B, 0x4037_1234, 0x3FCA_0000);
    assert_eq!(k.task_ctx[TASK_B].pc, 0x4037_1234);
    assert_eq!(k.task_ctx[TASK_B].sp, 0x3FCA_0000);
    assert_eq!(k.task_ctx[TASK_B].windowstart, 1);
    assert_eq!(k.task_ctx[TASK_C].windowstart, 0);
    let z = Context::zero();
    assert_eq!((z.pc, z.sp, z.a, z.sar, z.windowbase, z.windowstart), (0, 0, [0; 16], 0, 0, 0));
    let i = Context::initial(1, 2);
    assert_eq!((i.pc, i.sp, i.a, i.sar, i.windowbase, i.windowstart), (1, 2, [0; 16], 0, 0, 1));
    sched_ctx_ptr(&mut k).sp = 8;
    assert_eq!(k.sched_ctx.sp, 8);
}
