use async_rt::fibers::{GreenThread, Runtime, State, DEFAULT_STACK_SIZE, MAX_THREADS};

fn states(rt: &Runtime) -> Vec<State> {
    (0..=MAX_THREADS).map(|i| rt.thread_state(i)).collect()
}

#[test]
fn new_runtime_runs_the_base_thread() {
    let rt = Runtime::new();
    assert_eq!(rt.current(), 0);
    assert_eq!(
        states(&rt),
        vec![State::Running, State::Available, State::Available, State::Available, State::Available]
    );
    for i in 0..=MAX_THREADS {
        assert_eq!(rt.stack(i).len(), DEFAULT_STACK_SIZE);
    }
}

#[test]
fn green_thread_new_is_available() {
    let t = GreenThread::new();
    assert_eq!(t.state(), State::Available);
    assert_eq!(t.stack().len(), DEFAULT_STACK_SIZE);
    assert!(t.stack().iter().all(|&b| b == 0));
    assert_eq!(t.context().regs, [0u64; 7]);
}

#[test]
fn nothing_ready_means_no_switch() {
    let mut rt = Runtime::new();
    assert!(!rt.schedule_thread());
    assert_eq!(rt.current(), 0);
    assert_eq!(rt.thread_state(0), State::Running);
}

#[test]
fn spawn_takes_the_first_free_slot() {
    let mut rt = Runtime::new();
    rt.spawn(0x1000, 0x2000, 0x3000);
    rt.spawn(0x1100, 0x2000, 0x3000);
    assert_eq!(
        states(&rt),
        vec![State::Running, State::Ready, State::Ready, State::Available, State::Available]
    );
    assert_eq!(rt.current(), 0);
}

#[test]
fn spawn_lays_out_the_frame() {
    let mut rt = Runtime::new();
    rt.spawn(0x1111, 0x2222, 0x3333);
    let rsp = rt.context_mut(1)[0];
    assert_eq!(rsp % 16, 0);
    let base = rt.stack(1).as_ptr() as u64;
    let off = rsp.wrapping_sub(base) as usize;
    let s = rt.stack(1);
    let w = |at: usize| u64::from_le_bytes(s[at..at + 8].try_into().unwrap());
    assert_eq!(w(off), 0x1111);
    assert_eq!(w(off + 8), 0x3333);
    assert_eq!(w(off + 16), 0x2222);
    assert!(off + 32 <= DEFAULT_STACK_SIZE && off + 32 + 16 > DEFAULT_STACK_SIZE);
}

#[test]
fn scheduling_is_round_robin() {
    let mut rt = Runtime::new();
    rt.spawn(1, 2, 3);
    rt.spawn(1, 2, 3);
    assert!(rt.schedule_thread());
    assert_eq!(rt.current(), 1);
    assert_eq!(states(&rt)[..3], [State::Ready, State::Running, State::Ready]);
    assert!(rt.schedule_thread());
    assert_eq!(rt.current(), 2);
    assert_eq!(states(&rt)[..3], [State::Ready, State::Ready, State::Running]);
    assert!(rt.schedule_thread());
    assert_eq!(rt.current(), 0);
    assert_eq!(states(&rt)[..3], [State::Running, State::Ready, State::Ready]);
}

#[test]
fn returning_thread_frees_its_slot() {
    let mut rt = Runtime::new();
    rt.spawn(1, 2, 3);
    assert!(rt.schedule_thread());
    assert_eq!(rt.current(), 1);
    assert!(rt.thread_return());
    assert_eq!(rt.current(), 0);
    assert_eq!(states(&rt)[..2], [State::Running, State::Available]);
    // the freed slot is taken again by the next spawn
    rt.spawn(4, 5, 6);
    assert_eq!(rt.thread_state(1), State::Ready);
}

#[test]
fn base_thread_return_is_a_no_op() {
    let mut rt = Runtime::new();
    rt.spawn(1, 2, 3);
    assert!(!rt.thread_return());
    assert_eq!(rt.current(), 0);
    assert_eq!(states(&rt)[..2], [State::Running, State::Ready]);
}

#[test]
fn context_mut_writes_reach_the_thread() {
    let mut rt = Runtime::new();
    rt.context_mut(2)[3] = 42;
    assert_eq!(rt.context_mut(2)[3], 42);
    assert_eq!(rt.context_mut(1)[3], 0);
}

#[test]
fn base_thread_waits_ready_while_another_runs() {
    let mut rt = Runtime::new();
    rt.spawn(1, 2, 3);
    assert!(rt.schedule_thread());
    assert_eq!(rt.current(), 1);
    assert_eq!(rt.thread_state(0), State::Ready);
    // a finishing thread always finds the base thread to switch to
    assert!(rt.thread_return());
    assert_eq!(rt.current(), 0);
    assert_eq!(rt.thread_state(0), State::Running);
}
