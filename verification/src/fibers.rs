use vstd::prelude::*;
use crate::stack::prepare_frame;
use crate::stack::spawn_frame;
use crate::stack::address_at;
use crate::stack::aligned_top;

verus! {

/// Bytes of stack given to every green thread.
pub const DEFAULT_STACK_SIZE: usize = 1024 * 1024 * 2;

/// Threads a runtime can hold besides the base thread.
pub const MAX_THREADS: usize = 4;

/// Where a green thread stands in its life cycle.
#[derive(PartialEq, Eq, Debug, Clone, Copy, Structural)]
pub enum State {
    /// Thread is ready to be assigned a task.
    Available,
    /// Thread is running.
    Running,
    /// Thread is ready to resume execution.
    Ready,
}

/// The round-robin position `k` steps after `cur` among `n` threads.
pub open spec fn cyclic(cur: int, k: int, n: int) -> int {
    if cur + k < n {
        cur + k
    } else {
        cur + k - n
    }
}

/// The first ready thread met when walking the threads round-robin from
/// `cur` (itself included), skipping the first `k` of them.
pub open spec fn first_ready_from(states: Seq<State>, cur: int, k: int) -> Option<int>
    decreases states.len() - k,
{
    if k < 0 || k >= states.len() {
        None
    } else if states[cyclic(cur, k, states.len() as int)] == State::Ready {
        Some(cyclic(cur, k, states.len() as int))
    } else {
        first_ready_from(states, cur, k + 1)
    }
}

/// The thread that scheduling from `cur` hands the CPU to, if any is ready.
pub open spec fn next_ready(states: Seq<State>, cur: int) -> Option<int> {
    first_ready_from(states, cur, 0)
}

/// What becomes of the thread that gives up the CPU: a finished thread stays
/// available, any other one waits to be resumed.
pub open spec fn yielded(s: State) -> State {
    if s == State::Available {
        State::Available
    } else {
        State::Ready
    }
}

/// The thread states after one scheduling decision taken while `cur` runs.
pub open spec fn schedule_states(states: Seq<State>, cur: int) -> Seq<State> {
    match next_ready(states, cur) {
        None => states,
        Some(p) => states.update(cur, yielded(states[cur])).update(p, State::Running),
    }
}

/// The running thread after one scheduling decision taken while `cur` runs.
pub open spec fn schedule_current(states: Seq<State>, cur: int) -> int {
    match next_ready(states, cur) {
        None => cur,
        Some(p) => p,
    }
}

/// The states a runtime is in right after it was built: the base thread
/// runs and every other slot is free.
pub open spec fn initial_states() -> Seq<State> {
    Seq::new((MAX_THREADS + 1) as nat, |i: int| if i == 0 { State::Running } else { State::Available })
}

/// The thread table while the current thread gives up the CPU: a fixed
/// number of threads, the current one in range and either still running or
/// finished, no other thread running, the base thread never free, and ready
/// to resume whenever another thread is current.
pub open spec fn yield_wf(states: Seq<State>, cur: int) -> bool {
    &&& states.len() == MAX_THREADS + 1
    &&& 0 <= cur < states.len()
    &&& states[cur] == State::Running || states[cur] == State::Available
    &&& forall|i: int| 0 <= i < states.len() && i != cur ==> states[i] != State::Running
    &&& states[0] != State::Available
    &&& cur != 0 ==> states[0] == State::Ready
}

/// The invariant of a runtime's thread table: as `yield_wf`, with the
/// current thread the one running.
pub open spec fn states_wf(states: Seq<State>, cur: int) -> bool {
    &&& yield_wf(states, cur)
    &&& states[cur] == State::Running
}

/// Moves on from `k` in the round-robin walk past threads that are not ready.
pub proof fn lemma_first_ready_skip(states: Seq<State>, cur: int, k: int)
    requires
        0 <= k <= states.len(),
        0 <= cur < states.len(),
        forall|j: int| 0 <= j < k ==> states[cyclic(cur, j, states.len() as int)] != State::Ready,
    ensures
        first_ready_from(states, cur, 0) == first_ready_from(states, cur, k),
    decreases k,
{
    if k > 0 {
        lemma_first_ready_skip(states, cur, k - 1);
    }
}

/// The scheduler finds a thread exactly when one is ready, and the thread it
/// finds is a ready one.
pub proof fn lemma_first_ready_found(states: Seq<State>, cur: int, k: int)
    requires
        0 <= k <= states.len(),
        0 <= cur < states.len(),
    ensures
        first_ready_from(states, cur, k) matches Some(p) ==> 0 <= p < states.len() && states[p]
            == State::Ready,
        first_ready_from(states, cur, k) is None <==> forall|j: int|
            k <= j < states.len() ==> states[cyclic(cur, j, states.len() as int)] != State::Ready,
    decreases states.len() - k,
{
    if k < states.len() {
        lemma_first_ready_found(states, cur, k + 1);
    }
}

/// Every thread is met once by the round-robin walk from `cur`.
pub proof fn lemma_cyclic_covers(n: int, cur: int, i: int)
    requires
        0 <= cur < n,
        0 <= i < n,
    ensures
        0 <= (if i >= cur { i - cur } else { i - cur + n }) < n,
        cyclic(cur, if i >= cur { i - cur } else { i - cur + n }, n) == i,
{
}

/// How many round-robin steps lead from slot `from` to slot `to`.
pub open spec fn distance(from: int, to: int, n: int) -> int {
    if to >= from {
        to - from
    } else {
        to - from + n
    }
}

/// When slot `cyclic(cur, d)` is ready, the walk from step `k <= d` stops at
/// a ready slot no later than step `d`.
proof fn lemma_first_ready_within(states: Seq<State>, cur: int, k: int, d: int)
    requires
        0 <= cur < states.len(),
        0 <= k <= d < states.len(),
        states[cyclic(cur, d, states.len() as int)] == State::Ready,
    ensures
        exists|e: int|
            k <= e <= d && first_ready_from(states, cur, k) == Some(
                #[trigger] cyclic(cur, e, states.len() as int),
            ),
    decreases d - k,
{
    let n = states.len() as int;
    if states[cyclic(cur, k, n)] == State::Ready {
        assert(first_ready_from(states, cur, k) == Some(cyclic(cur, k, n)));
    } else {
        lemma_first_ready_within(states, cur, k + 1, d);
        let e = choose|e: int|
            k + 1 <= e <= d && first_ready_from(states, cur, k + 1) == Some(
                #[trigger] cyclic(cur, e, n),
            );
        assert(first_ready_from(states, cur, k) == Some(cyclic(cur, e, n)));
    }
}

/// Scheduling keeps the thread table well formed: after a switch the table
/// is well formed with the chosen thread running, even when the thread that
/// gave up the CPU had finished; without a switch nothing changes.
pub proof fn law_schedule_preserves_invariant(states: Seq<State>, cur: int)
    requires
        yield_wf(states, cur),
    ensures
        next_ready(states, cur) is Some ==> states_wf(
            schedule_states(states, cur),
            schedule_current(states, cur),
        ),
        states_wf(states, cur) ==> states_wf(
            schedule_states(states, cur),
            schedule_current(states, cur),
        ),
{
    lemma_first_ready_found(states, cur, 0);
    let t = schedule_states(states, cur);
    let c = schedule_current(states, cur);
    if let Some(p) = next_ready(states, cur) {
        assert forall|i: int| 0 <= i < t.len() && i != c implies t[i] != State::Running by {
            if i == cur {
                assert(t[i] == yielded(states[cur]));
            }
        }
        if c != 0 {
            if cur == 0 {
                assert(t[0] == yielded(states[0]));
            }
        }
    }
}

/// A thread that finishes, other than the base thread, always has a thread
/// to hand the CPU to: the base thread waits, ready, while any other runs.
/// Freeing its slot keeps the table well formed.
pub proof fn law_finishing_thread_can_switch(states: Seq<State>, cur: int)
    requires
        states_wf(states, cur),
        cur != 0,
    ensures
        yield_wf(states.update(cur, State::Available), cur),
        next_ready(states.update(cur, State::Available), cur) is Some,
{
    let s = states.update(cur, State::Available);
    lemma_cyclic_covers(s.len() as int, cur, 0);
    lemma_first_ready_found(s, cur, 0);
    assert(s[cyclic(cur, s.len() - cur, s.len() as int)] == State::Ready);
}

/// A thread that waits, ready, is never passed over: each scheduling
/// decision either hands it the CPU or moves the running slot strictly
/// closer to it in round-robin order, so it runs within as many decisions as
/// there are threads.
pub proof fn law_round_robin_progress(states: Seq<State>, cur: int, t: int)
    requires
        states_wf(states, cur),
        0 <= t < states.len(),
        states[t] == State::Ready,
    ensures
        next_ready(states, cur) is Some,
        schedule_current(states, cur) == t || distance(
            schedule_current(states, cur),
            t,
            states.len() as int,
        ) < distance(cur, t, states.len() as int),
{
    let n = states.len() as int;
    let d = distance(cur, t, n);
    lemma_cyclic_covers(n, cur, t);
    lemma_first_ready_within(states, cur, 0, d);
    let e = choose|e: int| 0 <= e <= d && first_ready_from(states, cur, 0) == Some(#[trigger] cyclic(cur, e, n));
    lemma_first_ready_found(states, cur, 0);
    assert(cyclic(cur, 0, n) == cur);
}

/// Once a thread is spawned, the next scheduling decision finds a thread to
/// switch to.
pub proof fn law_spawned_thread_can_run(states: Seq<State>, cur: int)
    requires
        states_wf(states, cur),
        first_available(states) < states.len(),
    ensures
        next_ready(states.update(first_available(states), State::Ready), cur) is Some,
{
    let s = states.update(first_available(states), State::Ready);
    let i = first_available(states);
    lemma_first_available_found(states, 0);
    lemma_cyclic_covers(states.len() as int, cur, i);
    lemma_first_ready_found(s, cur, 0);
    let j = if i >= cur { i - cur } else { i - cur + states.len() };
    assert(s[cyclic(cur, j, states.len() as int)] == State::Ready);
}

/// A finished thread is never handed the CPU: the slot chosen by scheduling
/// held a ready thread.
pub proof fn law_only_ready_threads_run(states: Seq<State>, cur: int)
    requires
        states_wf(states, cur),
    ensures
        next_ready(states, cur) matches Some(p) ==> 0 <= p < states.len() && states[p]
            == State::Ready,
{
    lemma_first_ready_found(states, cur, 0);
}

/// The round-robin walk reaches slot `cyclic(cur, e)` after `e` steps.
proof fn lemma_distance_cyclic(cur: int, e: int, n: int)
    requires
        0 <= cur < n,
        0 <= e < n,
    ensures
        distance(cur, cyclic(cur, e, n), n) == e,
        0 <= cyclic(cur, e, n) < n,
{
}

/// What one scheduling decision does, told without the round-robin walk:
/// it switches exactly when some thread is ready; it then hands the CPU to
/// the ready thread nearest after the current one in round-robin order,
/// which runs; the thread that gave up the CPU waits, ready, unless it had
/// finished; and every other thread keeps its state, so a ready thread stays
/// ready until it is chosen. Without a switch nothing changes.
pub proof fn law_schedule_decision(states: Seq<State>, cur: int)
    requires
        yield_wf(states, cur),
    ensures
        schedule_states(states, cur).len() == states.len(),
        (next_ready(states, cur) is None) <==> (forall|i: int|
            0 <= i < states.len() ==> states[i] != State::Ready),
        next_ready(states, cur) is None ==> schedule_states(states, cur) == states
            && schedule_current(states, cur) == cur,
        next_ready(states, cur) matches Some(p) ==> {
            let t = schedule_states(states, cur);
            let n = states.len() as int;
            &&& schedule_current(states, cur) == p
            &&& 0 <= p < n
            &&& p != cur
            &&& states[p] == State::Ready
            &&& t[p] == State::Running
            &&& t[cur] == (if states[cur] == State::Available {
                State::Available
            } else {
                State::Ready
            })
            &&& forall|i: int| 0 <= i < n && i != cur && i != p ==> t[i] == states[i]
            &&& forall|i: int|
                0 <= i < n && states[i] == State::Ready ==> distance(cur, p, n) <= distance(cur, i, n)
        },
{
    let n = states.len() as int;
    lemma_first_ready_found(states, cur, 0);
    if next_ready(states, cur) is None {
        assert forall|i: int| 0 <= i < states.len() implies states[i] != State::Ready by {
            lemma_cyclic_covers(n, cur, i);
        }
    } else {
        let p = next_ready(states, cur)->0;
        assert forall|i: int| 0 <= i < n && states[i] == State::Ready implies distance(cur, p, n)
            <= distance(cur, i, n) by {
            lemma_cyclic_covers(n, cur, i);
            let d = distance(cur, i, n);
            lemma_first_ready_within(states, cur, 0, d);
            let e = choose|e: int|
                0 <= e <= d && first_ready_from(states, cur, 0) == Some(#[trigger] cyclic(cur, e, n));
            lemma_distance_cyclic(cur, e, n);
        }
    }
}

/// The CPU registers a thread needs to resume where it left off, in the
/// order rsp, r15, r14, r13, r12, rbx, rbp.
pub struct ThreadContext {
    pub regs: [u64; 7],
}

impl ThreadContext {
    /// A context with every register zero.
    pub fn zeroed() -> (ctx: Self)
        ensures
            ctx.regs@ == Seq::new(7, |i: int| 0u64),
    {
        let ctx = ThreadContext { regs: [0, 0, 0, 0, 0, 0, 0] };
        assert(ctx.regs@ =~= Seq::new(7, |i: int| 0u64));
        ctx
    }
}

/// The first free slot from `k` on (`states.len()` when none is free).
pub open spec fn first_available_from(states: Seq<State>, k: int) -> int
    decreases states.len() - k,
{
    if k < 0 || k >= states.len() {
        states.len() as int
    } else if states[k] == State::Available {
        k
    } else {
        first_available_from(states, k + 1)
    }
}

/// The slot that spawning a thread takes: the first free one.
pub open spec fn first_available(states: Seq<State>) -> int {
    first_available_from(states, 0)
}

/// The first free slot is free, and no slot before it is.
pub proof fn lemma_first_available_found(states: Seq<State>, k: int)
    requires
        0 <= k <= states.len(),
    ensures
        k <= first_available_from(states, k) <= states.len(),
        first_available_from(states, k) < states.len() ==> states[first_available_from(states, k)]
            == State::Available,
        forall|j: int| k <= j < first_available_from(states, k) ==> states[j] != State::Available,
    decreases states.len() - k,
{
    if k < states.len() {
        lemma_first_available_found(states, k + 1);
    }
}

/// Spawning takes the first free slot: when a slot is free, the one chosen
/// is free, no slot before it is, and it is not the base thread's.
pub proof fn law_spawn_takes_first_free_slot(states: Seq<State>, cur: int)
    requires
        states_wf(states, cur),
        exists|i: int| 0 <= i < states.len() && states[i] == State::Available,
    ensures
        0 < first_available(states) < states.len(),
        states[first_available(states)] == State::Available,
        forall|j: int| 0 <= j < first_available(states) ==> states[j] != State::Available,
{
    lemma_first_available_found(states, 0);
}

/// The address at which a stack's bytes start. It is whatever the allocator
/// gave: nothing is promised of it.
#[verifier::external_body]
fn stack_address(stack: &Vec<u8>) -> (addr: u64) {
    stack.as_ptr() as u64
}

/// A green thread: its own stack, its saved registers and its state.
pub struct GreenThread {
    stack: Vec<u8>,
    ctx: ThreadContext,
    state: State,
}

/// A green thread taken by its state, its stack's bytes and its saved
/// registers.
pub struct GreenThreadView {
    pub state: State,
    pub stack: Seq<u8>,
    pub regs: Seq<u64>,
}

impl View for GreenThread {
    type V = GreenThreadView;

    closed spec fn view(&self) -> GreenThreadView {
        GreenThreadView { state: self.state, stack: self.stack@, regs: self.ctx.regs@ }
    }
}

impl GreenThread {
    /// A free thread with a zeroed stack of `DEFAULT_STACK_SIZE` bytes.
    pub fn new() -> (t: Self)
        ensures
            t@.state == State::Available,
            t@.stack == Seq::new(DEFAULT_STACK_SIZE as nat, |i: int| 0u8),
            t@.regs == Seq::new(7, |i: int| 0u64),
    {
        let t = GreenThread {
            stack: vec![0u8; DEFAULT_STACK_SIZE],
            ctx: ThreadContext::zeroed(),
            state: State::Available,
        };
        assert(t.stack@ =~= Seq::new(DEFAULT_STACK_SIZE as nat, |i: int| 0u8));
        t
    }

    /// Where the thread stands.
    pub fn state(&self) -> (s: State)
        ensures
            s == self@.state,
    {
        self.state
    }

    /// The thread's stack.
    pub fn stack(&self) -> (stack: &Vec<u8>)
        ensures
            stack@ == self@.stack,
    {
        &self.stack
    }

    /// The thread's saved registers.
    pub fn context(&self) -> (ctx: &ThreadContext)
        ensures
            ctx.regs@ == self@.regs,
    {
        &self.ctx
    }
}

/// A cooperative scheduler over a fixed table of green threads.
pub struct Runtime {
    threads: Vec<GreenThread>,
    /// The thread that is currently running.
    current: usize,
}

impl Runtime {
    /// The states of the threads, by slot.
    pub closed spec fn states(&self) -> Seq<State> {
        Seq::new(self.threads@.len(), |i: int| self.threads@[i].state)
    }

    /// The slot of the thread that is currently running.
    pub closed spec fn cur(&self) -> int {
        self.current as int
    }

    /// The stacks of the threads, by slot.
    pub closed spec fn stacks(&self) -> Seq<Seq<u8>> {
        Seq::new(self.threads@.len(), |i: int| self.threads@[i].stack@)
    }

    /// The saved registers of the threads, by slot.
    pub closed spec fn contexts(&self) -> Seq<Seq<u64>> {
        Seq::new(self.threads@.len(), |i: int| self.threads@[i].ctx.regs@)
    }

    /// Every thread owns a full-size stack and a saved context of seven
    /// registers.
    pub open spec fn storage_wf(&self) -> bool {
        &&& self.stacks().len() == self.states().len()
        &&& self.contexts().len() == self.states().len()
        &&& forall|i: int|
            0 <= i < self.stacks().len() ==> #[trigger] self.stacks()[i].len() == DEFAULT_STACK_SIZE
        &&& forall|i: int| 0 <= i < self.contexts().len() ==> #[trigger] self.contexts()[i].len() == 7
    }

    /// The runtime's invariant: its thread table is well formed (see
    /// `states_wf`) and its storage too (see `storage_wf`).
    pub open spec fn wf(&self) -> bool {
        &&& states_wf(self.states(), self.cur())
        &&& self.storage_wf()
    }

    /// A runtime whose base thread (slot 0) is the caller, running, beside
    /// `MAX_THREADS` free threads.
    pub fn new() -> (rt: Self)
        ensures
            rt.wf(),
            rt.cur() == 0,
            rt.states() == initial_states(),
            rt.stacks().len() == MAX_THREADS + 1,
            rt.contexts().len() == MAX_THREADS + 1,
            forall|i: int|
                0 <= i <= MAX_THREADS ==> #[trigger] rt.contexts()[i] == Seq::new(7, |j: int| 0u64),
            forall|i: int|
                0 <= i <= MAX_THREADS ==> #[trigger] rt.stacks()[i] == Seq::new(
                    DEFAULT_STACK_SIZE as nat,
                    |j: int| 0u8,
                ),
    {
        let base_thread = GreenThread {
            stack: vec![0u8; DEFAULT_STACK_SIZE],
            ctx: ThreadContext::zeroed(),
            state: State::Running,
        };
        assert(base_thread.stack@ =~= Seq::new(DEFAULT_STACK_SIZE as nat, |j: int| 0u8));
        let mut threads: Vec<GreenThread> = Vec::with_capacity(MAX_THREADS + 1);
        threads.push(base_thread);
        for k in 0..MAX_THREADS
            invariant
                threads@.len() == k + 1,
                threads@[0].state == State::Running,
                forall|i: int|
                    0 <= i < threads@.len() ==> #[trigger] threads@[i].ctx.regs@ == Seq::new(7, |j: int| 0u64),
                forall|i: int| 1 <= i < threads@.len() ==> #[trigger] threads@[i].state == State::Available,
                forall|i: int|
                    0 <= i < threads@.len() ==> #[trigger] threads@[i].stack@ == Seq::new(
                        DEFAULT_STACK_SIZE as nat,
                        |j: int| 0u8,
                    ),
        {
            threads.push(GreenThread::new());
        }
        let rt = Runtime { threads, current: 0 };
        assert(rt.states() =~= initial_states());
        rt
    }

    /// The slot of the thread that is currently running.
    pub fn current(&self) -> (c: usize)
        ensures
            c == self.cur(),
    {
        self.current
    }

    /// Hands the CPU, in round-robin order from the running thread, to the
    /// first thread that is ready to resume. The thread that gives it up is
    /// marked ready, unless it has finished. Returns whether a thread was
    /// found; the caller then switches from the old current thread's context
    /// to the new one's.
    pub fn schedule_thread(&mut self) -> (switched: bool)
        requires
            old(self).wf(),
        ensures
            final(self).wf(),
            switched == (next_ready(old(self).states(), old(self).cur()) is Some),
            final(self).states() == schedule_states(old(self).states(), old(self).cur()),
            final(self).cur() == schedule_current(old(self).states(), old(self).cur()),
            final(self).stacks() == old(self).stacks(),
            final(self).contexts() == old(self).contexts(),
    {
        self.switch_away()
    }

    /// The scheduling decision itself, taken also when the current thread
    /// has just finished.
    fn switch_away(&mut self) -> (switched: bool)
        requires
            yield_wf(old(self).states(), old(self).cur()),
            old(self).storage_wf(),
        ensures
            switched || states_wf(old(self).states(), old(self).cur()) ==> final(self).wf(),
            switched == (next_ready(old(self).states(), old(self).cur()) is Some),
            final(self).states() == schedule_states(old(self).states(), old(self).cur()),
            final(self).cur() == schedule_current(old(self).states(), old(self).cur()),
            final(self).stacks() == old(self).stacks(),
            final(self).contexts() == old(self).contexts(),
    {
        let ghost states = self.states();
        let ghost cur = self.cur();
        let ghost n = states.len() as int;
        let len = self.threads.len();
        let mut pos = self.current;
        let ghost mut k: int = 0;
        proof {
            lemma_first_ready_found(states, cur, 0);
        }
        while self.threads[pos].state != State::Ready
            invariant
                self.states() == states,
                self.cur() == cur,
                yield_wf(states, cur),
                self.storage_wf(),
                *old(self) == *self,
                len == n,
                n == states.len(),
                self.threads@.len() == n,
                0 <= k < n,
                pos == cyclic(cur, k, n),
                forall|j: int| 0 <= j < k ==> states[cyclic(cur, j, n)] != State::Ready,
            decreases n - k,
        {
            assert(states[pos as int] == self.threads@[pos as int].state);
            pos = pos + 1;
            if pos == len {
                pos = 0;
            }
            proof {
                k = k + 1;
            }
            if pos == self.current {
                proof {
                    lemma_first_ready_skip(states, cur, k);
                    lemma_first_ready_found(states, cur, k);
                }
                return false;
            }
        }
        proof {
            assert(states[pos as int] == self.threads@[pos as int].state);
            lemma_first_ready_skip(states, cur, k);
            assert(next_ready(states, cur) == Some(pos as int));
        }
        let old_pos = self.current;
        if self.threads[old_pos].state != State::Available {
            self.threads[old_pos].state = State::Ready;
        }
        self.threads[pos].state = State::Running;
        self.current = pos;
        assert(self.states() =~= schedule_states(states, cur));
        assert(self.stacks() =~= old(self).stacks());
        assert(self.contexts() =~= old(self).contexts());
        proof {
            law_schedule_preserves_invariant(states, cur);
        }
        true
    }

    /// Ends the running thread: unless it is the base thread, its slot
    /// becomes free and the CPU goes to the next ready thread, as
    /// `schedule_thread` chooses it. Returns whether a switch is due.
    pub fn thread_return(&mut self) -> (switched: bool)
        requires
            old(self).wf(),
        ensures
            final(self).wf(),
            final(self).stacks() == old(self).stacks(),
            final(self).contexts() == old(self).contexts(),
            old(self).cur() == 0 ==> !switched && final(self).states() == old(self).states()
                && final(self).cur() == 0,
            old(self).cur() != 0 ==> {
                let s = old(self).states().update(old(self).cur(), State::Available);
                &&& switched
                &&& final(self).states() == schedule_states(s, old(self).cur())
                &&& final(self).cur() == schedule_current(s, old(self).cur())
            },
    {
        if self.current != 0 {
            let cur = self.current;
            self.threads[cur].state = State::Available;
            assert(self.states() =~= old(self).states().update(old(self).cur(), State::Available));
            proof {
                law_finishing_thread_can_switch(old(self).states(), old(self).cur());
            }
            assert(self.stacks() =~= old(self).stacks());
            assert(self.contexts() =~= old(self).contexts());
            self.switch_away()
        } else {
            false
        }
    }

    /// Gives the first free slot a thread that starts at address `f`: its
    /// stack receives the starting frame (see `prepare_frame`), with `guard`
    /// and `skip` the addresses of the return path, its saved stack pointer
    /// points at that frame, 16-byte aligned, and it becomes ready. The
    /// stack's address is whatever the allocator gave, so the frame is stated
    /// for some address. A free slot must exist.
    pub fn spawn(&mut self, f: u64, guard: u64, skip: u64)
        requires
            old(self).wf(),
            exists|i: int| 0 <= i < old(self).states().len() && old(self).states()[i] == State::Available,
        ensures
            final(self).wf(),
            ({
                let i = first_available(old(self).states());
                &&& 0 < i < old(self).states().len()
                &&& old(self).states()[i] == State::Available
                &&& final(self).states() == old(self).states().update(i, State::Ready)
                &&& final(self).cur() == old(self).cur()
                &&& final(self).contexts()[i][0] % 16 == 0
                &&& exists|base: u64| {
                    &&& final(self).stacks() == old(self).stacks().update(
                        i,
                        #[trigger] spawn_frame(old(self).stacks()[i], base, f, guard, skip),
                    )
                    &&& final(self).contexts() == old(self).contexts().update(
                        i,
                        old(self).contexts()[i].update(0, address_at(base, aligned_top(base, DEFAULT_STACK_SIZE as int) - 32)),
                    )
                }
            }),
    {
        let ghost states = self.states();
        proof {
            lemma_first_available_found(states, 0);
            assert(first_available(states) < states.len());
        }
        let mut i: usize = 0;
        while self.threads[i].state != State::Available
            invariant
                self.states() == states,
                self.threads@.len() == states.len(),
                self.threads.len() == states.len(),
                0 <= i <= first_available(states) < states.len(),
                first_available(states) < states.len() ==> states[first_available(states)] == State::Available,
                forall|j: int| 0 <= j < first_available(states) ==> states[j] != State::Available,
            decreases first_available(states) - i,
        {
            assert(states[i as int] == self.threads@[i as int].state);
            i = i + 1;
        }
        proof {
            assert(states[i as int] == self.threads@[i as int].state);
        }
        assert(self.stacks()[i as int] == self.threads@[i as int].stack@);
        let mut stack: Vec<u8> = Vec::new();
        std::mem::swap(&mut stack, &mut self.threads[i].stack);
        let base = stack_address(&stack);
        let rsp = prepare_frame(&mut stack, base, f, guard, skip);
        std::mem::swap(&mut stack, &mut self.threads[i].stack);
        self.threads[i].ctx.regs[0] = rsp;
        self.threads[i].state = State::Ready;
        assert(self.states() =~= old(self).states().update(i as int, State::Ready));
        assert(self.stacks() =~= old(self).stacks().update(
            i as int,
            spawn_frame(old(self).stacks()[i as int], base, f, guard, skip),
        ));
        assert(self.contexts() =~= old(self).contexts().update(
            i as int,
            old(self).contexts()[i as int].update(0, address_at(base, aligned_top(base, DEFAULT_STACK_SIZE as int) - 32)),
        ));
    }

    /// The state of the thread in slot `i`.
    pub fn thread_state(&self, i: usize) -> (s: State)
        requires
            i < self.states().len(),
        ensures
            s == self.states()[i as int],
    {
        self.threads[i].state
    }

    /// The stack of the thread in slot `i`.
    pub fn stack(&self, i: usize) -> (stack: &Vec<u8>)
        requires
            i < self.states().len(),
        ensures
            stack@ == self.stacks()[i as int],
    {
        &self.threads[i].stack
    }

    /// The saved registers of the thread in slot `i`, for the context switch
    /// to save into or load from.
    pub fn context_mut(&mut self, i: usize) -> (regs: &mut [u64; 7])
        requires
            old(self).wf(),
            i < old(self).states().len(),
        ensures
            regs@ == old(self).contexts()[i as int],
            final(self).contexts() == old(self).contexts().update(i as int, final(regs)@),
            final(self).states() == old(self).states(),
            final(self).cur() == old(self).cur(),
            final(self).stacks() == old(self).stacks(),
    {
        &mut self.threads[i].ctx.regs
    }
}


} // verus!
