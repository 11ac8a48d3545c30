//! The cooperative fiber scheduler: a fixed pool of execution-context slots
//! multiplexed onto one hardware thread by explicit `t_yield` calls, in
//! strict round-robin order by slot index.
//!
//! The raw register save/restore of a native context switch is a hardware
//! operation and lives outside this crate; a saved context is modelled as the
//! callee-preserved register set plus a stack-word index standing for the
//! resume point. Every slot-state transition performed around a switch is
//! specified and verified here.

use vstd::prelude::*;

use crate::queue::ThreadQueue;

verus! {

/// Number of slots in the fixed pool; slot 0 is the always-present boot
/// context.
pub const MAX_THREADS: usize = 32;

/// Length of each slot's stack, in 8-byte words.
pub const STACK_WORDS: usize = 512;

/// Stand-in for the return address of the termination guard: a normal return
/// from a fiber body must land there so the slot is reclaimed rather than
/// falling through.
pub const GUARD_ENTRY: u64 = 0xFFFF_FFFF_0000_0001;

/// Stand-in for the return address of the empty shim that keeps the primed
/// stack's return-address bookkeeping balanced between the body and the
/// guard.
pub const SKIP_ENTRY: u64 = 0xFFFF_FFFF_0000_0002;

/// The lifecycle state of a slot.
#[derive(Copy, Clone, PartialEq, Eq, Structural, Debug)]
pub enum State {
    /// Free for reuse by a later `spawn`.
    Available,
    /// Currently executing; exactly one slot is Running while the scheduler
    /// is active.
    Running,
    /// Holds a valid saved context and is eligible for selection.
    Ready,
}

/// The minimal register set that must survive a cooperative switch under the
/// platform calling convention, plus the stack pointer. `rsp` holds the
/// stack-word index of the resume point.
#[derive(Copy, Clone, PartialEq, Eq, Structural, Debug)]
pub struct ThreadContext {
    pub rsp: u64,
    pub r15: u64,
    pub r14: u64,
    pub r13: u64,
    pub r12: u64,
    pub rbx: u64,
    pub rbp: u64,
}

impl ThreadContext {
    pub open spec fn spec_zeroed() -> ThreadContext {
        ThreadContext { rsp: 0, r15: 0, r14: 0, r13: 0, r12: 0, rbx: 0, rbp: 0 }
    }

    pub fn zeroed() -> (c: ThreadContext)
        ensures
            c == ThreadContext::spec_zeroed(),
    {
        ThreadContext { rsp: 0, r15: 0, r14: 0, r13: 0, r12: 0, rbx: 0, rbp: 0 }
    }
}

/// One execution-context slot: a dedicated stack, a saved context, and a
/// state tag.
pub struct Thread {
    pub stack: Vec<u64>,
    pub ctx: ThreadContext,
    pub state: State,
}

/// The mathematical value of a slot.
#[verifier::ext_equal]
pub ghost struct ThreadSnap {
    pub stack: Seq<u64>,
    pub ctx: ThreadContext,
    pub state: State,
}

impl View for Thread {
    type V = ThreadSnap;

    open spec fn view(&self) -> ThreadSnap {
        ThreadSnap { stack: self.stack@, ctx: self.ctx, state: self.state }
    }
}

impl ThreadSnap {
    pub open spec fn wf(self) -> bool {
        self.stack.len() == STACK_WORDS
    }

    /// The slot after its stack has been primed for `entry`: the three
    /// conventional return addresses are written top-down (guard outermost,
    /// shim, then the fiber body innermost) and the saved stack pointer is
    /// left at the body's word, so the first switch into the slot resumes at
    /// `entry`.
    pub open spec fn primed(self, entry: u64) -> ThreadSnap {
        ThreadSnap {
            stack: self.stack.update(STACK_WORDS - 2, GUARD_ENTRY).update(
                STACK_WORDS - 3,
                SKIP_ENTRY,
            ).update(STACK_WORDS - 4, entry),
            ctx: ThreadContext { rsp: (STACK_WORDS - 4) as u64, ..self.ctx },
            state: State::Ready,
        }
    }
}

impl Thread {
    pub fn new() -> (t: Thread)
        ensures
            t@.state == State::Available,
            t@.ctx == ThreadContext::spec_zeroed(),
            t@.stack.len() == STACK_WORDS,
            forall|i: int| 0 <= i < t@.stack.len() ==> t@.stack[i] == 0,
    {
        Thread { stack: zeroed_stack(), ctx: ThreadContext::zeroed(), state: State::Available }
    }
}

fn zeroed_stack() -> (v: Vec<u64>)
    ensures
        v@.len() == STACK_WORDS,
        forall|i: int| 0 <= i < v@.len() ==> v@[i] == 0,
{
    let mut v: Vec<u64> = Vec::new();
    let mut i: usize = 0;
    while i < STACK_WORDS
        invariant
            i <= STACK_WORDS,
            v@.len() == i,
            forall|j: int| 0 <= j < v@.len() ==> v@[j] == 0,
        decreases STACK_WORDS - i,
    {
        v.push(0);
        i = i + 1;
    }
    v
}

/// How many slots of `threads` are in state `st`.
pub open spec fn count_state(threads: Seq<ThreadSnap>, st: State) -> int
    decreases threads.len(),
{
    if threads.len() == 0 {
        0
    } else {
        count_state(threads.drop_last(), st) + if threads.last().state == st {
            1int
        } else {
            0int
        }
    }
}

/// The slot index at cyclic offset `d` after `cur`.
pub open spec fn cyc(cur: int, d: int) -> int {
    (cur + d) % (MAX_THREADS as int)
}

/// The offset, counted from `d` upward, of the first slot in state Ready in
/// the cyclic scan order starting at `cur`; `None` when no slot at offset
/// `d..MAX_THREADS` is Ready.
pub open spec fn first_ready_offset(threads: Seq<ThreadSnap>, cur: int, d: nat) -> Option<int>
    decreases MAX_THREADS - d,
{
    if d >= MAX_THREADS {
        None
    } else if threads[cyc(cur, d as int)].state == State::Ready {
        Some(d as int)
    } else {
        first_ready_offset(threads, cur, d + 1)
    }
}

/// The smallest slot index at or after `i` in state Available; `None` when
/// every slot at `i..` is taken.
pub open spec fn first_available_from(threads: Seq<ThreadSnap>, i: nat) -> Option<int>
    decreases threads.len() - i,
{
    if i >= threads.len() {
        None
    } else if threads[i as int].state == State::Available {
        Some(i as int)
    } else {
        first_available_from(threads, i + 1)
    }
}

/// Feeds the queued entries, in submission order, to the slot pool: each
/// entry primes the first Available slot. When the pool runs out of
/// Available slots the remaining entries are kept.
pub open spec fn drain_into(threads: Seq<ThreadSnap>, items: Seq<u64>) -> (Seq<ThreadSnap>, Seq<
    u64,
>)
    decreases items.len(),
{
    if items.len() == 0 {
        (threads, items)
    } else {
        match first_available_from(threads, 0) {
            Option::None => (threads, items),
            Option::Some(i) => drain_into(
                threads.update(i, threads[i].primed(items[0])),
                items.drop_first(),
            ),
        }
    }
}

/// The mathematical value of the scheduler.
#[verifier::ext_equal]
pub ghost struct RuntimeSnap {
    pub threads: Seq<ThreadSnap>,
    pub current: int,
    pub queue: Seq<u64>,
}

impl RuntimeSnap {
    /// Structural well-formedness: the pool has its fixed size, every stack
    /// has its fixed length, no slot other than `current` is Running, and
    /// the boot slot is never reclaimed.
    pub open spec fn wf(self) -> bool {
        &&& self.threads.len() == MAX_THREADS
        &&& 0 <= self.current < MAX_THREADS as int
        &&& forall|i: int| 0 <= i < self.threads.len() ==> (#[trigger] self.threads[i]).wf()
        &&& forall|i: int|
            0 <= i < self.threads.len() && i != self.current ==> (#[trigger] self.threads[i]).state
                != State::Running
        &&& self.threads[0].state != State::Available
    }

    /// The scheduler's rest state between operations: well-formed, with the
    /// current slot actually Running.
    pub open spec fn active(self) -> bool {
        self.wf() && self.threads[self.current].state == State::Running
    }

    /// The slot a `t_yield` switches to: the first Ready slot in the cyclic
    /// scan starting at `current`.
    pub open spec fn switch_target(self) -> Option<int> {
        match first_ready_offset(self.threads, self.current, 0) {
            Option::None => Option::None,
            Option::Some(d) => Option::Some(cyc(self.current, d)),
        }
    }

    /// The pool after the switch itself: the outgoing slot is downgraded
    /// Running -> Ready (unless it had just been reclaimed), the incoming
    /// slot `j` becomes Running and current.
    pub open spec fn switched_to(self, j: int) -> RuntimeSnap {
        let outgoing = if self.threads[self.current].state != State::Available {
            self.threads.update(
                self.current,
                ThreadSnap { state: State::Ready, ..self.threads[self.current] },
            )
        } else {
            self.threads
        };
        RuntimeSnap {
            threads: outgoing.update(j, ThreadSnap { state: State::Running, ..outgoing[j] }),
            current: j,
            queue: self.queue,
        }
    }

    /// The scheduler after one `t_yield` call: no change when nothing is
    /// runnable; otherwise the switch followed by a drain of the spawn
    /// queue.
    pub open spec fn yielded(self) -> RuntimeSnap {
        match self.switch_target() {
            Option::None => self,
            Option::Some(j) => {
                let s = self.switched_to(j);
                let (threads, queue) = drain_into(s.threads, s.queue);
                RuntimeSnap { threads, current: j, queue }
            },
        }
    }

    /// The pool after `entry` is spawned: the first Available slot is
    /// primed; nothing changes when no slot is free.
    pub open spec fn spawn_result(self, entry: u64) -> RuntimeSnap {
        match first_available_from(self.threads, 0) {
            Option::None => self,
            Option::Some(i) => RuntimeSnap {
                threads: self.threads.update(i, self.threads[i].primed(entry)),
                ..self
            },
        }
    }

    /// The scheduler after the termination path runs for the current fiber:
    /// the slot is reclaimed and execution is handed off through `t_yield`.
    /// The boot slot is never reclaimed.
    pub open spec fn returned(self) -> RuntimeSnap {
        if self.current == 0 {
            self
        } else {
            RuntimeSnap {
                threads: self.threads.update(
                    self.current,
                    ThreadSnap { state: State::Available, ..self.threads[self.current] },
                ),
                ..self
            }.yielded()
        }
    }
}

/// `spawn` found no Available slot: the pool is at capacity.
#[derive(Copy, Clone, PartialEq, Eq, Structural, Debug)]
pub enum SpawnError {
    NoAvailableSlot,
}

/// The scheduler: the fixed slot pool, the index of the Running slot, and
/// the cross-context spawn queue drained at switch points.
pub struct Runtime {
    pub threads: Vec<Thread>,
    pub current: usize,
    pub queue: ThreadQueue,
}

impl View for Runtime {
    type V = RuntimeSnap;

    open spec fn view(&self) -> RuntimeSnap {
        RuntimeSnap {
            threads: self.threads@.map_values(|t: Thread| t@),
            current: self.current as int,
            queue: self.queue.contents@,
        }
    }
}

impl Runtime {
    /// A fresh scheduler: slot 0 is the Running boot context, every other
    /// slot is Available, the spawn queue is empty, and every slot is
    /// zero-initialized — a zeroed saved context over a dedicated
    /// zero-filled stack.
    pub fn new() -> (rt: Runtime)
        ensures
            rt@.active(),
            rt@.current == 0,
            rt@.queue.len() == 0,
            rt@.threads[0].state == State::Running,
            forall|i: int|
                1 <= i < MAX_THREADS ==> (#[trigger] rt@.threads[i]).state == State::Available,
            forall|i: int|
                0 <= i < MAX_THREADS ==> (#[trigger] rt@.threads[i]).ctx
                    == ThreadContext::spec_zeroed(),
            forall|i: int, j: int|
                0 <= i < MAX_THREADS && 0 <= j < STACK_WORDS ==> #[trigger] rt@.threads[i].stack[j]
                    == 0,
    {
        let mut threads: Vec<Thread> = Vec::new();
        let mut base = Thread::new();
        base.state = State::Running;
        threads.push(base);
        let mut i: usize = 1;
        while i < MAX_THREADS
            invariant
                1 <= i <= MAX_THREADS,
                threads@.len() == i,
                threads@[0]@.state == State::Running,
                forall|j: int| 0 <= j < i ==> (#[trigger] threads@[j]@).wf(),
                forall|j: int| 1 <= j < i ==> (#[trigger] threads@[j]@).state == State::Available,
                forall|j: int|
                    0 <= j < i ==> (#[trigger] threads@[j]@).ctx == ThreadContext::spec_zeroed(),
                forall|j: int, k: int|
                    0 <= j < i && 0 <= k < STACK_WORDS ==> #[trigger] threads@[j]@.stack[k] == 0,
            decreases MAX_THREADS - i,
        {
            threads.push(Thread::new());
            i = i + 1;
        }
        let rt = Runtime { threads, current: 0, queue: ThreadQueue::new() };
        proof {
            assert(forall|j: int|
                0 <= j < MAX_THREADS ==> rt@.threads[j] == rt.threads@[j]@);
        }
        rt
    }

    /// Primes the first Available slot so that the first switch into it
    /// resumes at `f`, and marks it Ready. Fails with a capacity error, and
    /// changes nothing, when every slot is taken.
    pub fn spawn(&mut self, f: u64) -> (r: Result<usize, SpawnError>)
        requires
            old(self)@.wf(),
        ensures
            final(self)@ == old(self)@.spawn_result(f),
            final(self)@.wf(),
            match r {
                Ok(i) => first_available_from(old(self)@.threads, 0) == Some(i as int),
                Err(_) => first_available_from(old(self)@.threads, 0) is None && final(self)@
                    == old(self)@,
            },
    {
        let len = self.threads.len();
        let mut i: usize = 0;
        let mut found: bool = false;
        while i < len && !found
            invariant
                *self == *old(self),
                len == MAX_THREADS,
                old(self)@.wf(),
                i <= len,
                !found ==> first_available_from(old(self)@.threads, 0) == first_available_from(
                    old(self)@.threads,
                    i as nat,
                ),
                found ==> i < len && first_available_from(old(self)@.threads, 0) == Some(i as int),
            decreases len - i, (if found { 0int } else { 1int }),
        {
            if self.threads[i].state == State::Available {
                found = true;
            } else {
                i = i + 1;
            }
        }
        if !found {
            return Err(SpawnError::NoAvailableSlot);
        }
        let w = STACK_WORDS;
        self.threads[i].stack[w - 2] = GUARD_ENTRY;
        self.threads[i].stack[w - 3] = SKIP_ENTRY;
        self.threads[i].stack[w - 4] = f;
        self.threads[i].ctx.rsp = (w - 4) as u64;
        self.threads[i].state = State::Ready;
        proof {
            assert(final(self)@.threads =~~= old(self)@.spawn_result(f).threads);
            assert(final(self)@ =~~= old(self)@.spawn_result(f));
            lemma_first_available_props(old(self)@.threads, 0);
        }
        Ok(i)
    }
}

impl Runtime {
    /// One cooperative switch: scans for the first Ready slot in cyclic
    /// order starting right at the current index, and reports `false`
    /// ("nothing runnable") without any change when no slot is Ready.
    /// Otherwise the outgoing slot is downgraded, the incoming slot becomes
    /// Running and current — in a native build the raw context swap happens
    /// at that point — and the spawn queue is drained into fresh slots.
    pub fn t_yield(&mut self) -> (switched: bool)
        requires
            old(self)@.wf(),
            old(self)@.threads[old(self)@.current].state == State::Running || old(
                self,
            )@.threads[old(self)@.current].state == State::Available,
        ensures
            final(self)@ == old(self)@.yielded(),
            switched == (old(self)@.switch_target() is Some),
            final(self)@.wf(),
            switched ==> final(self)@.active(),
            !switched ==> final(self)@ == old(self)@,
    {
        let ghost cur = old(self)@.current;
        let len = self.threads.len();
        let mut d: usize = 0;
        let mut pos: usize = self.current;
        let mut found: bool = false;
        while d < len && !found
            invariant
                *self == *old(self),
                old(self)@.wf(),
                len == MAX_THREADS,
                d <= len,
                pos < len,
                cur == old(self)@.current,
                !found ==> pos as int == cyc(cur, d as int),
                !found ==> first_ready_offset(old(self)@.threads, cur, 0) == first_ready_offset(
                    old(self)@.threads,
                    cur,
                    d as nat,
                ),
                found ==> d < len && pos as int == cyc(cur, d as int) && first_ready_offset(
                    old(self)@.threads,
                    cur,
                    0,
                ) == Some(d as int),
            decreases len - d, (if found {
                0int
            } else {
                1int
            }),
        {
            if self.threads[pos].state == State::Ready {
                found = true;
            } else {
                pos = if pos + 1 == len {
                    0
                } else {
                    pos + 1
                };
                d = d + 1;
            }
        }
        if !found {
            return false;
        }
        let target = pos;
        if self.threads[self.current].state != State::Available {
            self.threads[self.current].state = State::Ready;
        }
        self.threads[target].state = State::Running;
        self.current = target;
        let ghost mid = old(self)@.switched_to(target as int);
        proof {
            assert(self@.threads =~~= mid.threads);
            assert(self@ =~~= mid);
            lemma_first_ready_props(old(self)@.threads, cur, 0);
        }
        let qlen = self.queue.contents.len();
        proof {
            assert(mid.queue.subrange(0, qlen as int) =~= mid.queue);
        }
        let mut k: usize = 0;
        let mut stopped: bool = false;
        while k < qlen && !stopped
            invariant
                self@.wf(),
                self@.current == mid.current,
                self@.threads[mid.current].state == State::Running,
                self@.queue == mid.queue,
                qlen == mid.queue.len(),
                k <= qlen,
                drain_into(mid.threads, mid.queue) == drain_into(
                    self@.threads,
                    mid.queue.subrange(k as int, qlen as int),
                ),
                stopped ==> first_available_from(self@.threads, 0) is None,
            decreases qlen - k, (if stopped {
                0int
            } else {
                1int
            }),
        {
            let item = self.queue.contents[k];
            let ghost pre = self@;
            match self.spawn(item) {
                Ok(_) => {
                    proof {
                        lemma_first_available_props(pre.threads, 0);
                        let q_rem = pre.queue.subrange(k as int, qlen as int);
                        assert(q_rem[0] == item);
                        assert(q_rem.drop_first() =~= mid.queue.subrange(k + 1, qlen as int));
                    }
                    k = k + 1;
                },
                Err(_) => {
                    stopped = true;
                },
            }
        }
        proof {
            if !stopped {
                assert(mid.queue.subrange(qlen as int, qlen as int) =~= Seq::<u64>::empty());
            }
        }
        let mut rest: Vec<u64> = Vec::new();
        let mut j: usize = k;
        while j < qlen
            invariant
                self@.queue == mid.queue,
                qlen == mid.queue.len(),
                k <= j <= qlen,
                rest@ =~= mid.queue.subrange(k as int, j as int),
            decreases qlen - j,
        {
            rest.push(self.queue.contents[j]);
            j = j + 1;
        }
        proof {
            assert(rest@ =~= mid.queue.subrange(k as int, qlen as int));
        }
        self.queue.contents = rest;
        proof {
            assert(self@ =~~= old(self)@.yielded());
            lemma_drain_preserves(mid.threads, mid.queue, mid.current);
        }
        true
    }
}

impl Runtime {
    /// The termination path: when a fiber body returns, its slot (never the
    /// boot slot) is reclaimed and execution is handed off through
    /// `t_yield` — a finished fiber never falls through.
    pub fn t_return(&mut self)
        requires
            old(self)@.active(),
        ensures
            final(self)@ == old(self)@.returned(),
            final(self)@.active(),
    {
        if self.current != 0 {
            let ghost cur = old(self)@.current;
            self.threads[self.current].state = State::Available;
            let ghost freed = RuntimeSnap {
                threads: old(self)@.threads.update(
                    cur,
                    ThreadSnap { state: State::Available, ..old(self)@.threads[cur] },
                ),
                ..old(self)@
            };
            proof {
                assert(self@ =~~= freed);
                // The boot slot is suspended — neither Running (the
                // terminating slot was) nor Available (never reclaimed) —
                // so the handoff always finds a Ready slot.
                assert(freed.threads[0].state == State::Ready);
                let e = (MAX_THREADS as int - cur) % (MAX_THREADS as int);
                assert(cyc(cur, e) == 0);
                assert(freed.threads[cyc(cur, e)].state == State::Ready);
                lemma_first_ready_finds(freed.threads, cur, 0, e);
            }
            let switched = self.t_yield();
        }
    }
}

/// Everything `first_ready_offset` promises of its result: the returned
/// offset is the nearest Ready slot in the cyclic scan order, and a `None`
/// answer means no slot at offset `d` or beyond is Ready. This is the strict
/// round-robin rule: starting from the running slot, `t_yield` passes over
/// slots in increasing index order modulo wraparound and takes the first
/// Ready one.
pub proof fn lemma_first_ready_props(threads: Seq<ThreadSnap>, cur: int, d: nat)
    ensures
        match first_ready_offset(threads, cur, d) {
            Option::Some(e) => d <= e < MAX_THREADS && threads[cyc(cur, e)].state == State::Ready
                && forall|k: int|
                d <= k < e ==> threads[#[trigger] cyc(cur, k)].state != State::Ready,
            Option::None => forall|k: int|
                d <= k < MAX_THREADS ==> threads[#[trigger] cyc(cur, k)].state != State::Ready,
        },
    decreases MAX_THREADS - d,
{
    if d >= MAX_THREADS {
    } else if threads[cyc(cur, d as int)].state == State::Ready {
    } else {
        lemma_first_ready_props(threads, cur, d + 1);
    }
}

/// A Ready slot at offset `e` guarantees that the cyclic scan finds some
/// Ready slot.
pub proof fn lemma_first_ready_finds(threads: Seq<ThreadSnap>, cur: int, d: nat, e: int)
    requires
        d <= e < MAX_THREADS,
        threads[cyc(cur, e)].state == State::Ready,
    ensures
        first_ready_offset(threads, cur, d) is Some,
    decreases e - d,
{
    if threads[cyc(cur, d as int)].state == State::Ready {
    } else {
        lemma_first_ready_finds(threads, cur, d + 1, e);
    }
}

/// Draining the spawn queue only fills Available slots: the running slot,
/// the uniqueness of Running, every stack length, and the boot slot's
/// occupancy all survive.
proof fn lemma_drain_preserves(threads: Seq<ThreadSnap>, items: Seq<u64>, cur: int)
    requires
        threads.len() == MAX_THREADS,
        0 <= cur < MAX_THREADS as int,
        forall|i: int| 0 <= i < threads.len() ==> (#[trigger] threads[i]).wf(),
        threads[cur].state == State::Running,
        forall|i: int|
            0 <= i < threads.len() && i != cur ==> (#[trigger] threads[i]).state != State::Running,
        threads[0].state != State::Available,
    ensures
        ({
            let (t, q) = drain_into(threads, items);
            &&& t.len() == MAX_THREADS
            &&& forall|i: int| 0 <= i < t.len() ==> (#[trigger] t[i]).wf()
            &&& t[cur].state == State::Running
            &&& forall|i: int|
                0 <= i < t.len() && i != cur ==> (#[trigger] t[i]).state != State::Running
            &&& t[0].state != State::Available
        }),
    decreases items.len(),
{
    if items.len() == 0 {
    } else {
        match first_available_from(threads, 0) {
            Option::None => {},
            Option::Some(i) => {
                lemma_first_available_props(threads, 0);
                let t1 = threads.update(i, threads[i].primed(items[0]));
                lemma_drain_preserves(t1, items.drop_first(), cur);
            },
        }
    }
}

/// A switch never targets an Available slot: whatever slot `t_yield`
/// selects is Ready at selection time, so a completed, reclaimed slot is
/// never re-visited until a later spawn primes it again.
pub proof fn lemma_switch_never_targets_available(s: RuntimeSnap)
    requires
        s.wf(),
    ensures
        match s.switch_target() {
            Option::Some(j) => 0 <= j < MAX_THREADS as int && s.threads[j].state == State::Ready,
            Option::None => true,
        },
{
    lemma_first_ready_props(s.threads, s.current, 0);
}

/// The round-robin cycle: while slots 1 through `n` hold fibers that are
/// all Ready, a yield from any of them selects the next slot up, and a
/// yield from slot `n` returns to the boot slot — the boot slot is
/// visited last before the cycle repeats.
pub proof fn lemma_round_robin_cycle(s: RuntimeSnap, n: int)
    requires
        s.active(),
        1 <= n < MAX_THREADS as int,
        0 <= s.current <= n,
        forall|i: int| 1 <= i <= n && i != s.current ==> (#[trigger] s.threads[i]).state == State::Ready,
        forall|i: int| n < i < MAX_THREADS as int ==> (#[trigger] s.threads[i]).state == State::Available,
    ensures
        s.switch_target() == Some(
            if s.current < n {
                s.current + 1
            } else {
                0int
            },
        ),
{
    let cur = s.current;
    let m = MAX_THREADS as int;
    if cur < n {
        assert(cyc(cur, 0) == cur);
        assert(cyc(cur, 1) == cur + 1);
        assert(s.threads[cur + 1].state == State::Ready);
        assert(first_ready_offset(s.threads, cur, 1) == Some(1int));
        assert(first_ready_offset(s.threads, cur, 0) == Some(1int));
    } else {
        // From slot n the scan passes only Available slots until it
        // wraps to the boot slot, which is suspended — Ready — since a
        // non-boot slot is Running.
        let e = m - n;
        assert(cyc(cur, e) == 0);
        assert(s.threads[0].state == State::Ready);
        lemma_first_ready_finds(s.threads, cur, 0, e);
        lemma_first_ready_props(s.threads, cur, 0);
        let d = first_ready_offset(s.threads, cur, 0)->Some_0;
        assert forall|k: int| 0 < k < e implies s.threads[#[trigger] cyc(cur, k)].state
            != State::Ready by {
            assert(cyc(cur, k) == n + k);
            assert(s.threads[n + k].state == State::Available);
        }
        assert(s.threads[cyc(cur, 0)].state == State::Running);
        assert(d == e);
    }
}

/// A pool in which no slot has state `st` counts zero such slots.
proof fn lemma_count_state_none(threads: Seq<ThreadSnap>, st: State)
    requires
        forall|i: int| 0 <= i < threads.len() ==> (#[trigger] threads[i]).state != st,
    ensures
        count_state(threads, st) == 0,
    decreases threads.len(),
{
    if threads.len() > 0 {
        lemma_count_state_none(threads.drop_last(), st);
    }
}

/// A pool in which exactly the slot at `c` has state `st` counts one.
proof fn lemma_count_state_single(threads: Seq<ThreadSnap>, st: State, c: int)
    requires
        0 <= c < threads.len(),
        threads[c].state == st,
        forall|i: int| 0 <= i < threads.len() && i != c ==> (#[trigger] threads[i]).state != st,
    ensures
        count_state(threads, st) == 1,
    decreases threads.len(),
{
    if c == threads.len() - 1 {
        lemma_count_state_none(threads.drop_last(), st);
    } else {
        lemma_count_state_single(threads.drop_last(), st, c);
    }
}

/// Replacing one slot adjusts the count by what leaves and what arrives.
proof fn lemma_count_state_update(threads: Seq<ThreadSnap>, st: State, i: int, t: ThreadSnap)
    requires
        0 <= i < threads.len(),
    ensures
        count_state(threads.update(i, t), st) == count_state(threads, st) - (
        if threads[i].state == st {
            1int
        } else {
            0int
        }) + (if t.state == st {
            1int
        } else {
            0int
        }),
    decreases threads.len(),
{
    let n = threads.len() as int;
    if i == n - 1 {
        assert(threads.update(i, t).drop_last() =~= threads.drop_last());
    } else {
        assert(threads.update(i, t).drop_last() =~= threads.drop_last().update(i, t));
        lemma_count_state_update(threads.drop_last(), st, i, t);
    }
}

/// A pool counting at least one slot in state `st` has such a slot.
proof fn lemma_count_state_pos(threads: Seq<ThreadSnap>, st: State)
    requires
        count_state(threads, st) > 0,
    ensures
        exists|i: int| 0 <= i < threads.len() && (#[trigger] threads[i]).state == st,
    decreases threads.len(),
{
    if threads.len() > 0 {
        if threads.last().state == st {
        } else {
            lemma_count_state_pos(threads.drop_last(), st);
        }
    }
}

/// An active scheduler has exactly one Running slot.
pub proof fn lemma_exactly_one_running(s: RuntimeSnap)
    requires
        s.active(),
    ensures
        count_state(s.threads, State::Running) == 1,
{
    lemma_count_state_single(s.threads, State::Running, s.current);
}

/// A terminated fiber's slot is reusable at once: after the termination
/// path runs (with nothing pending in the spawn queue), the reclaimed slot
/// is Available again and a subsequent `spawn` is guaranteed to find a free
/// slot.
pub proof fn lemma_reclaimed_slot_reusable(s: RuntimeSnap)
    requires
        s.active(),
        s.current != 0,
        s.queue.len() == 0,
    ensures
        s.returned().threads[s.current].state == State::Available,
        first_available_from(s.returned().threads, 0) is Some,
{
    let freed = RuntimeSnap {
        threads: s.threads.update(
            s.current,
            ThreadSnap { state: State::Available, ..s.threads[s.current] },
        ),
        ..s
    };
    let e = (MAX_THREADS as int - s.current) % (MAX_THREADS as int);
    assert(cyc(s.current, e) == 0);
    assert(freed.threads[cyc(s.current, e)].state == State::Ready);
    lemma_first_ready_finds(freed.threads, s.current, 0, e);
    lemma_first_ready_props(freed.threads, s.current, 0);
    let d = first_ready_offset(freed.threads, s.current, 0)->Some_0;
    let j = cyc(s.current, d);
    assert(freed.threads[j].state == State::Ready);
    assert(j != s.current);
    assert(s.returned() == freed.switched_to(j));
    assert(s.returned().threads[s.current].state == State::Available);
    lemma_first_available_some(s.returned().threads, s.current);
}

/// A pool with an Available slot at `w` lets the scan find one.
proof fn lemma_first_available_some(threads: Seq<ThreadSnap>, w: int)
    requires
        0 <= w < threads.len(),
        threads[w].state == State::Available,
    ensures
        first_available_from(threads, 0) is Some,
{
    lemma_first_available_props(threads, 0);
}

/// Entries submitted before a switch are all turned into Ready slots by a
/// single drain, with none lost and none duplicated: when the pool has
/// enough Available slots, the queue empties, the Ready population grows by
/// exactly the number of submitted entries, and the Available population
/// shrinks by the same number.
pub proof fn lemma_drain_converts_all(threads: Seq<ThreadSnap>, items: Seq<u64>)
    requires
        items.len() <= count_state(threads, State::Available),
    ensures
        ({
            let (t, q) = drain_into(threads, items);
            &&& q.len() == 0
            &&& count_state(t, State::Ready) == count_state(threads, State::Ready) + items.len()
            &&& count_state(t, State::Available) == count_state(threads, State::Available)
                - items.len()
        }),
    decreases items.len(),
{
    if items.len() == 0 {
    } else {
        lemma_count_state_pos(threads, State::Available);
        lemma_first_available_props(threads, 0);
        match first_available_from(threads, 0) {
            Option::None => {
                assert(false);
            },
            Option::Some(i) => {
                let t1 = threads.update(i, threads[i].primed(items[0]));
                lemma_count_state_update(threads, State::Available, i, threads[i].primed(items[0]));
                lemma_count_state_update(threads, State::Ready, i, threads[i].primed(items[0]));
                lemma_drain_converts_all(t1, items.drop_first());
            },
        }
    }
}

/// Everything `first_available_from` promises of its result: the returned
/// index is the smallest Available slot at or after `i`, and a `None` answer
/// means no slot from `i` on is Available.
pub proof fn lemma_first_available_props(threads: Seq<ThreadSnap>, i: nat)
    ensures
        match first_available_from(threads, i) {
            Option::Some(j) => i <= j < threads.len() && threads[j].state == State::Available
                && forall|k: int|
                i <= k < j ==> (#[trigger] threads[k]).state != State::Available,
            Option::None => forall|k: int|
                i <= k < threads.len() ==> (#[trigger] threads[k]).state != State::Available,
        },
    decreases threads.len() - i,
{
    if i >= threads.len() {
    } else if threads[i as int].state == State::Available {
    } else {
        lemma_first_available_props(threads, i + 1);
    }
}

} // verus!
