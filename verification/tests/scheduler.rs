//! Scheduler behaviour: slot states, round-robin order, reclamation,
//! spawn-queue draining, and capacity errors.

use lateral::queue::spawn_thread;
use lateral::queue::ThreadQueue;
use lateral::thread::Runtime;
use lateral::thread::SpawnError;
use lateral::thread::State;
use lateral::thread::GUARD_ENTRY;
use lateral::thread::MAX_THREADS;
use lateral::thread::SKIP_ENTRY;
use lateral::thread::STACK_WORDS;

fn running_count(rt: &Runtime) -> usize {
    rt.threads.iter().filter(|t| t.state == State::Running).count()
}

#[test]
fn new_runtime_has_boot_slot_running() {
    let rt = Runtime::new();
    assert_eq!(rt.threads.len(), MAX_THREADS);
    assert_eq!(rt.current, 0);
    assert_eq!(rt.threads[0].state, State::Running);
    for i in 1..MAX_THREADS {
        assert_eq!(rt.threads[i].state, State::Available);
    }
    // Every slot starts zero-initialized: a zeroed saved context over a
    // dedicated zero-filled stack.
    for t in &rt.threads {
        assert_eq!(t.stack.len(), STACK_WORDS);
        assert!(t.stack.iter().all(|w| *w == 0));
        assert_eq!(t.ctx.rsp, 0);
        assert_eq!(
            (t.ctx.r15, t.ctx.r14, t.ctx.r13, t.ctx.r12, t.ctx.rbx, t.ctx.rbp),
            (0, 0, 0, 0, 0, 0)
        );
    }
}

#[test]
fn exactly_one_running_at_every_observation_point() {
    let mut rt = Runtime::new();
    assert_eq!(running_count(&rt), 1);
    rt.spawn(101).unwrap();
    assert_eq!(running_count(&rt), 1);
    rt.spawn(102).unwrap();
    assert_eq!(running_count(&rt), 1);
    assert!(rt.t_yield());
    assert_eq!(running_count(&rt), 1);
    rt.t_return();
    assert_eq!(running_count(&rt), 1);
    assert!(rt.t_yield());
    assert_eq!(running_count(&rt), 1);
}

#[test]
fn spawn_primes_the_stack_top_down() {
    let mut rt = Runtime::new();
    let idx = rt.spawn(0xABCD).unwrap();
    assert_eq!(idx, 1);
    assert_eq!(rt.threads[1].state, State::Ready);
    assert_eq!(rt.threads[1].stack[STACK_WORDS - 2], GUARD_ENTRY);
    assert_eq!(rt.threads[1].stack[STACK_WORDS - 3], SKIP_ENTRY);
    assert_eq!(rt.threads[1].stack[STACK_WORDS - 4], 0xABCD);
    assert_eq!(rt.threads[1].ctx.rsp, (STACK_WORDS - 4) as u64);
}

#[test]
fn yield_visits_slots_in_increasing_order_and_boot_last() {
    // Three fibers that each yield exactly once: the visit order is
    // strictly increasing slot index modulo wraparound, with the boot
    // slot visited last before the cycle repeats.
    let mut rt = Runtime::new();
    rt.spawn(1).unwrap();
    rt.spawn(2).unwrap();
    rt.spawn(3).unwrap();
    let mut visits = Vec::new();
    for _ in 0..8 {
        assert!(rt.t_yield());
        visits.push(rt.current);
    }
    assert_eq!(visits, vec![1, 2, 3, 0, 1, 2, 3, 0]);
}

#[test]
fn yield_with_nothing_ready_reports_nothing_runnable() {
    let mut rt = Runtime::new();
    assert!(!rt.t_yield());
    assert_eq!(rt.current, 0);
    assert_eq!(rt.threads[0].state, State::Running);
}

#[test]
fn terminated_slot_is_immediately_reusable() {
    // Fill every slot, let each fiber terminate, then spawn once more.
    let mut rt = Runtime::new();
    for i in 1..MAX_THREADS {
        assert_eq!(rt.spawn(i as u64).unwrap(), i);
    }
    assert!(matches!(rt.spawn(99), Err(SpawnError::NoAvailableSlot)));
    assert!(rt.t_yield());
    while rt.current != 0 {
        rt.t_return();
    }
    for i in 1..MAX_THREADS {
        assert_eq!(rt.threads[i].state, State::Available);
    }
    assert_eq!(rt.spawn(55).unwrap(), 1);
}

#[test]
fn submitted_entries_become_ready_after_one_yield() {
    // Entries submitted before any switch are all converted to Ready
    // slots by a single yield, none lost and none duplicated.
    let mut rt = Runtime::new();
    rt.spawn(1).unwrap();
    spawn_thread(&mut rt.queue, 0x111);
    spawn_thread(&mut rt.queue, 0x222);
    assert_eq!(rt.queue.len(), 2);
    let ready_before = rt.threads.iter().filter(|t| t.state == State::Ready).count();
    assert!(rt.t_yield());
    assert_eq!(rt.queue.len(), 0);
    let ready_after = rt.threads.iter().filter(|t| t.state == State::Ready).count();
    // The switch downgraded the boot slot to Ready and promoted the
    // fiber; the two submissions add exactly two more Ready slots.
    assert_eq!(ready_after, ready_before + 2);
    assert_eq!(rt.threads[2].stack[STACK_WORDS - 4], 0x111);
    assert_eq!(rt.threads[3].stack[STACK_WORDS - 4], 0x222);
    assert_eq!(rt.threads[2].state, State::Ready);
    assert_eq!(rt.threads[3].state, State::Ready);
}

#[test]
fn full_scenario_round_robin_to_exhaustion() {
    // Boot spawns A, B, C. A yields once; B returns immediately; C
    // yields 5 times before returning. The visit order follows the
    // round-robin rule and the run loop then halts without revisiting a
    // completed slot.
    let mut rt = Runtime::new();
    let a = rt.spawn(0xA).unwrap();
    let b = rt.spawn(0xB).unwrap();
    let c = rt.spawn(0xC).unwrap();
    assert_eq!((a, b, c), (1, 2, 3));

    let mut visits = Vec::new();
    let mut a_yields = 0;
    let mut c_yields = 0;
    // Boot enters the scheduler.
    assert!(rt.t_yield());
    visits.push(rt.current);
    loop {
        match rt.current {
            1 => {
                if a_yields < 1 {
                    a_yields += 1;
                    if !rt.t_yield() {
                        break;
                    }
                } else {
                    rt.t_return();
                }
            }
            2 => {
                rt.t_return();
            }
            3 => {
                if c_yields < 5 {
                    c_yields += 1;
                    if !rt.t_yield() {
                        break;
                    }
                } else {
                    rt.t_return();
                }
            }
            0 => {
                if !rt.t_yield() {
                    break;
                }
            }
            _ => unreachable!(),
        }
        visits.push(rt.current);
    }
    // A ran, B terminated and was never revisited, C kept its strict
    // alternation with the boot slot until it terminated too.
    assert_eq!(visits, vec![1, 2, 3, 0, 1, 3, 0, 3, 0, 3, 0, 3, 0, 3, 0]);
    assert_eq!(rt.threads[1].state, State::Available);
    assert_eq!(rt.threads[2].state, State::Available);
    assert_eq!(rt.threads[3].state, State::Available);
    // Nothing runnable is left: the run loop parks here.
    assert!(!rt.t_yield());
}

#[test]
fn spawn_beyond_capacity_fails_deterministically() {
    let mut rt = Runtime::new();
    for _ in 1..MAX_THREADS {
        assert!(rt.spawn(7).is_ok());
    }
    let before: Vec<_> = rt.threads.iter().map(|t| t.state).collect();
    let err = rt.spawn(8);
    assert_eq!(err, Err(SpawnError::NoAvailableSlot));
    let after: Vec<_> = rt.threads.iter().map(|t| t.state).collect();
    assert_eq!(before, after);
    assert_eq!(rt.current, 0);
}

#[test]
fn thread_queue_is_a_stack_for_pop_and_fifo_for_drain() {
    let mut q = ThreadQueue::new();
    assert!(q.is_empty());
    q.push(10);
    q.push(20);
    assert_eq!(q.len(), 2);
    assert_eq!(q.pop(), Some(20));
    assert_eq!(q.pop(), Some(10));
    assert_eq!(q.pop(), None);
}
