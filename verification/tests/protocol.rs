use spinlock::protocol::Event;
use spinlock::protocol::Machine;
use spinlock::protocol::Outcome;
use spinlock::protocol::Thread;

fn inside_count(machine: &Machine, threads: usize) -> usize {
    let mut count = 0;
    for thread in 0..threads {
        if machine.thread(thread).unwrap().inside {
            count += 1;
        }
    }
    count
}

#[test]
fn machine_starts_free_with_every_thread_outside() {
    let machine = Machine::new(3, 17);
    assert!(!machine.is_held());
    assert_eq!(machine.shared(), 17);
    for thread in 0..3 {
        assert_eq!(
            machine.thread(thread),
            Some(Thread { inside: false, waiting: false, seen: 17 })
        );
    }
    assert_eq!(machine.thread(3), None);
}

#[test]
fn first_swap_acquires_and_the_others_spin() {
    let mut machine = Machine::new(3, 0);
    assert_eq!(machine.step(Event::Attempt(1)), Outcome::Acquired);
    assert_eq!(machine.step(Event::Attempt(0)), Outcome::Busy);
    assert_eq!(machine.step(Event::Attempt(2)), Outcome::Busy);
    assert_eq!(machine.step(Event::Attempt(0)), Outcome::Busy);
    assert!(machine.is_held());
    assert_eq!(inside_count(&machine, 3), 1);
    assert_eq!(machine.thread(1), Some(Thread { inside: true, waiting: false, seen: 0 }));
    assert_eq!(machine.thread(0), Some(Thread { inside: false, waiting: true, seen: 0 }));
}

#[test]
fn at_most_one_thread_is_inside_at_every_step() {
    let schedule = vec![
        Event::Attempt(0),
        Event::Attempt(1),
        Event::Bump(1),
        Event::Bump(0),
        Event::Attempt(2),
        Event::Release(0),
        Event::Attempt(2),
        Event::Attempt(1),
        Event::Write(2, 40),
        Event::Release(1),
        Event::Release(2),
        Event::Attempt(1),
        Event::Bump(1),
    ];
    let mut machine = Machine::new(3, 0);
    for event in schedule {
        machine.step(event);
        let inside = inside_count(&machine, 3);
        assert!(inside <= 1);
        assert!(inside == 0 || machine.is_held());
    }
    assert_eq!(machine.thread(1), Some(Thread { inside: true, waiting: false, seen: 41 }));
    assert_eq!(machine.shared(), 40);
}

#[test]
fn acquirer_sees_what_the_last_holder_wrote() {
    let mut machine = Machine::new(2, 3);
    assert_eq!(machine.step(Event::Attempt(0)), Outcome::Acquired);
    assert_eq!(machine.step(Event::Write(0, 8)), Outcome::Done);
    assert_eq!(machine.step(Event::Write(0, 12)), Outcome::Done);
    assert_eq!(machine.shared(), 3);
    assert_eq!(machine.thread(1).unwrap().seen, 3);
    assert_eq!(machine.step(Event::Release(0)), Outcome::Done);
    assert_eq!(machine.shared(), 12);
    assert_eq!(machine.step(Event::Attempt(1)), Outcome::Acquired);
    assert_eq!(machine.thread(1).unwrap().seen, 12);
}

#[test]
fn interleaved_increments_are_all_counted() {
    let threads = 4;
    let each = 250;
    let mut machine = Machine::new(threads, 1000);
    let mut done = vec![0usize; threads];
    let mut turn = 0;
    let mut rounds = 0;
    while done.iter().any(|count| *count < each) {
        let thread = turn % threads;
        turn += 1;
        if done[thread] == each {
            continue;
        }
        match machine.step(Event::Attempt(thread)) {
            Outcome::Acquired => {
                let other = (thread + 1) % threads;
                assert_eq!(machine.step(Event::Attempt(other)), Outcome::Busy);
                assert_eq!(machine.step(Event::Bump(other)), Outcome::Refused);
                assert_eq!(machine.step(Event::Bump(thread)), Outcome::Done);
                assert_eq!(machine.step(Event::Release(thread)), Outcome::Done);
                done[thread] += 1;
                rounds += 1;
            }
            other => panic!("thread {} got {:?} on a free lock", thread, other),
        }
    }
    assert_eq!(rounds, threads * each);
    assert!(!machine.is_held());
    assert_eq!(machine.shared(), 1000 + (threads * each) as u64);
}

#[test]
fn ten_threads_in_turn_count_to_ten_million() {
    let threads = 10;
    let mut machine = Machine::new(threads, 0);
    for _ in 0..1_000_000 {
        for thread in 0..threads {
            assert_eq!(machine.step(Event::Attempt(thread)), Outcome::Acquired);
            assert_eq!(machine.step(Event::Bump(thread)), Outcome::Done);
            assert_eq!(machine.step(Event::Release(thread)), Outcome::Done);
        }
    }
    assert!(!machine.is_held());
    assert_eq!(machine.shared(), 10_000_000);
}

#[test]
fn two_runs_of_one_workload_count_the_same() {
    let threads = 3;
    let each = 200;
    let mut patient = Vec::new();
    let mut eager = Vec::new();
    for round in 0..each {
        for thread in 0..threads {
            patient.extend([Event::Attempt(thread), Event::Bump(thread), Event::Release(thread)]);
            let holder = (thread + round) % threads;
            eager.push(Event::Attempt(holder));
            for waiting in (0..threads).filter(|waiting| *waiting != holder) {
                eager.push(Event::Attempt(waiting));
            }
            eager.extend([Event::Bump(holder), Event::Release(holder)]);
        }
    }
    let mut one = Machine::new(threads, 5);
    let mut other = Machine::new(threads, 5);
    assert_eq!(one.replay(&patient), 0);
    assert_eq!(other.replay(&eager), 1200);
    assert_eq!(one.shared(), 605);
    assert_eq!(other.shared(), one.shared());
}

#[test]
fn lone_thread_never_spins() {
    let mut schedule = Vec::new();
    for _ in 0..1000 {
        schedule.push(Event::Attempt(0));
        schedule.push(Event::Release(0));
    }
    let mut machine = Machine::new(1, 77);
    assert_eq!(machine.replay(&schedule), 0);
    assert!(!machine.is_held());
    assert_eq!(machine.shared(), 77);
}

#[test]
fn replay_counts_the_swaps_that_found_the_flag_held() {
    let schedule = vec![
        Event::Attempt(0),
        Event::Attempt(1),
        Event::Attempt(1),
        Event::Bump(0),
        Event::Attempt(1),
        Event::Release(0),
        Event::Attempt(1),
        Event::Bump(1),
        Event::Release(1),
    ];
    let mut machine = Machine::new(2, 0);
    assert_eq!(machine.replay(&schedule), 3);
    assert_eq!(machine.shared(), 2);
    assert!(!machine.is_held());
    assert_eq!(machine.replay(&Vec::new()), 0);
    assert_eq!(machine.shared(), 2);
}

#[test]
fn released_lock_goes_to_the_next_swap() {
    let mut machine = Machine::new(2, 0);
    machine.step(Event::Attempt(0));
    assert_eq!(machine.step(Event::Attempt(1)), Outcome::Busy);
    assert_eq!(machine.step(Event::Release(0)), Outcome::Done);
    assert!(!machine.is_held());
    assert_eq!(machine.step(Event::Attempt(1)), Outcome::Acquired);
    assert_eq!(machine.thread(1), Some(Thread { inside: true, waiting: false, seen: 0 }));
}

#[test]
fn holder_that_acquires_again_is_stuck_for_good() {
    let mut machine = Machine::new(2, 5);
    assert_eq!(machine.step(Event::Attempt(0)), Outcome::Acquired);
    assert_eq!(machine.step(Event::Write(0, 6)), Outcome::Done);
    assert_eq!(machine.step(Event::Attempt(0)), Outcome::Busy);
    for _ in 0..100 {
        assert_eq!(machine.step(Event::Attempt(0)), Outcome::Busy);
        assert_eq!(machine.step(Event::Attempt(1)), Outcome::Busy);
        assert_eq!(machine.step(Event::Release(0)), Outcome::Refused);
        assert_eq!(machine.step(Event::Write(0, 9)), Outcome::Refused);
        assert_eq!(machine.step(Event::Leak(0)), Outcome::Refused);
    }
    assert!(machine.is_held());
    assert_eq!(machine.shared(), 5);
    assert_eq!(machine.thread(0), Some(Thread { inside: true, waiting: true, seen: 6 }));
    assert_eq!(machine.thread(1), Some(Thread { inside: false, waiting: true, seen: 5 }));
}

#[test]
fn leaked_guard_leaves_the_flag_held() {
    let mut machine = Machine::new(2, 5);
    machine.step(Event::Attempt(1));
    machine.step(Event::Write(1, 50));
    assert_eq!(machine.step(Event::Leak(1)), Outcome::Done);
    assert!(machine.is_held());
    assert_eq!(inside_count(&machine, 2), 0);
    for _ in 0..100 {
        assert_eq!(machine.step(Event::Attempt(0)), Outcome::Busy);
        assert_eq!(machine.step(Event::Attempt(1)), Outcome::Busy);
        assert_eq!(machine.step(Event::Release(1)), Outcome::Refused);
    }
    assert_eq!(machine.shared(), 5);
}

#[test]
fn events_without_a_guard_are_refused() {
    let mut machine = Machine::new(2, 1);
    assert_eq!(machine.step(Event::Write(0, 2)), Outcome::Refused);
    assert_eq!(machine.step(Event::Bump(0)), Outcome::Refused);
    assert_eq!(machine.step(Event::Release(0)), Outcome::Refused);
    assert_eq!(machine.step(Event::Leak(0)), Outcome::Refused);
    assert_eq!(machine.step(Event::Attempt(2)), Outcome::Refused);
    assert_eq!(machine.step(Event::Write(2, 2)), Outcome::Refused);
    assert_eq!(machine.step(Event::Attempt(usize::MAX)), Outcome::Refused);
    assert!(!machine.is_held());
    assert_eq!(machine.shared(), 1);
    assert_eq!(machine.thread(0), Some(Thread { inside: false, waiting: false, seen: 1 }));
}

#[test]
fn machine_without_threads_refuses_everything() {
    let mut machine = Machine::new(0, 9);
    assert_eq!(machine.step(Event::Attempt(0)), Outcome::Refused);
    assert_eq!(machine.thread(0), None);
    assert!(!machine.is_held());
}

#[test]
fn increment_wraps_at_the_top() {
    let mut machine = Machine::new(1, u64::MAX - 1);
    machine.step(Event::Attempt(0));
    assert_eq!(machine.step(Event::Bump(0)), Outcome::Done);
    assert_eq!(machine.thread(0).unwrap().seen, u64::MAX);
    assert_eq!(machine.step(Event::Bump(0)), Outcome::Done);
    assert_eq!(machine.thread(0).unwrap().seen, 0);
    machine.step(Event::Release(0));
    assert_eq!(machine.shared(), 0);
}
