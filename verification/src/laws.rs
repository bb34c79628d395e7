//! What holds of the protocol in every interleaving.

use crate::protocol::Event;
use crate::protocol::Outcome;
use crate::protocol::State;
use vstd::prelude::*;

verus! {

/// At most one thread is inside, and only while the flag is held.
pub open spec fn exclusive(state: State) -> bool {
    &&& forall|t: int, u: int| state.inside(t) && state.inside(u) ==> t == u
    &&& forall|t: int| state.inside(t) ==> state.held
}

/// A held flag has a thread inside that holds it.
pub open spec fn accounted(state: State) -> bool {
    state.held ==> exists|t: int| state.inside(t)
}

/// The flag is held and no thread can ever free it: whoever is inside spins
/// in a second acquisition.
pub open spec fn stuck(state: State) -> bool {
    &&& state.held
    &&& forall|t: int| state.inside(t) ==> state.threads[t].waiting
}

/// Whether `events` holds acquisitions, increments and releases only.
pub open spec fn counting(events: Seq<Event>) -> bool {
    forall|i: int|
        0 <= i < events.len() ==> (#[trigger] events[i]) is Attempt || events[i] is Bump
            || events[i] is Release
}

/// Whether no guard is leaked in `events`.
pub open spec fn leak_free(events: Seq<Event>) -> bool {
    forall|i: int| 0 <= i < events.len() ==> !((#[trigger] events[i]) is Leak)
}

/// `count` times over: one swap by `thread`, then its release.
pub open spec fn round_trips(thread: usize, count: nat) -> Seq<Event>
    decreases count,
{
    if count == 0 {
        Seq::empty()
    } else {
        round_trips(thread, (count - 1) as nat).push(Event::Attempt(thread)).push(
            Event::Release(thread),
        )
    }
}

/// The flag has two transitions and no other: a swap that finds it free
/// takes it, and the release of the thread inside frees it.
pub proof fn flag_moves_by_swap_and_release(state: State, event: Event)
    ensures
        !state.held && state.step(event).held ==> event is Attempt && state.outcome(event)
            == Outcome::Acquired,
        state.held && !state.step(event).held ==> event is Release && state.acts(
            event.thread() as int,
        ),
        !State::start(state.threads.len(), state.shared).held,
{
}

/// The value moves only under the guard: a step changes what a thread sees
/// only if it is that thread's own step, and then it is its acquisition or
/// its write from inside; and only the release of the thread inside changes
/// the released value.
pub proof fn value_moves_under_the_guard(state: State, event: Event, thread: int)
    requires
        0 <= thread < state.threads.len(),
    ensures
        state.step(event).threads[thread].seen != state.threads[thread].seen ==> event.thread()
            == thread && (state.outcome(event) == Outcome::Acquired || state.acts(thread)),
        state.step(event).shared != state.shared ==> event is Release && state.acts(
            event.thread() as int,
        ),
{
}

/// No step lets a second thread in.
pub proof fn step_keeps_exclusive(state: State, event: Event)
    requires
        exclusive(state),
    ensures
        exclusive(state.step(event)),
{
    let next = state.step(event);
    let thread = event.thread() as int;
    assert forall|t: int, u: int| next.inside(t) && next.inside(u) implies t == u by {
        if state.outcome(event) == Outcome::Acquired {
            assert(!state.inside(t) || t == thread);
            assert(!state.inside(u) || u == thread);
        } else {
            assert(state.inside(t));
            assert(state.inside(u));
        }
    }
    assert forall|t: int| next.inside(t) implies next.held by {
        if state.outcome(event) != Outcome::Acquired {
            assert(state.inside(t));
            if event is Release && state.outcome(event) == Outcome::Done {
                assert(state.inside(thread));
            }
        }
    }
}

/// No sequence of steps lets a second thread in.
pub proof fn run_keeps_exclusive(state: State, events: Seq<Event>)
    requires
        exclusive(state),
    ensures
        exclusive(state.run(events)),
    decreases events.len(),
{
    if events.len() > 0 {
        run_keeps_exclusive(state, events.drop_last());
        step_keeps_exclusive(state.run(events.drop_last()), events.last());
    }
}

/// Mutual exclusion: however the steps of any number of threads interleave,
/// at no point are two threads inside the critical section, and none is
/// inside while the flag is free.
pub proof fn mutual_exclusion(threads: nat, value: u64, events: Seq<Event>)
    ensures
        exclusive(State::start(threads, value).run(events)),
{
    run_keeps_exclusive(State::start(threads, value), events);
}

/// Visibility: the thread that acquires after a release sees the value as
/// the releasing thread left it, and it acquires at its first swap.
pub proof fn handoff(state: State, releasing: usize, acquiring: usize)
    requires
        state.acts(releasing as int),
        acquiring < state.threads.len(),
    ensures
        state.step(Event::Release(releasing)).outcome(Event::Attempt(acquiring))
            == Outcome::Acquired,
        state.step(Event::Release(releasing)).step(Event::Attempt(acquiring)).threads[acquiring as int].seen
            == state.threads[releasing as int].seen,
{
}

/// No lost update: where threads only acquire, increment and release, the
/// thread inside sees the first value plus the number of increments made so
/// far, and so does a free lock hold it.
pub proof fn no_lost_updates(threads: nat, value: u64, events: Seq<Event>)
    requires
        counting(events),
        value + State::start(threads, value).bumps(events) <= u64::MAX,
    ensures
        ({
            let start = State::start(threads, value);
            let end = start.run(events);
            &&& forall|t: int| end.inside(t) ==> end.threads[t].seen == value + start.bumps(events)
            &&& !end.held ==> end.shared == value + start.bumps(events)
        }),
    decreases events.len(),
{
    let start = State::start(threads, value);
    if events.len() > 0 {
        let earlier = events.drop_last();
        let event = events.last();
        let before = start.run(earlier);
        assert(counting(earlier));
        no_lost_updates(threads, value, earlier);
        run_keeps_exclusive(start, earlier);
        let end = before.step(event);
        let thread = event.thread() as int;
        let total = value + start.bumps(events);
        assert forall|t: int| end.inside(t) implies end.threads[t].seen == total by {
            if before.outcome(event) == Outcome::Acquired {
                assert(!before.inside(t) || t == thread);
            } else {
                assert(before.inside(t));
                if before.outcome(event) == Outcome::Done {
                    assert(before.inside(thread));
                }
            }
        }
        if !end.held && before.held {
            assert(before.inside(thread));
        }
    }
}

/// The increments of the threads below `bound`, added up.
pub open spec fn bumps_below(state: State, events: Seq<Event>, bound: nat) -> nat
    decreases bound,
{
    if bound == 0 {
        0
    } else {
        bumps_below(state, events, (bound - 1) as nat) + state.bumps_by(events, bound - 1)
    }
}

/// Threads at or above `bound` add nothing to the sum below it, and one
/// more increment of a thread below it adds one.
proof fn one_more_below(state: State, events: Seq<Event>, bound: nat)
    requires
        events.len() > 0,
    ensures
        ({
            let event = events.last();
            let counts = event is Bump && state.run(events.drop_last()).outcome(event)
                == Outcome::Done && event.thread() < bound;
            bumps_below(state, events, bound) == bumps_below(state, events.drop_last(), bound) + if counts {
                1nat
            } else {
                0nat
            }
        }),
    decreases bound,
{
    if bound > 0 {
        one_more_below(state, events, (bound - 1) as nat);
    }
}

/// Every increment is the increment of one thread: the counts by thread
/// add up to the count of all.
pub proof fn bumps_add_up(state: State, events: Seq<Event>)
    ensures
        state.bumps(events) == bumps_below(state, events, state.threads.len()),
    decreases events.len(),
{
    if events.len() == 0 {
        nothing_below(state, events, state.threads.len());
    } else {
        bumps_add_up(state, events.drop_last());
        one_more_below(state, events, state.threads.len());
        same_threads(state, events.drop_last());
    }
}

/// Without events nothing is counted.
proof fn nothing_below(state: State, events: Seq<Event>, bound: nat)
    requires
        events.len() == 0,
    ensures
        bumps_below(state, events, bound) == 0,
    decreases bound,
{
    if bound > 0 {
        nothing_below(state, events, (bound - 1) as nat);
    }
}

/// No step adds or removes a thread.
pub proof fn same_threads(state: State, events: Seq<Event>)
    ensures
        state.run(events).threads.len() == state.threads.len(),
    decreases events.len(),
{
    if events.len() > 0 {
        same_threads(state, events.drop_last());
    }
}

/// Where each thread below `bound` has made `each` increments, they have
/// made `bound * each` together.
proof fn equal_shares(state: State, events: Seq<Event>, bound: nat, each: nat)
    requires
        forall|t: int| 0 <= t < bound ==> state.bumps_by(events, t) == each,
    ensures
        bumps_below(state, events, bound) == bound * each,
    decreases bound,
{
    if bound > 0 {
        equal_shares(state, events, (bound - 1) as nat, each);
        assert((bound - 1) * each + each == bound * each) by (nonlinear_arith);
    } else {
        assert(bound * each == 0) by (nonlinear_arith)
            requires
                bound == 0,
        ;
    }
}

/// No lost update, by thread: where threads only acquire, increment and
/// release, and each of them has made `each` increments, a free lock holds
/// the first value plus `threads * each`, and so does a thread inside see it.
pub proof fn every_increment_counts(threads: nat, value: u64, each: nat, events: Seq<Event>)
    requires
        counting(events),
        forall|t: int| 0 <= t < threads ==> State::start(threads, value).bumps_by(events, t) == each,
        value + threads * each <= u64::MAX,
    ensures
        ({
            let end = State::start(threads, value).run(events);
            &&& forall|t: int| end.inside(t) ==> end.threads[t].seen == value + threads * each
            &&& !end.held ==> end.shared == value + threads * each
        }),
{
    let start = State::start(threads, value);
    bumps_add_up(start, events);
    equal_shares(start, events, threads, each);
    no_lost_updates(threads, value, events);
}

/// The comparative run: two runs of one workload end with the same count,
/// however differently their threads interleave and however many of their
/// swaps find the flag held. Where threads only acquire, increment and
/// release, each of them makes `each` increments in either run, and both
/// runs end with the lock free, both locks hold the first value plus
/// `threads * each`. Nothing is asked of how long either run waited.
pub proof fn same_count_whatever_the_waiting(
    threads: nat,
    value: u64,
    each: nat,
    one: Seq<Event>,
    other: Seq<Event>,
)
    requires
        counting(one),
        counting(other),
        forall|t: int| 0 <= t < threads ==> State::start(threads, value).bumps_by(one, t) == each,
        forall|t: int| 0 <= t < threads ==> State::start(threads, value).bumps_by(other, t) == each,
        value + threads * each <= u64::MAX,
        !State::start(threads, value).run(one).held,
        !State::start(threads, value).run(other).held,
    ensures
        State::start(threads, value).run(one).shared == value + threads * each,
        State::start(threads, value).run(other).shared == value + threads * each,
{
    every_increment_counts(threads, value, each, one);
    every_increment_counts(threads, value, each, other);
}

/// Liveness without contention: a thread that acquires and releases a free
/// lock any number of times, with no other thread taking a step, acquires at
/// its first swap each time, and leaves the lock free and the value as it
/// was.
pub proof fn alone_never_spins(state: State, thread: usize, count: nat)
    requires
        !state.held,
        thread < state.threads.len(),
    ensures
        state.spins(round_trips(thread, count)) == 0,
        !state.run(round_trips(thread, count)).held,
        state.run(round_trips(thread, count)).shared == state.shared,
        state.run(round_trips(thread, count)).threads.len() == state.threads.len(),
    decreases count,
{
    if count > 0 {
        let earlier = round_trips(thread, (count - 1) as nat);
        let swap = earlier.push(Event::Attempt(thread));
        let all = round_trips(thread, count);
        alone_never_spins(state, thread, (count - 1) as nat);
        assert(all.drop_last() =~= swap);
        assert(swap.drop_last() =~= earlier);
        let free = state.run(earlier);
        let taken = free.step(Event::Attempt(thread));
        assert(state.run(swap) == taken);
        assert(taken.acts(thread as int));
        assert(state.spins(swap) == 0);
    }
}

/// No false exclusivity: once the guard is dropped the flag is free, and the
/// next swap of any thread acquires it.
pub proof fn release_frees(state: State, releasing: usize, acquiring: usize)
    requires
        state.acts(releasing as int),
        acquiring < state.threads.len(),
    ensures
        !state.step(Event::Release(releasing)).held,
        !state.step(Event::Release(releasing)).inside(releasing as int),
        state.step(Event::Release(releasing)).outcome(Event::Attempt(acquiring))
            == Outcome::Acquired,
        state.step(Event::Release(releasing)).step(Event::Attempt(acquiring)).inside(
            acquiring as int,
        ),
{
}

/// No false exclusivity, in every interleaving: as long as no guard is
/// leaked, the flag is held only while some thread is inside.
pub proof fn held_only_by_a_thread_inside(threads: nat, value: u64, events: Seq<Event>)
    requires
        leak_free(events),
    ensures
        accounted(State::start(threads, value).run(events)),
    decreases events.len(),
{
    let start = State::start(threads, value);
    if events.len() > 0 {
        let earlier = events.drop_last();
        let event = events.last();
        let before = start.run(earlier);
        assert(leak_free(earlier));
        held_only_by_a_thread_inside(threads, value, earlier);
        let end = before.step(event);
        let thread = event.thread() as int;
        if end.held {
            if before.outcome(event) == Outcome::Acquired {
                assert(end.inside(thread));
            } else {
                let holder = choose|t: int| before.inside(t);
                assert(end.inside(holder));
            }
        }
    }
}

/// A stuck lock stays stuck: no step frees the flag, lets a thread in or
/// out, or changes the released value or what any thread sees.
pub proof fn stuck_stays_stuck(state: State, events: Seq<Event>)
    requires
        stuck(state),
    ensures
        stuck(state.run(events)),
        state.run(events).shared == state.shared,
        state.run(events).threads.len() == state.threads.len(),
        forall|t: int| state.run(events).inside(t) == state.inside(t),
        forall|t: int|
            0 <= t < state.threads.len() ==> (#[trigger] state.run(events).threads[t]).seen
                == state.threads[t].seen,
    decreases events.len(),
{
    if events.len() > 0 {
        stuck_stays_stuck(state, events.drop_last());
        let before = state.run(events.drop_last());
        let end = before.step(events.last());
        assert forall|t: int| end.inside(t) == state.inside(t) by {
            assert(before.inside(t) == state.inside(t));
        }
        assert forall|t: int| end.inside(t) implies end.threads[t].waiting by {
            assert(before.inside(t));
        }
        assert forall|t: int| 0 <= t < state.threads.len() implies (#[trigger] end.threads[t]).seen
            == state.threads[t].seen by {
            assert(before.threads[t].seen == state.threads[t].seen);
            value_moves_under_the_guard(before, events.last(), t);
            if before.acts(t) {
                assert(before.inside(t));
            }
        }
    }
}

/// Self-deadlock: a thread that holds the guard and tries to acquire again
/// finds the flag held, and from then on nothing moves. Whatever steps
/// follow, of this thread or of any other, the flag stays held, this thread
/// stays inside and sees the value it saw, no other thread gets in, and the
/// released value stays as it was.
pub proof fn second_acquisition_deadlocks(state: State, thread: usize, events: Seq<Event>)
    requires
        exclusive(state),
        state.acts(thread as int),
    ensures
        state.outcome(Event::Attempt(thread)) == Outcome::Busy,
        ({
            let end = state.step(Event::Attempt(thread)).run(events);
            &&& end.held
            &&& end.shared == state.shared
            &&& end.threads[thread as int].seen == state.threads[thread as int].seen
            &&& forall|t: int| end.inside(t) <==> t == thread
            &&& forall|t: usize|
                t < end.threads.len() ==> #[trigger] end.outcome(Event::Attempt(t)) == Outcome::Busy
        }),
{
    let spinning = state.step(Event::Attempt(thread));
    assert(state.inside(thread as int));
    assert forall|t: int| spinning.inside(t) implies spinning.threads[t].waiting by {
        assert(state.inside(t));
    }
    stuck_stays_stuck(spinning, events);
    let end = spinning.run(events);
    assert forall|t: int| end.inside(t) <==> t == thread by {
        assert(spinning.inside(t) == state.inside(t));
    }
    assert(end.threads[thread as int].seen == spinning.threads[thread as int].seen);
}

/// Stuck lock: once a guard is leaked the lock is held for good. Whatever
/// steps follow, the flag stays held, no thread is inside, the released
/// value stays as it was before the leaked guard's writes, and every swap
/// finds the flag held.
pub proof fn leaked_guard_holds_forever(state: State, thread: usize, events: Seq<Event>)
    requires
        exclusive(state),
        state.acts(thread as int),
    ensures
        ({
            let end = state.step(Event::Leak(thread)).run(events);
            &&& end.held
            &&& end.shared == state.shared
            &&& forall|t: int| !end.inside(t)
            &&& forall|t: usize|
                t < end.threads.len() ==> #[trigger] end.outcome(Event::Attempt(t)) == Outcome::Busy
        }),
{
    let leaked = state.step(Event::Leak(thread));
    assert(state.inside(thread as int));
    assert forall|t: int| !leaked.inside(t) by {
        if leaked.inside(t) {
            assert(state.inside(t));
        }
    }
    assert(stuck(leaked));
    stuck_stays_stuck(leaked, events);
    let end = leaked.run(events);
    assert forall|t: int| !end.inside(t) by {
        assert(end.inside(t) == leaked.inside(t));
    }
}

} // verus!
