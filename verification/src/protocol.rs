//! The protocol of the lock, as a machine that takes one event at a time.
//!
//! A [`State`] holds the flag, the value as the last release left it and, for
//! each thread, whether it is inside the critical section, whether it is
//! spinning, and the value as it sees it. An acquisition that succeeds copies
//! the released value into the thread's view; a release copies the thread's
//! view back. So the value travels with the guard, and a thread that got in
//! beside another would lose that other's writes. The value stands for any
//! value: it is a number so that increments can be counted.
//!
//! Every interleaving of threads is a sequence of [`Event`]s. What holds of
//! all of them is proved in [`crate::laws`]; a [`Machine`] replays one.

use vstd::prelude::*;

verus! {

/// One step of one thread.
#[derive(Clone, Copy, Debug, PartialEq, Eq)]
pub enum Event {
    /// One swap of the acquisition loop.
    Attempt(usize),
    /// A store of the given value through the guard.
    Write(usize, u64),
    /// An increment through the guard, wrapping at the top.
    Bump(usize),
    /// The guard is dropped.
    Release(usize),
    /// The guard is forgotten, or its thread ends without unwinding.
    Leak(usize),
}

/// What an event came to.
#[derive(Clone, Copy, Debug, PartialEq, Eq)]
pub enum Outcome {
    /// The swap found the flag free: the thread is inside.
    Acquired,
    /// The swap found the flag held: the thread spins.
    Busy,
    /// The thread is inside and the event took effect.
    Done,
    /// The thread does not exist, or it holds no guard to act through, or it
    /// is spinning and cannot do anything else.
    Refused,
}

impl Outcome {
    /// What a swap comes to that finds the flag at `held`.
    pub open spec fn of_swap(held: bool) -> Outcome {
        if held {
            Outcome::Busy
        } else {
            Outcome::Acquired
        }
    }
}

/// The successor of `value`, wrapping at the top.
pub open spec fn bumped(value: u64) -> u64 {
    if value < u64::MAX {
        (value + 1) as u64
    } else {
        0
    }
}

/// One thread's place and view.
#[derive(Clone, Copy, Debug, PartialEq, Eq)]
pub struct Thread {
    /// Whether the thread is inside the critical section.
    pub inside: bool,
    /// Whether the thread is in the acquisition loop.
    pub waiting: bool,
    /// The value as the thread sees it.
    pub seen: u64,
}

/// The flag, the released value, and the threads.
#[verifier::ext_equal]
pub struct State {
    /// The flag.
    pub held: bool,
    /// The value as the last release left it.
    pub shared: u64,
    /// The threads, by number.
    pub threads: Seq<Thread>,
}

impl Event {
    /// The thread that takes the step.
    pub open spec fn thread(self) -> usize {
        match self {
            Event::Attempt(thread) => thread,
            Event::Write(thread, _) => thread,
            Event::Bump(thread) => thread,
            Event::Release(thread) => thread,
            Event::Leak(thread) => thread,
        }
    }
}

impl State {
    /// A free lock around `value`, with every thread outside.
    pub open spec fn start(threads: nat, value: u64) -> State {
        State {
            held: false,
            shared: value,
            threads: Seq::new(
                threads,
                |thread: int| Thread { inside: false, waiting: false, seen: value },
            ),
        }
    }

    /// Whether `thread` is inside the critical section.
    pub open spec fn inside(self, thread: int) -> bool {
        0 <= thread < self.threads.len() && self.threads[thread].inside
    }

    /// Whether `thread` can act through a guard: it is inside and not stuck
    /// in a second acquisition.
    pub open spec fn acts(self, thread: int) -> bool {
        self.inside(thread) && !self.threads[thread].waiting
    }

    /// What `event` comes to in this state.
    pub open spec fn outcome(self, event: Event) -> Outcome {
        match event {
            Event::Attempt(thread) => if thread < self.threads.len() {
                Outcome::of_swap(self.held)
            } else {
                Outcome::Refused
            },
            _ => if self.acts(event.thread() as int) {
                Outcome::Done
            } else {
                Outcome::Refused
            },
        }
    }

    /// The state after `event`.
    pub open spec fn step(self, event: Event) -> State {
        let thread = event.thread() as int;
        match self.outcome(event) {
            Outcome::Acquired => State {
                held: true,
                threads: self.threads.update(
                    thread,
                    Thread { inside: true, waiting: false, seen: self.shared },
                ),
                ..self
            },
            Outcome::Busy => State {
                threads: self.threads.update(
                    thread,
                    Thread { waiting: true, ..self.threads[thread] },
                ),
                ..self
            },
            Outcome::Refused => self,
            Outcome::Done => match event {
                Event::Attempt(_) => self,
                Event::Write(_, value) => State {
                    threads: self.threads.update(
                        thread,
                        Thread { seen: value, ..self.threads[thread] },
                    ),
                    ..self
                },
                Event::Bump(_) => State {
                    threads: self.threads.update(
                        thread,
                        Thread { seen: bumped(self.threads[thread].seen), ..self.threads[thread] },
                    ),
                    ..self
                },
                Event::Release(_) => State {
                    held: false,
                    shared: self.threads[thread].seen,
                    threads: self.threads.update(
                        thread,
                        Thread { inside: false, ..self.threads[thread] },
                    ),
                },
                Event::Leak(_) => State {
                    threads: self.threads.update(
                        thread,
                        Thread { inside: false, ..self.threads[thread] },
                    ),
                    ..self
                },
            },
        }
    }

    /// The state after `events`, taken in order.
    pub open spec fn run(self, events: Seq<Event>) -> State
        decreases events.len(),
    {
        if events.len() == 0 {
            self
        } else {
            self.run(events.drop_last()).step(events.last())
        }
    }

    /// How many of `events`, taken in order from this state, are swaps that
    /// find the flag held.
    pub open spec fn spins(self, events: Seq<Event>) -> nat
        decreases events.len(),
    {
        if events.len() == 0 {
            0
        } else {
            let before = self.run(events.drop_last());
            let earlier = self.spins(events.drop_last());
            if before.outcome(events.last()) == Outcome::Busy {
                earlier + 1
            } else {
                earlier
            }
        }
    }

    /// How many of `events`, taken in order from this state, are increments
    /// that take effect.
    pub open spec fn bumps(self, events: Seq<Event>) -> nat
        decreases events.len(),
    {
        if events.len() == 0 {
            0
        } else {
            let before = self.run(events.drop_last());
            let earlier = self.bumps(events.drop_last());
            if events.last() is Bump && before.outcome(events.last()) == Outcome::Done {
                earlier + 1
            } else {
                earlier
            }
        }
    }

    /// How many of them are increments of `thread`.
    pub open spec fn bumps_by(self, events: Seq<Event>, thread: int) -> nat
        decreases events.len(),
    {
        if events.len() == 0 {
            0
        } else {
            let before = self.run(events.drop_last());
            let earlier = self.bumps_by(events.drop_last(), thread);
            if events.last() is Bump && events.last().thread() == thread && before.outcome(
                events.last(),
            ) == Outcome::Done {
                earlier + 1
            } else {
                earlier
            }
        }
    }
}

/// A state that can be stepped.
pub struct Machine {
    held: bool,
    shared: u64,
    threads: Vec<Thread>,
}

impl View for Machine {
    type V = State;

    closed spec fn view(&self) -> State {
        State { held: self.held, shared: self.shared, threads: self.threads@ }
    }
}

impl Machine {
    /// A free lock around `value`, with `threads` threads outside.
    pub fn new(threads: usize, value: u64) -> (machine: Self)
        ensures
            machine@ == State::start(threads as nat, value),
    {
        let outside = Thread { inside: false, waiting: false, seen: value };
        let mut all: Vec<Thread> = Vec::new();
        let mut thread: usize = 0;
        while thread < threads
            invariant
                thread <= threads,
                outside == (Thread { inside: false, waiting: false, seen: value }),
                all@ =~= Seq::new(thread as nat, |t: int| outside),
            decreases threads - thread,
        {
            all.push(outside);
            thread = thread + 1;
        }
        assert(all@ =~= State::start(threads as nat, value).threads);
        Machine { held: false, shared: value, threads: all }
    }

    /// Takes one step and says what it came to.
    pub fn step(&mut self, event: Event) -> (outcome: Outcome)
        ensures
            outcome == old(self)@.outcome(event),
            final(self)@ == old(self)@.step(event),
    {
        match event {
            Event::Attempt(thread) => {
                if thread >= self.threads.len() {
                    Outcome::Refused
                } else if self.held {
                    let was = self.threads[thread];
                    self.threads.set(thread, Thread { waiting: true, ..was });
                    Outcome::Busy
                } else {
                    self.held = true;
                    self.threads.set(
                        thread,
                        Thread { inside: true, waiting: false, seen: self.shared },
                    );
                    Outcome::Acquired
                }
            },
            Event::Write(thread, value) => {
                if self.can_act(thread) {
                    let was = self.threads[thread];
                    self.threads.set(thread, Thread { seen: value, ..was });
                    Outcome::Done
                } else {
                    Outcome::Refused
                }
            },
            Event::Bump(thread) => {
                if self.can_act(thread) {
                    let was = self.threads[thread];
                    let next: u64 = if was.seen < u64::MAX {
                        was.seen + 1
                    } else {
                        0
                    };
                    self.threads.set(thread, Thread { seen: next, ..was });
                    Outcome::Done
                } else {
                    Outcome::Refused
                }
            },
            Event::Release(thread) => {
                if self.can_act(thread) {
                    let was = self.threads[thread];
                    self.held = false;
                    self.shared = was.seen;
                    self.threads.set(thread, Thread { inside: false, ..was });
                    Outcome::Done
                } else {
                    Outcome::Refused
                }
            },
            Event::Leak(thread) => {
                if self.can_act(thread) {
                    let was = self.threads[thread];
                    self.threads.set(thread, Thread { inside: false, ..was });
                    Outcome::Done
                } else {
                    Outcome::Refused
                }
            },
        }
    }

    /// Takes `events` in order and says how many of them were swaps that
    /// found the flag held.
    pub fn replay(&mut self, events: &Vec<Event>) -> (spins: usize)
        ensures
            final(self)@ == old(self)@.run(events@),
            spins == old(self)@.spins(events@),
    {
        let mut spins: usize = 0;
        let mut done: usize = 0;
        while done < events.len()
            invariant
                done <= events.len(),
                spins <= done,
                self@ == old(self)@.run(events@.take(done as int)),
                spins == old(self)@.spins(events@.take(done as int)),
            decreases events.len() - done,
        {
            let event = events[done];
            let outcome = self.step(event);
            proof {
                let taken = events@.take(done + 1);
                assert(taken.drop_last() =~= events@.take(done as int));
                assert(taken.last() == event);
            }
            match outcome {
                Outcome::Busy => {
                    spins = spins + 1;
                },
                _ => {},
            }
            done = done + 1;
        }
        assert(events@.take(done as int) =~= events@);
        spins
    }

    /// Whether the flag is held.
    pub fn is_held(&self) -> (held: bool)
        ensures
            held == self@.held,
    {
        self.held
    }

    /// The value as the last release left it.
    pub fn shared(&self) -> (value: u64)
        ensures
            value == self@.shared,
    {
        self.shared
    }

    /// The place and view of `thread`, if there is such a thread.
    pub fn thread(&self, thread: usize) -> (found: Option<Thread>)
        ensures
            found == if thread < self@.threads.len() {
                Some(self@.threads[thread as int])
            } else {
                None
            },
    {
        if thread < self.threads.len() {
            Some(self.threads[thread])
        } else {
            None
        }
    }

    /// Whether `thread` can act through a guard.
    fn can_act(&self, thread: usize) -> (yes: bool)
        ensures
            yes == self@.acts(thread as int),
    {
        thread < self.threads.len() && self.threads[thread].inside && !self.threads[thread].waiting
    }
}

} // verus!
