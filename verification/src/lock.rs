//! The lock and its guard.
//!
//! The lock keeps its value in a box, in a slot beside the flag. The thread
//! that wins the flag takes the box out of the slot and holds it in its
//! guard; dropping the guard puts the box back and then frees the flag.
//! While a guard lives the value is the guard's alone, which is why its
//! contracts can say what a read returns and what a write leaves.
//!
//! The slot is a `std::sync::Mutex`, for being a cell that can be opened
//! through a shared reference, and it is only ever tried, never waited for.
//! It is the flag that decides who may open it: the slot is open only for
//! the moment of taking the box or putting it back, by the thread that holds
//! the flag, so a thread that tries it finds it closed. Nothing here rests
//! on that. A thread that finds the slot open, or empty, when it wants the
//! box gives the flag back and goes on spinning; one that finds it open when
//! it wants to put the box back keeps the flag, which leaves the lock held
//! for good.
//!
//! Verus gives a shared `&AtomicBool` no value that could change between two
//! calls, so nothing here states what the flag holds. What each operation
//! does to the flag is stated, and proved for every interleaving, on the
//! model in [`crate::protocol`]: a call of `attempt` is an `Attempt` there,
//! a write through the guard a `Write`, the drop of the guard a `Release`,
//! and `std::mem::forget` of the guard a `Leak`, as is a drop that cannot
//! put the box back.

use crate::protocol::Outcome;
use std::sync::atomic::AtomicBool;
use std::sync::atomic::Ordering;
use std::sync::Mutex;
use std::sync::MutexGuard;
use std::sync::TryLockError;
use vstd::prelude::*;

verus! {

/// `std::sync::Mutex`, the slot.
#[verifier::external_type_specification]
#[verifier::external_body]
#[verifier::reject_recursive_types(T)]
pub struct ExMutex<T: ?Sized>(Mutex<T>);

/// `std::sync::MutexGuard`, the open slot.
#[verifier::external_type_specification]
#[verifier::external_body]
#[verifier::reject_recursive_types(T)]
pub struct ExMutexGuard<'a, T: ?Sized + 'a>(MutexGuard<'a, T>);

/// `Mutex::new`: a slot that holds `content`.
#[verifier::external_body]
fn slot_new<T>(content: T) -> Mutex<T> {
    Mutex::new(content)
}

/// `Mutex::try_lock`: the slot opened, or nothing if it is open already, in
/// this thread or another. A poisoned slot is opened all the same. The call
/// neither waits nor panics. Nothing is claimed of when it opens the slot,
/// nor of what the slot holds.
#[verifier::external_body]
fn slot_open<T>(slot: &Mutex<T>) -> Option<MutexGuard<'_, T>>
    opens_invariants none
    no_unwind
{
    match slot.try_lock() {
        Ok(open) => Some(open),
        Err(TryLockError::Poisoned(poisoned)) => Some(poisoned.into_inner()),
        Err(TryLockError::WouldBlock) => None,
    }
}

/// `DerefMut::deref_mut` of `MutexGuard`: the content of the open slot, to
/// take or to replace. Nothing is claimed of it.
#[verifier::external_body]
fn slot_content<'g, 'a, T>(open: &'g mut MutexGuard<'a, T>) -> &'g mut T
    opens_invariants none
    no_unwind
{
    open
}

/// The busy-wait: calls `attempt` on `on` until it returns a value, with
/// `std::hint::spin_loop` after each call that returned none, and returns
/// that value.
///
/// A wait that may last forever has no measure to prove it by, so the
/// repetition stands here. What is repeated is verified.
#[verifier::external_body]
fn spin_until<A: Copy, R, F: Fn(A) -> Option<R>>(attempt: F, on: A) -> (found: R)
    requires
        call_requires(attempt, (on,)),
    ensures
        call_ensures(attempt, (on,), Some(found)),
{
    loop {
        if let Some(found) = attempt(on) {
            return found;
        }
        std::hint::spin_loop();
    }
}

/// What a flag was made with: whether it was made held. This is of the
/// flag's making alone and says nothing of what the flag holds later.
pub uninterp spec fn flag_made_held(flag: AtomicBool) -> bool;

/// `AtomicBool::new`: a flag made with `held`.
#[verifier::external_body]
fn flag_new(held: bool) -> (flag: AtomicBool)
    ensures
        flag_made_held(flag) == held,
{
    AtomicBool::new(held)
}

/// `AtomicBool::store`. The store panics with the orderings `Acquire` and
/// `AcqRel` and with no other.
#[verifier::external_body]
fn flag_store(flag: &AtomicBool, held: bool, order: Ordering)
    requires
        order != Ordering::Acquire,
        order != Ordering::AcqRel,
    opens_invariants none
    no_unwind
{
    flag.store(held, order);
}

/// A lock that protects one value and is taken by spinning on a flag.
#[verifier::reject_recursive_types(T)]
pub struct SpinLock<T> {
    locked: AtomicBool,
    slot: Mutex<Option<Box<T>>>,
}

/// The won flag, and what was taken from the slot when it was won. Dropping
/// it puts that back and then frees the flag. If there is something to put
/// back and the slot cannot be opened, that is lost and the flag stays held.
#[verifier::reject_recursive_types(T)]
struct Claim<'a, T> {
    lock: &'a SpinLock<T>,
    value: Option<Box<T>>,
}

/// Exclusive access to the value of the lock it came from, for as long as it
/// lives. Dropping it frees the lock.
#[verifier::reject_recursive_types(T)]
pub struct Guard<'a, T> {
    claim: Claim<'a, T>,
}

/// The value in `held`, to write to.
fn held_mut<T>(held: &mut Option<Box<T>>) -> (value: &mut T)
    requires
        *old(held) is Some,
    ensures
        *value == *old(held)->0,
        *final(held) == Some(Box::new(*final(value))),
    opens_invariants none
    no_unwind
{
    match held {
        Some(boxed) => &mut **boxed,
        None => vstd::pervasive::unreached(),
    }
}

impl<T> SpinLock<T> {
    /// Whether the lock was made with its flag held.
    pub closed spec fn made_held(&self) -> bool {
        flag_made_held(self.locked)
    }

    /// A lock around `value`, made free: the first swap of its flag finds
    /// it free.
    pub fn new(value: T) -> (lock: Self)
        ensures
            !lock.made_held(),
    {
        SpinLock { locked: flag_new(false), slot: slot_new(Some(Box::new(value))) }
    }

    /// Spins until this thread has flipped the flag from free to held, then
    /// returns the guard of that acquisition. Does not return while another
    /// guard of this lock lives, nor ever if the calling thread holds one
    /// itself.
    pub fn lock(&self) -> (guard: Guard<'_, T>)
        ensures
            guard.origin() == self,
    {
        spin_until(Self::attempt, self)
    }

    /// One swap of the flag, and the guard of the acquisition if the swap
    /// won the flag and the slot held the value.
    fn attempt(&self) -> (won: Option<Guard<'_, T>>)
        ensures
            won matches Some(guard) ==> guard.origin() == self,
    {
        let previous = self.locked.swap(true, Ordering::Acquire);
        match self.after_swap(previous) {
            Some(claim) => Self::enter(claim),
            None => None,
        }
    }

    /// What a swap has won that set the flag and found it at `previous`:
    /// nothing if the flag was held already, else the flag of this lock,
    /// with what the slot holds.
    fn after_swap(&self, previous: bool) -> (won: Option<Claim<'_, T>>)
        ensures
            match won {
                Some(claim) => Outcome::of_swap(previous) == Outcome::Acquired && claim.lock
                    == self,
                None => Outcome::of_swap(previous) == Outcome::Busy,
            },
    {
        if previous {
            None
        } else {
            let mut claim = Claim { lock: self, value: None };
            claim.value = self.take_value();
            Some(claim)
        }
    }

    /// Takes what the slot holds and leaves it empty. Takes nothing if the
    /// slot cannot be opened.
    fn take_value(&self) -> Option<Box<T>> {
        match slot_open(&self.slot) {
            Some(mut open) => slot_content(&mut open).take(),
            None => None,
        }
    }

    /// The guard around what `claim` holds. A claim that holds nothing is
    /// dropped, which frees the flag without a touch to the slot.
    fn enter(claim: Claim<'_, T>) -> (won: Option<Guard<'_, T>>)
        ensures
            match claim.value {
                Some(value) => won matches Some(guard) && guard@ == *value && guard.origin()
                    == claim.lock,
                None => won is None,
            },
    {
        if claim.value.is_some() {
            Some(Guard { claim })
        } else {
            None
        }
    }
}

impl<'a, T> Guard<'a, T> {
    #[verifier::type_invariant]
    spec fn holds_the_value(&self) -> bool {
        self.claim.value is Some
    }

    /// The lock this guard came from.
    pub closed spec fn origin(&self) -> &'a SpinLock<T> {
        self.claim.lock
    }
}

impl<T> View for Guard<'_, T> {
    type V = T;

    /// The protected value as it is now.
    closed spec fn view(&self) -> T {
        *self.claim.value->0
    }
}

impl<T> Claim<'_, T> {
    /// Whether the claim holds something to put back.
    fn holds(&self) -> (yes: bool)
        ensures
            yes == (self.value is Some),
        opens_invariants none
        no_unwind
    {
        match &self.value {
            Some(_) => true,
            None => false,
        }
    }

    /// Opens the slot, puts into it what the claim holds and takes what it
    /// held, and closes it. Says whether the slot could be opened; if it
    /// could not, the claim holds what it held.
    fn put_back(&mut self) -> (back: bool)
        ensures
            final(self).lock == old(self).lock,
            !back ==> final(self).value == old(self).value,
        opens_invariants none
        no_unwind
    {
        match slot_open(&self.lock.slot) {
            Some(mut open) => {
                std::mem::swap(&mut self.value, slot_content(&mut open));
                true
            },
            None => false,
        }
    }
}

impl<T> Drop for Claim<'_, T> {
    fn drop(&mut self)
        opens_invariants none
        no_unwind
    {
        if !self.holds() || self.put_back() {
            flag_store(&self.lock.locked, false, Ordering::Release);
        }
    }
}

impl<T> std::ops::Deref for Guard<'_, T> {
    type Target = T;

    /// The protected value.
    fn deref(&self) -> (value: &T)
        ensures
            *value == self@,
    {
        proof {
            use_type_invariant(self);
        }
        match &self.claim.value {
            Some(boxed) => &**boxed,
            None => vstd::pervasive::unreached(),
        }
    }
}

impl<T> std::ops::DerefMut for Guard<'_, T> {
    /// The protected value, to write to. What is written is what the guard
    /// holds from then on.
    fn deref_mut(&mut self) -> (value: &mut T)
        ensures
            *value == old(self)@,
            final(self)@ == *final(value),
            final(self).origin() == old(self).origin(),
    {
        proof {
            use_type_invariant(&*self);
        }
        held_mut(&mut self.claim.value)
    }
}

} // verus!
