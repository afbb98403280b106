//! Single-value latest-wins channel.
//!
//! A one-slot mailbox between a producer ([`Updater`]) and a consumer
//! ([`Getter`]). The producer overwrites the slot, never queues; the
//! consumer folds any pending value into its owned copy on each read, so
//! intermediate writes may be coalesced away. Dropping the [`Getter`]
//! releases the last strong reference to the slot, which makes every later
//! write fail and hand the value back to the producer.

use vstd::prelude::*;
use std::sync::Arc;
use std::sync::Mutex;
use std::sync::Weak;

verus! {

#[verifier::external_type_specification]
#[verifier::external_body]
#[verifier::reject_recursive_types(T)]
pub struct ExMutex<T: ?Sized>(Mutex<T>);

/// Non-owning handle to the shared slot. Verus refuses a declaration of
/// std::sync::Weak (its allocator parameter cannot be matched), so the
/// handle is held behind this opaque struct and reached only through the
/// trusted functions below.
#[verifier::external_body]
#[verifier::reject_recursive_types(T)]
struct WeakSlot<T> {
    inner: Weak<Mutex<Option<T>>>,
}

/// Relies on std::sync::Mutex::new to create the shared pending slot.
#[verifier::external_body]
fn new_slot<T>() -> Mutex<Option<T>> {
    Mutex::new(None)
}

/// Relies on std::sync::Arc::downgrade: the result is a non-owning
/// reference to the same slot.
#[verifier::external_body]
fn downgrade_slot<T>(slot: &Arc<Mutex<Option<T>>>) -> WeakSlot<T> {
    WeakSlot { inner: Arc::downgrade(slot) }
}

/// Relies on std::sync::Weak::upgrade: yields the slot while a strong
/// reference to it is still held somewhere, and nothing once the consumer
/// holding it is gone. Which of the two happens depends on the concurrent
/// consumer, so nothing more can be promised of the result.
#[verifier::external_body]
fn upgrade_slot<T>(slot: &WeakSlot<T>) -> Option<Arc<Mutex<Option<T>>>> {
    slot.inner.upgrade()
}

/// Relies on std::sync::Mutex::lock and Option::take: removes and returns
/// whatever value a concurrent producer last stored in the slot, if any.
/// The result depends on that producer, so nothing can be promised of it.
#[verifier::external_body]
fn take_pending<T>(slot: &Arc<Mutex<Option<T>>>) -> Option<T> {
    match slot.lock() {
        Ok(mut guard) => guard.take(),
        Err(_) => None,
    }
}

/// Relies on std::sync::Mutex::lock: replaces the slot's pending value,
/// discarding any value a slower consumer has not read. Panics only on
/// a poisoned lock, which needs a panic in some other holder first; the
/// consumer's verified slot accesses never panic.
#[verifier::external_body]
fn store_pending<T>(slot: &Arc<Mutex<Option<T>>>, value: T) {
    *slot.lock().unwrap() = Some(value);
}

/// Consumer half of the channel: owns the most recently read value and a
/// strong reference to the shared pending slot.
#[verifier::reject_recursive_types(T)]
pub struct Getter<T> {
    latest: T,
    latest_set: Arc<Mutex<Option<T>>>,
}

/// Producer half of the channel: holds only a weak reference, so it can
/// observe the consumer's death instead of keeping the slot alive.
#[verifier::reject_recursive_types(T)]
pub struct Updater<T> {
    latest: WeakSlot<T>,
}

/// Returned by [`Updater::update`] when the consumer is gone; carries the
/// rejected value back so the producer can reclaim it.
#[derive(PartialEq, Eq, Clone, Copy, Debug)]
pub struct DeadGetterError<T>(pub T);

impl<T> Getter<T> {
    /// The value this consumer currently owns: the most recent write it
    /// has observed, or the channel's initial value.
    pub closed spec fn current(&self) -> T {
        self.latest
    }

    /// Moves a pending value, when one was taken from the slot, into the
    /// owned cell; without one the owned cell is untouched.
    fn fold_pending(&mut self, pending: Option<T>)
        ensures
            final(self).current() == (match pending {
                Option::Some(v) => v,
                Option::None => old(self).current(),
            }),
    {
        if let Some(value) = pending {
            self.latest = value;
        }
    }

    /// Returns the most recent value. Any value pending in the shared slot
    /// is folded into the owned cell first, so a second read without an
    /// intervening write returns the same value again.
    pub fn latest(&mut self) -> (r: &T)
        ensures
            *r == final(self).current(),
    {
        let pending = take_pending(&self.latest_set);
        self.fold_pending(pending);
        &self.latest
    }
}

impl<T> Updater<T> {
    /// Replaces the slot's pending value with `value`. When the consumer
    /// has been dropped the write fails and the rejected value comes back
    /// unchanged inside the error.
    pub fn update(&self, value: T) -> (r: Result<(), DeadGetterError<T>>)
        ensures
            r matches Err(e) ==> e.0 == value,
    {
        match upgrade_slot(&self.latest) {
            Some(slot) => {
                store_pending(&slot, value);
                Ok(())
            }
            None => Err(DeadGetterError(value)),
        }
    }

    /// Liveness probe: true exactly when the consumer has been dropped, in
    /// which case every later [`Updater::update`] fails.
    pub fn getter_is_dead(&self) -> bool {
        let upgraded = upgrade_slot(&self.latest);
        upgraded.is_none()
    }
}

/// Creates a channel whose consumer starts out owning `initial`.
pub fn channel<T: Send>(initial: T) -> (r: (Getter<T>, Updater<T>))
    ensures
        r.0.current() == initial,
{
    let slot = Arc::new(new_slot());
    let updater = Updater { latest: downgrade_slot(&slot) };
    let getter = Getter { latest: initial, latest_set: slot };
    (getter, updater)
}

} // verus!
