//! A minimal promise/future pair for handing a value from one part of the
//! update cycle to another.
//!
//! A [`Promise`] and its associated [`Future`] share a single slot. The
//! producer calls [`Promise::set`] once; the consumer calls [`Future::poll`]
//! until the value is [`Ready`], after which the slot is [`Expired`] and must
//! not be polled again.

use std::sync::Arc;
use vstd::prelude::*;
use vstd::rwlock::{RwLock, RwLockPredicate};

pub use FutureValue::{Expired, Ready, Wait};

verus! {

/// The state of a shared promise/future slot.
#[must_use]
#[derive(Debug, PartialEq)]
pub enum FutureValue<T> {
    /// The promised value has not been written yet.
    Wait,
    /// The promised value is available.
    Ready(T),
    /// The value has already been taken, or the slot was never associated
    /// with a promise.
    Expired,
}

impl<T> FutureValue<T> {
    /// Whether the promised value is available.
    pub fn is_ready(&self) -> (r: bool)
        ensures
            r == (self is Ready),
    {
        matches!(self, FutureValue::Ready(_))
    }

    /// Whether the value has already been taken.
    pub fn is_expired(&self) -> (r: bool)
        ensures
            r == (self is Expired),
    {
        matches!(self, FutureValue::Expired)
    }

    /// Takes the promised value out of a [`Ready`] state.
    pub fn unwrap(self) -> (r: T)
        requires
            self is Ready,
        ensures
            self == FutureValue::Ready(r),
    {
        match self {
            FutureValue::Ready(value) => value,
            _ => vstd::pervasive::unreached(),
        }
    }

    /// The transition one poll applies to a slot: a pending or expired slot
    /// is left as it is and reported; a ready value is handed out, leaving an
    /// expired slot behind.
    ///
    /// Returns the polled result first and the new slot state second.
    pub fn poll_step(self) -> (r: (FutureValue<T>, FutureValue<T>))
        ensures
            ({
                let (result, slot) = r;
                match self {
                    FutureValue::Wait => result is Wait && slot is Wait,
                    FutureValue::Ready(value) => result == FutureValue::Ready(value) && slot
                        is Expired,
                    FutureValue::Expired => result is Expired && slot is Expired,
                }
            }),
    {
        match self {
            FutureValue::Wait => (FutureValue::Wait, FutureValue::Wait),
            FutureValue::Ready(value) => (FutureValue::Ready(value), FutureValue::Expired),
            FutureValue::Expired => (FutureValue::Expired, FutureValue::Expired),
        }
    }
}

/// The lock on a promise/future slot places no restriction on its contents.
pub struct SlotPredicate;

impl<T> RwLockPredicate<FutureValue<T>> for SlotPredicate {
    open spec fn inv(self, v: FutureValue<T>) -> bool {
        true
    }
}

/// A value that will be written in the future.
///
/// Create one with [`Promise::start`] (or [`Promise::new`] followed by
/// [`Future::new`]) and hand the [`Future`] to the consumer.
#[must_use]
pub struct Promise<T> {
    slot: Arc<RwLock<FutureValue<T>, SlotPredicate>>,
}

impl<T> Promise<T> {
    /// Creates a new promise whose value is not yet written.
    ///
    /// See [`Promise::start`] for a more convenient way to create a promise
    /// together with its associated future.
    pub fn new() -> Self {
        Promise { slot: Arc::new(RwLock::new(FutureValue::Wait, Ghost(SlotPredicate))) }
    }

    /// Creates a new promise and its associated future.
    pub fn start() -> (Self, Future<T>) {
        let promise = Self::new();
        let future = Future::new(&promise);
        (promise, future)
    }

    /// Writes the promised value into the shared slot, so that the associated
    /// [`Future`] will find it [`Ready`] on its next poll.
    pub fn set(&self, value: T) {
        let (_, handle) = self.slot.acquire_write();
        handle.release_write(FutureValue::Ready(value));
    }
}

impl<T> Default for Promise<T> {
    fn default() -> Self {
        Self::new()
    }
}

/// A value that will be read in the future, when ready.
///
/// See [`Promise`] for how the pair is used.
#[must_use]
pub struct Future<T> {
    slot: Arc<RwLock<FutureValue<T>, SlotPredicate>>,
}

impl<T> Future<T> {
    /// Creates a future that is already expired and not associated with any
    /// promise.
    pub fn expired() -> Self {
        Future { slot: Arc::new(RwLock::new(FutureValue::Expired, Ghost(SlotPredicate))) }
    }

    /// Creates a future that shares its slot with the given [`Promise`].
    pub fn new(promise: &Promise<T>) -> Self {
        Future { slot: promise.slot.clone() }
    }

    /// Polls the shared slot, applying [`FutureValue::poll_step`] to its
    /// current contents: [`Wait`] while the value has not been written,
    /// [`Ready`] exactly once after [`Promise::set`], and [`Expired`] on any
    /// poll after that.
    pub fn poll(&self) -> FutureValue<T> {
        let (value, handle) = self.slot.acquire_write();
        let (result, slot) = value.poll_step();
        handle.release_write(slot);
        result
    }

    /// Discards the future without ever reading the value.
    pub fn forget(self) {
    }
}

impl<T> Default for Future<T> {
    fn default() -> Self {
        Self::expired()
    }
}

} // verus!
