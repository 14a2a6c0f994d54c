//! The delivery protocol: what a receiver is, and the three answers it may give.

pub mod pass_receiver;

use std::cell::RefCell;
use std::rc::Rc;
use std::sync::{Arc, Mutex, RwLock};
use vstd::pervasive::unreached;
use vstd::prelude::*;
use crate::cells::{acquire, acquire_write, cell_place, lock_place, mutex_place};

verus! {

/// The answer to one delivery.
#[derive(Clone, Copy, Debug, PartialEq, Eq, Hash)]
pub enum ReceiverResult<E, T> {
    /// The event was taken; `T` goes on to whoever sent it.
    Continue(T),
    /// The delivery ends here; the event is not handed back.
    Stop,
    /// The receiver is gone for good.  The event comes back as it was sent, and
    /// the sender goes on as if this receiver had not been there.
    Delete(E),
}

impl<E, T> ReceiverResult<E, T> {
    pub fn is_continue(&self) -> (yes: bool)
        ensures
            yes == (self is Continue),
    {
        matches!(self, ReceiverResult::Continue(_))
    }

    pub fn is_stop(&self) -> (yes: bool)
        ensures
            yes == (self is Stop),
    {
        matches!(self, ReceiverResult::Stop)
    }

    pub fn is_delete(&self) -> (yes: bool)
        ensures
            yes == (self is Delete),
    {
        matches!(self, ReceiverResult::Delete(_))
    }

    /// The output of a delivery that went on.
    pub fn unwrap_continue(self) -> (output: T)
        requires
            self is Continue,
        ensures
            self == ReceiverResult::<E, T>::Continue(output),
    {
        match self {
            ReceiverResult::Continue(output) => output,
            _ => unreached(),
        }
    }

    /// The event that a vanished receiver handed back.
    pub fn unwrap_delete(self) -> (event: E)
        requires
            self is Delete,
        ensures
            self == ReceiverResult::<E, T>::Delete(event),
    {
        match self {
            ReceiverResult::Delete(event) => event,
            _ => unreached(),
        }
    }
}

/// Something that events of type `E` can be sent to.
pub trait Receive<E> {
    type Output;

    /// Whether sending `event` to `self` may leave the receiver as `after` and
    /// be answered with `result`.  A receiver that says nothing about itself
    /// allows everything.
    open spec fn delivers(
        &self,
        event: E,
        after: &Self,
        result: ReceiverResult<E, Self::Output>,
    ) -> bool {
        true
    }

    /// Takes `event`.
    fn send(&mut self, event: E) -> (result: ReceiverResult<E, Self::Output>)
        ensures
            old(self).delivers(event, final(self), result),
    ;
}

/// Holds of every value.  The relations of this library that speak of "some"
/// outcome name the outcome through it, so that a proof can point at one.
pub open spec fn candidate<T>(value: T) -> bool {
    true
}

/// A delivery to a shared receiver is a delivery to the receiver behind the
/// pointer.  The pointer itself stays what it was.
pub open spec fn delivers_behind<E, R: Receive<E>>(
    event: E,
    result: ReceiverResult<E, R::Output>,
) -> bool {
    exists|inner: R, inner_after: R| #[trigger] inner.delivers(event, &inner_after, result)
}

impl<E, R: Receive<E>> Receive<E> for Rc<RefCell<R>> {
    type Output = R::Output;

    open spec fn delivers(
        &self,
        event: E,
        after: &Self,
        result: ReceiverResult<E, R::Output>,
    ) -> bool {
        after == self && delivers_behind::<E, R>(event, result)
    }

    fn send(&mut self, event: E) -> (result: ReceiverResult<E, R::Output>) {
        let mut guard = self.borrow_mut();
        cell_place(&mut guard).send(event)
    }
}

impl<E, R: Receive<E>> Receive<E> for Rc<Mutex<R>> {
    type Output = R::Output;

    open spec fn delivers(
        &self,
        event: E,
        after: &Self,
        result: ReceiverResult<E, R::Output>,
    ) -> bool {
        after == self && delivers_behind::<E, R>(event, result)
    }

    fn send(&mut self, event: E) -> (result: ReceiverResult<E, R::Output>) {
        let mut guard = acquire(&**self);
        mutex_place(&mut guard).send(event)
    }
}

impl<E, R: Receive<E>> Receive<E> for Rc<RwLock<R>> {
    type Output = R::Output;

    open spec fn delivers(
        &self,
        event: E,
        after: &Self,
        result: ReceiverResult<E, R::Output>,
    ) -> bool {
        after == self && delivers_behind::<E, R>(event, result)
    }

    fn send(&mut self, event: E) -> (result: ReceiverResult<E, R::Output>) {
        let mut guard = acquire_write(&**self);
        lock_place(&mut guard).send(event)
    }
}

impl<E, R: Receive<E>> Receive<E> for Arc<Mutex<R>> {
    type Output = R::Output;

    open spec fn delivers(
        &self,
        event: E,
        after: &Self,
        result: ReceiverResult<E, R::Output>,
    ) -> bool {
        after == self && delivers_behind::<E, R>(event, result)
    }

    fn send(&mut self, event: E) -> (result: ReceiverResult<E, R::Output>) {
        let mut guard = acquire(&**self);
        mutex_place(&mut guard).send(event)
    }
}

impl<E, R: Receive<E>> Receive<E> for Arc<RwLock<R>> {
    type Output = R::Output;

    open spec fn delivers(
        &self,
        event: E,
        after: &Self,
        result: ReceiverResult<E, R::Output>,
    ) -> bool {
        after == self && delivers_behind::<E, R>(event, result)
    }

    fn send(&mut self, event: E) -> (result: ReceiverResult<E, R::Output>) {
        let mut guard = acquire_write(&**self);
        lock_place(&mut guard).send(event)
    }
}

} // verus!
