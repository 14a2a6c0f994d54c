//! The receiver that does nothing.

use vstd::prelude::*;
use crate::receive::{Receive, ReceiverResult};
use crate::view::{DeleteView, View};

verus! {

/// Answers every event with `Continue` of the same event, and watches every
/// event without ever asking to be removed.  It stands at the end of a chain
/// that has no receiver of its own.
#[derive(Clone, Copy, Debug)]
pub struct PassReceiver;

impl<E> Receive<E> for PassReceiver {
    type Output = E;

    open spec fn delivers(&self, event: E, after: &Self, result: ReceiverResult<E, E>) -> bool {
        result == ReceiverResult::<E, E>::Continue(event)
    }

    fn send(&mut self, event: E) -> (result: ReceiverResult<E, E>) {
        ReceiverResult::Continue(event)
    }
}

impl<E> View<E> for PassReceiver {
    open spec fn shows(&self, event: &E, after: &Self, verdict: Option<DeleteView>) -> bool {
        verdict is None
    }

    fn view(&mut self, _event: &E) -> (verdict: Option<DeleteView>) {
        None
    }
}

impl Default for PassReceiver {
    fn default() -> (receiver: Self)
        ensures
            receiver == PassReceiver,
    {
        PassReceiver
    }
}

} // verus!
