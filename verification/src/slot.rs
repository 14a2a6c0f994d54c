//! The slot that a linker owns and its handles reach: a value, or nothing.
//!
//! The slot stands in a shared cell, and what a cell holds does not show in a
//! contract.  So the decisions are taken here, on the slot itself: what the
//! linker puts into it, what a handle answers for a slot that holds a value,
//! what for a slot that holds none, and what the linker leaves behind.  The
//! linkers and their handles do no more than reach the slot and call these.

use vstd::prelude::*;
use crate::receive::{Receive, ReceiverResult};
use crate::view::{DeleteView, View};

verus! {

/// Whether sending `event` to `slot` may leave the slot as `after` and be
/// answered with `result`.  The value in the slot is sent the event and stays
/// in the slot; an empty slot hands the event back in `Delete`, as it came,
/// and stays empty.
pub open spec fn delivered<E, R: Receive<E>>(
    slot: Option<R>,
    event: E,
    after: Option<R>,
    result: ReceiverResult<E, R::Output>,
) -> bool {
    match slot {
        Some(receiver) => after matches Some(then) && receiver.delivers(event, &then, result),
        None => after is None && result == ReceiverResult::<E, R::Output>::Delete(event),
    }
}

/// Whether showing `event` to `slot` may leave the slot as `after` and draw
/// `verdict`.  The value in the slot is shown the event and stays in the
/// slot; an empty slot asks for the removal of whoever looked into it, and
/// stays empty.
pub open spec fn shown<E, R: View<E>>(
    slot: Option<R>,
    event: &E,
    after: Option<R>,
    verdict: Option<DeleteView>,
) -> bool {
    match slot {
        Some(viewer) => after matches Some(then) && viewer.shows(event, &then, verdict),
        None => after is None && verdict == Some(DeleteView),
    }
}

/// Whether a delivery of `event` to some slot may be answered with `result`.
/// This is what is known of a handle: it reaches a slot, and which slot that
/// is does not show in the handle.
pub open spec fn delivered_to_a_slot<E, R: Receive<E>>(
    event: E,
    result: ReceiverResult<E, R::Output>,
) -> bool {
    exists|slot: Option<R>, after: Option<R>| #[trigger] delivered(slot, event, after, result)
}

/// Whether a showing of `event` to some slot may draw `verdict`.
pub open spec fn shown_to_a_slot<E, R: View<E>>(event: &E, verdict: Option<DeleteView>) -> bool {
    exists|slot: Option<R>, after: Option<R>| #[trigger] shown(slot, event, after, verdict)
}

/// The slot as a linker makes it: it holds `receiver`.
pub fn fill<R>(receiver: R) -> (slot: Option<R>)
    ensures
        slot == Some(receiver),
{
    Some(receiver)
}

/// Sends `event` to the value in `slot`.
pub fn deliver<E, R: Receive<E>>(slot: &mut Option<R>, event: E) -> (result: ReceiverResult<
    E,
    R::Output,
>)
    ensures
        delivered(*old(slot), event, *final(slot), result),
{
    match slot {
        Some(receiver) => receiver.send(event),
        None => ReceiverResult::Delete(event),
    }
}

/// Shows `event` to the value in `slot`.
pub fn show<E, R: View<E>>(slot: &mut Option<R>, event: &E) -> (verdict: Option<DeleteView>)
    ensures
        shown(*old(slot), event, *final(slot), verdict),
{
    match slot {
        Some(viewer) => viewer.view(event),
        None => Some(DeleteView),
    }
}

/// Empties `slot`; the value that was in it is dropped.
pub fn clear<R>(slot: &mut Option<R>)
    ensures
        *final(slot) is None,
    opens_invariants none
    no_unwind
{
    *slot = None;
}

/// A slot that is empty stays empty, whatever is sent to it or shown to it,
/// and says so each time: the event comes back as it was sent, and the viewer
/// asks to be removed.
pub proof fn law_empty_slot_stays_empty<E, R: Receive<E> + View<E>>(
    event: E,
    after: Option<R>,
    result: ReceiverResult<E, <R as Receive<E>>::Output>,
    verdict: Option<DeleteView>,
)
    ensures
        delivered(None::<R>, event, after, result) ==> after is None && result
            == ReceiverResult::<E, <R as Receive<E>>::Output>::Delete(event),
        shown(None::<R>, &event, after, verdict) ==> after is None && verdict == Some(DeleteView),
{
}

/// A slot that holds a value never answers for itself: its answer is the
/// value's, and the value stays in the slot.
pub proof fn law_full_slot_forwards<E, R: Receive<E>>(
    receiver: R,
    event: E,
    after: Option<R>,
    result: ReceiverResult<E, R::Output>,
)
    requires
        delivered(Some(receiver), event, after, result),
    ensures
        after is Some,
        receiver.delivers(event, &after->0, result),
{
}

} // verus!
