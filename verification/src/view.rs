//! The viewer capability: watching events on their way to a receiver.

use std::cell::RefCell;
use std::rc::Rc;
use std::sync::{Arc, Mutex, RwLock};
use vstd::prelude::*;
use crate::cells::{acquire, acquire_write, cell_place, lock_place, mutex_place};

verus! {

/// What a viewer returns to be taken out of the collection that holds it.
#[derive(Clone, Copy, Debug, PartialEq, Eq, Hash)]
pub struct DeleteView;

/// Something that events of type `E` can be shown to.  A viewer sees the event
/// and cannot change it, keep it from the receiver, or answer for the receiver.
pub trait View<E> {
    /// Whether showing `event` to `self` may leave the viewer as `after` and
    /// draw `verdict` from it.  A viewer that says nothing about itself allows
    /// everything.
    open spec fn shows(&self, event: &E, after: &Self, verdict: Option<DeleteView>) -> bool {
        true
    }

    /// Looks at `event`; `Some(DeleteView)` asks for this viewer's removal.
    fn view(&mut self, event: &E) -> (verdict: Option<DeleteView>)
        ensures
            old(self).shows(event, final(self), verdict),
    ;
}

/// A run of showings to one viewer: the events, one after the other, each with
/// the verdict it drew.
pub type Showings<E> = Seq<(E, Option<DeleteView>)>;

/// A viewer seen without its own type.  Every [`View`] is one.
///
/// What a watcher has become after an event cannot be said in terms of its
/// type.  It is said in terms of what the watcher may do from then on.
pub trait Watch<E> {
    /// Whether `self` may live through `showings`: shown the events in their
    /// order, it may give the verdicts that stand beside them.
    spec fn admits(&self, showings: Showings<E>) -> bool;

    /// Looks at `event`.  The verdict is one that the watcher may give; and
    /// what the watcher may do afterwards, it might have done after this
    /// showing from the start.
    fn watch(&mut self, event: &E) -> (verdict: Option<DeleteView>)
        ensures
            old(self).admits(seq![(*event, verdict)]),
            forall|later: Showings<E>| #[trigger]
                final(self).admits(later) ==> old(self).admits(seq![(*event, verdict)] + later),
    ;
}

impl<E, W: View<E>> Watch<E> for W {
    /// Each showing leaves the viewer in a state that may live through the
    /// rest.
    open spec fn admits(&self, showings: Showings<E>) -> bool
        decreases showings.len(),
    {
        if showings.len() == 0 {
            true
        } else {
            exists|after: W| #[trigger]
                self.shows(&showings[0].0, &after, showings[0].1) && after.admits(showings.skip(1))
        }
    }

    fn watch(&mut self, event: &E) -> (verdict: Option<DeleteView>) {
        let verdict = self.view(event);
        proof {
            let first = seq![(*event, verdict)];
            assert(first.skip(1) =~= Seq::<(E, Option<DeleteView>)>::empty());
            assert(self.admits(first.skip(1)));
            assert forall|later: Showings<E>| #[trigger] self.admits(later) implies old(
                self,
            ).admits(first + later) by {
                assert((first + later).skip(1) =~= later);
                assert((first + later)[0] == (*event, verdict));
                assert(old(self).shows(&(first + later)[0].0, &*self, (first + later)[0].1));
            }
        }
        verdict
    }
}

/// A boxed watcher is a viewer again.  It may become whatever is no freer than
/// it was after the showing.
impl<E> View<E> for Box<dyn Watch<E>> {
    open spec fn shows(&self, event: &E, after: &Self, verdict: Option<DeleteView>) -> bool {
        &&& (**self).admits(seq![(*event, verdict)])
        &&& forall|later: Showings<E>| #[trigger]
            (**after).admits(later) ==> (**self).admits(seq![(*event, verdict)] + later)
    }

    fn view(&mut self, event: &E) -> (verdict: Option<DeleteView>) {
        (**self).watch(event)
    }
}

/// A showing to a shared viewer is a showing to the viewer behind the pointer.
/// The pointer itself stays what it was.
pub open spec fn shows_behind<E, R: View<E>>(event: &E, verdict: Option<DeleteView>) -> bool {
    exists|inner: R, inner_after: R| #[trigger] inner.shows(event, &inner_after, verdict)
}

impl<E, R: View<E>> View<E> for Rc<RefCell<R>> {
    open spec fn shows(&self, event: &E, after: &Self, verdict: Option<DeleteView>) -> bool {
        after == self && shows_behind::<E, R>(event, verdict)
    }

    fn view(&mut self, event: &E) -> (verdict: Option<DeleteView>) {
        let mut guard = self.borrow_mut();
        cell_place(&mut guard).view(event)
    }
}

impl<E, R: View<E>> View<E> for Rc<Mutex<R>> {
    open spec fn shows(&self, event: &E, after: &Self, verdict: Option<DeleteView>) -> bool {
        after == self && shows_behind::<E, R>(event, verdict)
    }

    fn view(&mut self, event: &E) -> (verdict: Option<DeleteView>) {
        let mut guard = acquire(&**self);
        mutex_place(&mut guard).view(event)
    }
}

impl<E, R: View<E>> View<E> for Rc<RwLock<R>> {
    open spec fn shows(&self, event: &E, after: &Self, verdict: Option<DeleteView>) -> bool {
        after == self && shows_behind::<E, R>(event, verdict)
    }

    fn view(&mut self, event: &E) -> (verdict: Option<DeleteView>) {
        let mut guard = acquire_write(&**self);
        lock_place(&mut guard).view(event)
    }
}

impl<E, R: View<E>> View<E> for Arc<Mutex<R>> {
    open spec fn shows(&self, event: &E, after: &Self, verdict: Option<DeleteView>) -> bool {
        after == self && shows_behind::<E, R>(event, verdict)
    }

    fn view(&mut self, event: &E) -> (verdict: Option<DeleteView>) {
        let mut guard = acquire(&**self);
        mutex_place(&mut guard).view(event)
    }
}

impl<E, R: View<E>> View<E> for Arc<RwLock<R>> {
    open spec fn shows(&self, event: &E, after: &Self, verdict: Option<DeleteView>) -> bool {
        after == self && shows_behind::<E, R>(event, verdict)
    }

    fn view(&mut self, event: &E) -> (verdict: Option<DeleteView>) {
        let mut guard = acquire_write(&**self);
        lock_place(&mut guard).view(event)
    }
}

} // verus!
