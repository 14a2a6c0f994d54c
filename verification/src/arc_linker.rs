//! Revocable shared ownership across threads: the owner of a slot.

pub mod arc_linked;

use std::ops::Deref;
use std::sync::{Arc, Mutex, MutexGuard};
use vstd::prelude::*;
use crate::arc_linker::arc_linked::ArcLinked;
use crate::cells::{acquire, mutex_place, share_arc};
use crate::slot::{clear, fill};

verus! {

/// Owns a slot that holds a value until the linker is dropped.  The handles it
/// gives out with [`linked`](ArcLinker::linked) reach the same slot, from any
/// thread, and find it empty from then on.
///
/// The slot is a `Mutex`: one access at a time, and an access waits for the one
/// that is running.  A thread that reaches for a slot it is already accessing
/// waits for itself.
#[verifier::reject_recursive_types(R)]
pub struct ArcLinker<R> {
    receiver: Arc<Mutex<Option<R>>>,
    made: Ghost<Option<R>>,
}

impl<R> ArcLinker<R> {
    /// The mutex that is the slot.  Two values hold the same slot exactly if
    /// their mutexes are equal.
    pub closed spec fn slot(&self) -> Mutex<Option<R>> {
        *self.receiver
    }

    /// What the slot held when it was made.  What it holds now does not show
    /// in a linker: the value in the slot changes with every event, and the
    /// slot is emptied when an owner is dropped.
    pub closed spec fn made_holding(&self) -> Option<R> {
        self.made@
    }

    /// A linker whose slot holds `receiver`.
    pub fn new(receiver: R) -> (linker: Self)
        ensures
            linker.made_holding() == Some(receiver),
    {
        let ghost made = Some(receiver);
        ArcLinker { receiver: Arc::new(Mutex::new(fill(receiver))), made: Ghost(made) }
    }

    pub fn get_receiver(&self) -> (mutex: &Mutex<Option<R>>)
        ensures
            *mutex == self.slot(),
    {
        &*self.receiver
    }

    /// The guard on the slot, once no other access is running.
    pub fn lock(&self) -> MutexGuard<'_, Option<R>> {
        acquire(&*self.receiver)
    }

    /// One more handle to this linker's slot.
    pub fn linked(&self) -> (handle: ArcLinked<R>)
        ensures
            handle.slot() == self.slot(),
    {
        ArcLinked::on(share_arc(&self.receiver))
    }
}

impl<R> Clone for ArcLinker<R> {
    /// A second owner of the same slot: the slot is emptied when either is
    /// dropped.
    fn clone(&self) -> (owner: Self)
        ensures
            owner.slot() == self.slot(),
            owner.made_holding() == self.made_holding(),
    {
        ArcLinker { receiver: share_arc(&self.receiver), made: self.made }
    }
}

impl<R> Deref for ArcLinker<R> {
    type Target = Mutex<Option<R>>;

    fn deref(&self) -> (mutex: &Mutex<Option<R>>)
        ensures
            *mutex == self.slot(),
    {
        &*self.receiver
    }
}

impl<R> Drop for ArcLinker<R> {
    /// Empties the slot, after the access that is running, if there is one.
    fn drop(&mut self)
        opens_invariants none
        no_unwind
    {
        let mut guard = acquire(&*self.receiver);
        clear(mutex_place(&mut guard));
    }
}

impl<R: Default> Default for ArcLinker<R> {
    fn default() -> (linker: Self)
        ensures
            linker.made_holding() is Some,
            R::default.ensures((), linker.made_holding()->0),
    {
        ArcLinker::new(R::default())
    }
}

} // verus!
