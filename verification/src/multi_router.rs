//! Routers for several kinds of event at once.
//!
//! A type that routes more than one kind of event keeps one chain for each
//! interface `I` that its interceptors are seen through, and implements
//! [`MultiRoute<I>`] once for each.

use vstd::prelude::*;

verus! {

/// The chain of one interface, on a type that may keep several.
pub trait MultiRoute<I: ?Sized> {
    /// The head of the chain kept for `I`; `None` where the chain is empty.
    open spec fn held(&self) -> Option<Box<I>> {
        arbitrary()
    }

    /// Takes the whole chain off and returns it.
    fn take_intercept(&mut self) -> (taken: Option<Box<I>>)
        ensures
            taken == old(self).held(),
            final(self).held() is None,
    ;

    /// Cuts the head out of the chain and returns it; what hung behind it takes
    /// its place.
    fn delete_top_intercept(&mut self) -> (head: Option<Box<I>>)
        ensures
            head is Some <==> old(self).held() is Some,
            old(self).held() is None ==> final(self).held() is None,
    ;

    /// Attaches `intercept` at the far end of the chain.
    fn intercept(&mut self, intercept: Box<I>)
        ensures
            final(self).held() is Some,
            old(self).held() is None ==> final(self).held() == Some(intercept),
    ;
}

} // verus!
