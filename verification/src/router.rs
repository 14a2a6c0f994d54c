//! The router: a receiver behind a chain of interceptors.

use vstd::prelude::*;
use crate::exposed::{Exposed, Viewer};
use crate::intercept::{
    attach, carries, cut_head, joined, lemma_joined_nothing, lemma_links_alone,
    lemma_links_attached, lemma_links_put_first, link_before, link_from, links, pass, passes, Chain,
    Intercept,
    Link, Relay,
};
use crate::receive::{candidate, Receive, ReceiverResult};
use crate::viewers::Viewers;

verus! {

/// A receiver that keeps a chain of interceptors before it, and lets the chain
/// be edited.
pub trait Route<E>: Receive<E> {
    /// The chain that events pass before they reach this receiver.
    open spec fn chain(&self) -> Chain<E> {
        arbitrary()
    }

    /// Attaches `intercept`, and what hangs behind it, at the far end of the
    /// chain.
    fn intercept(&mut self, intercept: Box<Intercept<E>>)
        ensures
            final(self).chain() == joined(old(self).chain(), Some(intercept)),
    ;

    /// Takes the whole chain off and returns it.
    fn take_intercept(&mut self) -> (taken: Chain<E>)
        ensures
            taken == old(self).chain(),
            final(self).chain() is None,
    ;

    /// Puts `intercept`, and what hangs behind it, before the chain that was
    /// there.
    fn intercept_at_root(&mut self, intercept: Box<Intercept<E>>)
        ensures
            final(self).chain() == joined(Some(intercept), old(self).chain()),
    {
        let old_intercept = self.take_intercept();
        match old_intercept {
            Some(rest) => {
                self.intercept(intercept);
                self.intercept(rest);
            },
            None => {
                proof {
                    lemma_joined_nothing(Some(intercept));
                }
                self.intercept(intercept)
            },
        }
    }
}

/// One receiver, and the chain of interceptors that events pass before they
/// reach it.
#[verifier::reject_recursive_types(E)]
pub struct Router<E, R: Receive<E>> {
    pub intercept: Chain<E>,
    pub receiver: R,
}

impl<E, R: Receive<E>> Router<E, R> {
    /// A router around `receiver` with an empty chain.
    pub fn new(receiver: R) -> (router: Self)
        ensures
            router.intercept is None,
            router.receiver == receiver,
    {
        Router { intercept: None, receiver }
    }

    /// A router around `receiver` whose chain is `intercept` and what hangs
    /// behind it.
    pub fn with_intercept(intercept: Box<Intercept<E>>, receiver: R) -> (router: Self)
        ensures
            router.intercept == Some(intercept),
            router.receiver == receiver,
    {
        Router { intercept: Some(intercept), receiver }
    }

    /// A router around `receiver` whose chain is the one link `intercept`.
    pub fn with_intercept_from_receiver<I: Receive<E, Output = E> + 'static>(
        intercept: I,
        receiver: R,
    ) -> (router: Self) where E: 'static
        ensures
            links(router.intercept).len() == 1,
            carries(router.intercept, 0, intercept),
            router.receiver == receiver,
    {
        let link = link_from(intercept);
        proof {
            lemma_links_alone(link);
        }
        Router::with_intercept(link, receiver)
    }

    /// A router with an empty chain around an exposure of `receiver` with no
    /// viewer.
    pub fn new_exposed(receiver: R) -> (router: Router<E, Exposed<E, R>>)
        ensures
            router.intercept is None,
            router.receiver.wf(),
            router.receiver.viewers.entries() == Seq::<(usize, Viewer<E>)>::empty(),
            router.receiver.viewers.next_id() == Some(0usize),
            router.receiver.receiver == receiver,
    {
        Router { intercept: None, receiver: Exposed::new(receiver) }
    }

    /// A router with an empty chain around an exposure of `receiver` to
    /// `viewers`.
    pub fn new_exposed_with_viewers(receiver: R, viewers: Viewers<Viewer<E>>) -> (router: Router<
        E,
        Exposed<E, R>,
    >)
        ensures
            router.intercept is None,
            router.receiver.viewers == viewers,
            router.receiver.receiver == receiver,
    {
        Router { intercept: None, receiver: Exposed::with_viewers(viewers, receiver) }
    }

    /// A router whose chain is `intercept` and what hangs behind it, around an
    /// exposure of `receiver` with no viewer.
    pub fn new_exposed_with_intercept(intercept: Box<Intercept<E>>, receiver: R) -> (router: Router<
        E,
        Exposed<E, R>,
    >)
        ensures
            router.intercept == Some(intercept),
            router.receiver.wf(),
            router.receiver.viewers.entries() == Seq::<(usize, Viewer<E>)>::empty(),
            router.receiver.viewers.next_id() == Some(0usize),
            router.receiver.receiver == receiver,
    {
        Router { intercept: Some(intercept), receiver: Exposed::new(receiver) }
    }

    /// A router whose chain is the one link `intercept`, around an exposure of
    /// `receiver` with no viewer.
    pub fn new_exposed_with_intercept_from_receiver<I: Receive<E, Output = E> + 'static>(
        intercept: I,
        receiver: R,
    ) -> (router: Router<E, Exposed<E, R>>) where E: 'static
        ensures
            links(router.intercept).len() == 1,
            carries(router.intercept, 0, intercept),
            router.receiver.wf(),
            router.receiver.viewers.entries() == Seq::<(usize, Viewer<E>)>::empty(),
            router.receiver.viewers.next_id() == Some(0usize),
            router.receiver.receiver == receiver,
    {
        let link = link_from(intercept);
        proof {
            lemma_links_alone(link);
        }
        Router::<E, R>::new_exposed_with_intercept(link, receiver)
    }

    /// This router as a link: its receiver, boxed, with its chain behind it.
    pub fn into_intercept(self) -> (link: Box<Intercept<E>>) where
        E: 'static,
        R: Receive<E, Output = E> + 'static,
        ensures
            link.intercept == self.intercept,
            carries(Some(link), 0, self.receiver),
    {
        link_before(self.receiver, self.intercept)
    }

    pub fn get_receiver(&self) -> (receiver: &R)
        ensures
            *receiver == self.receiver,
    {
        &self.receiver
    }

    pub fn get_receiver_mut(&mut self) -> (receiver: &mut R)
        ensures
            *receiver == old(self).receiver,
            final(self).receiver == *final(receiver),
            final(self).intercept == old(self).intercept,
    {
        &mut self.receiver
    }

    /// The head of the chain, if the chain is not empty.
    pub fn get_intercept(&self) -> (head: Option<&Intercept<E>>)
        ensures
            match self.intercept {
                Some(first) => head == Some(&*first),
                None => head is None,
            },
    {
        match &self.intercept {
            Some(first) => Some(&**first),
            None => None,
        }
    }

    /// Attaches `intercept` as one link at the far end of the chain.
    pub fn intercept_from_receiver<I: Receive<E, Output = E> + 'static>(
        &mut self,
        intercept: I,
    ) where E: 'static
        ensures
            links(final(self).intercept).len() == links(old(self).intercept).len() + 1,
            links(final(self).intercept).drop_last() == links(old(self).intercept),
            carries(final(self).intercept, links(old(self).intercept).len() as int, intercept),
            final(self).receiver == old(self).receiver,
    {
        let link = link_from(intercept);
        proof {
            lemma_links_attached(self.intercept, link);
        }
        attach(&mut self.intercept, link);
    }

    /// Puts `intercept` as one link before the chain that was there.
    pub fn intercept_at_root_from_receiver<I: Receive<E, Output = E> + 'static>(
        &mut self,
        intercept: I,
    ) where E: 'static
        ensures
            links(final(self).intercept).len() == links(old(self).intercept).len() + 1,
            links(final(self).intercept).drop_first() == links(old(self).intercept),
            carries(final(self).intercept, 0, intercept),
            final(self).receiver == old(self).receiver,
    {
        let link = link_from(intercept);
        proof {
            lemma_links_put_first(link, self.intercept);
        }
        self.intercept_at_root(link);
    }

    /// Cuts the head out of the chain and returns it alone; what hung behind it
    /// takes its place.
    pub fn delete_top_intercept(&mut self) -> (head: Chain<E>)
        ensures
            final(self).receiver == old(self).receiver,
            match old(self).intercept {
                None => head is None && final(self).intercept is None,
                Some(first) => {
                    &&& final(self).intercept == first.intercept
                    &&& head == Some(Box::new(Link { receiver: first.receiver, intercept: None }))
                },
            },
    {
        cut_head(&mut self.intercept)
    }
}

impl<E, R: Receive<E>> Receive<E> for Router<E, R> {
    type Output = R::Output;

    /// The event first passes the chain.  What comes out goes to the receiver,
    /// whose answer is the router's.  Where the chain let nothing out, the
    /// receiver is not asked and the answer is `Stop`.
    open spec fn delivers(
        &self,
        event: E,
        after: &Self,
        result: ReceiverResult<E, R::Output>,
    ) -> bool {
        exists|out: Option<E>|
            {
                &&& #[trigger] candidate(out)
                &&& passes(self.intercept, event, after.intercept, out)
                &&& match out {
                    Some(passed) => self.receiver.delivers(passed, &after.receiver, result),
                    None => result is Stop && after.receiver == self.receiver,
                }
            }
    }

    fn send(&mut self, event: E) -> (result: ReceiverResult<E, R::Output>) {
        let out = pass(&mut self.intercept, event);
        assert(candidate(out));
        match out {
            Some(passed) => self.receiver.send(passed),
            None => ReceiverResult::Stop,
        }
    }
}

impl<E, R: Receive<E>> Route<E> for Router<E, R> {
    open spec fn chain(&self) -> Chain<E> {
        self.intercept
    }

    fn intercept(&mut self, intercept: Box<Intercept<E>>)
        ensures
            final(self).receiver == old(self).receiver,
    {
        attach(&mut self.intercept, intercept)
    }

    fn take_intercept(&mut self) -> (taken: Chain<E>)
        ensures
            final(self).receiver == old(self).receiver,
    {
        self.intercept.take()
    }

    fn intercept_at_root(&mut self, intercept: Box<Intercept<E>>)
        ensures
            final(self).receiver == old(self).receiver,
    {
        let old_intercept = self.take_intercept();
        match old_intercept {
            Some(rest) => {
                self.intercept(intercept);
                self.intercept(rest);
            },
            None => {
                proof {
                    lemma_joined_nothing(Some(intercept));
                }
                self.intercept(intercept)
            },
        }
    }
}

impl<E> Route<E> for Link<Box<dyn Relay<E>>> {
    open spec fn chain(&self) -> Chain<E> {
        self.intercept
    }

    fn intercept(&mut self, intercept: Box<Intercept<E>>)
        ensures
            final(self).receiver == old(self).receiver,
    {
        attach(&mut self.intercept, intercept)
    }

    fn take_intercept(&mut self) -> (taken: Chain<E>)
        ensures
            final(self).receiver == old(self).receiver,
    {
        self.intercept.take()
    }

    fn intercept_at_root(&mut self, intercept: Box<Intercept<E>>)
        ensures
            final(self).receiver == old(self).receiver,
    {
        let old_intercept = self.take_intercept();
        match old_intercept {
            Some(rest) => {
                self.intercept(intercept);
                self.intercept(rest);
            },
            None => {
                proof {
                    lemma_joined_nothing(Some(intercept));
                }
                self.intercept(intercept)
            },
        }
    }
}

impl<E, R: Receive<E> + Default> Default for Router<E, R> {
    fn default() -> (router: Self)
        ensures
            router.intercept is None,
            R::default.ensures((), router.receiver),
    {
        Router::new(R::default())
    }
}

} // verus!
