//! The chain of interceptors that a router keeps before its receiver.
//!
//! A chain is a singly linked list.  Each link owns a receiver and the chain
//! behind it.  An event goes to the far end of the chain first and comes back
//! link by link: the link that was attached last sees it first, the link next
//! to the router sees it last.

use vstd::prelude::*;
use crate::receive::{candidate, Receive, ReceiverResult};

verus! {

/// A run of deliveries to one receiver: the events, one after the other, each
/// with the answer it drew.
pub type Exchanges<E> = Seq<(E, ReceiverResult<E, E>)>;

/// A receiver that answers with an event of the type it was sent, seen without
/// its own type.  Every `Receive<E, Output = E>` is one.
///
/// What a relay has become after an event cannot be said in terms of its type.
/// It is said in terms of what the relay may do from then on.
pub trait Relay<E> {
    /// Whether `self` may live through `exchanges`: sent the events in their
    /// order, it may give the answers that stand beside them.
    spec fn admits(&self, exchanges: Exchanges<E>) -> bool;

    /// Takes `event`.  The answer is one that the relay may give; and what the
    /// relay may do afterwards, it might have done after this exchange from
    /// the start.
    fn relay(&mut self, event: E) -> (answer: ReceiverResult<E, E>)
        ensures
            old(self).admits(seq![(event, answer)]),
            forall|later: Exchanges<E>| #[trigger]
                final(self).admits(later) ==> old(self).admits(seq![(event, answer)] + later),
    ;
}

impl<E, R: Receive<E, Output = E>> Relay<E> for R {
    /// Each exchange is a delivery, and leaves the receiver in a state that
    /// may live through the rest.
    open spec fn admits(&self, exchanges: Exchanges<E>) -> bool
        decreases exchanges.len(),
    {
        if exchanges.len() == 0 {
            true
        } else {
            exists|after: R| #[trigger]
                self.delivers(exchanges[0].0, &after, exchanges[0].1) && after.admits(
                    exchanges.skip(1),
                )
        }
    }

    fn relay(&mut self, event: E) -> (answer: ReceiverResult<E, E>) {
        let answer = self.send(event);
        proof {
            let first = seq![(event, answer)];
            assert(first.skip(1) =~= Seq::<(E, ReceiverResult<E, E>)>::empty());
            assert(self.admits(first.skip(1)));
            assert forall|later: Exchanges<E>| #[trigger] self.admits(later) implies old(
                self,
            ).admits(first + later) by {
                assert((first + later).skip(1) =~= later);
                assert((first + later)[0] == (event, answer));
                assert(old(self).delivers((first + later)[0].0, &*self, (first + later)[0].1));
            }
        }
        answer
    }
}

/// A boxed relay is a receiver again.  It may become whatever is no freer than
/// it was after the exchange.
impl<E> Receive<E> for Box<dyn Relay<E>> {
    type Output = E;

    open spec fn delivers(&self, event: E, after: &Self, result: ReceiverResult<E, E>) -> bool {
        &&& (**self).admits(seq![(event, result)])
        &&& forall|later: Exchanges<E>| #[trigger]
            (**after).admits(later) ==> (**self).admits(seq![(event, result)] + later)
    }

    fn send(&mut self, event: E) -> (result: ReceiverResult<E, E>) {
        (**self).relay(event)
    }
}

/// One link of a chain: a receiver, and the chain behind it.
pub struct Link<P> {
    pub receiver: P,
    pub intercept: Option<Box<Link<P>>>,
}

/// A link whose receiver is any [`Relay`], boxed.
pub type Intercept<E> = Link<Box<dyn Relay<E>>>;

/// A chain of interceptors; `None` is the empty chain.
pub type Chain<E> = Option<Box<Intercept<E>>>;

/// The receivers of `chain`, the nearest first.
pub open spec fn links<P>(chain: Option<Box<Link<P>>>) -> Seq<P>
    decreases chain,
{
    match chain {
        None => Seq::empty(),
        Some(head) => seq![head.receiver] + links(head.intercept),
    }
}

/// The chain made of the links of `chain` and, behind them, those of `more`.
pub open spec fn joined<P>(chain: Option<Box<Link<P>>>, more: Option<Box<Link<P>>>) -> Option<
    Box<Link<P>>,
>
    decreases chain,
{
    match chain {
        None => more,
        Some(head) => Some(
            Box::new(Link { receiver: head.receiver, intercept: joined(head.intercept, more) }),
        ),
    }
}

/// Whether passing `event` through `chain` may leave the chain as `left` and
/// let `out` through: `Some` of the event that goes on to the receiver behind
/// the chain, `None` where a link stopped the delivery.
///
/// The head of the chain is asked.  If it answers `Delete` it is cut out, and
/// the chain that hung behind it takes its place.
pub open spec fn passes<E, P: Receive<E, Output = E>>(
    chain: Option<Box<Link<P>>>,
    event: E,
    left: Option<Box<Link<P>>>,
    out: Option<E>,
) -> bool
    decreases chain, 0nat,
{
    match chain {
        None => left is None && out == Some(event),
        Some(head) => exists|head_after: Link<P>, answer: ReceiverResult<E, E>|
            {
                &&& #[trigger] candidate((head_after, answer))
                &&& relayed(*head, event, head_after, answer)
                &&& match answer {
                    ReceiverResult::Continue(passed) => {
                        left == Some(Box::new(head_after)) && out == Some(passed)
                    },
                    ReceiverResult::Stop => left == Some(Box::new(head_after)) && out is None,
                    ReceiverResult::Delete(returned) => {
                        left == head_after.intercept && out == Some(returned)
                    },
                }
            },
    }
}

/// Whether sending `event` to `link` may leave the link as `after` and be
/// answered with `answer`.
///
/// The event first passes the chain behind the link.  What comes out goes to
/// the link's own receiver, whose answer is the link's.  Where the chain let
/// nothing out, the receiver is not asked and the answer is `Stop`.
pub open spec fn relayed<E, P: Receive<E, Output = E>>(
    link: Link<P>,
    event: E,
    after: Link<P>,
    answer: ReceiverResult<E, E>,
) -> bool
    decreases link, 1nat,
{
    exists|out: Option<E>|
        {
            &&& #[trigger] candidate(out)
            &&& passes(link.intercept, event, after.intercept, out)
            &&& match out {
                Some(passed) => link.receiver.delivers(passed, &after.receiver, answer),
                None => answer is Stop && after.receiver == link.receiver,
            }
        }
}

/// Whether the link of `chain` at `at`, counted from the nearest, does as
/// `receiver` does: it is `receiver`, seen without its type.
pub open spec fn carries<E, I: Receive<E, Output = E>>(chain: Chain<E>, at: int, receiver: I) -> bool {
    forall|exchanges: Exchanges<E>|
        #![trigger (*links(chain)[at]).admits(exchanges)]
        #![trigger receiver.admits(exchanges)]
        (*links(chain)[at]).admits(exchanges) == receiver.admits(exchanges)
}

/// Attaches `link`, and what hangs behind it, at the far end of `chain`.
pub fn attach<P>(chain: &mut Option<Box<Link<P>>>, link: Box<Link<P>>)
    ensures
        *final(chain) == joined(*old(chain), Some(link)),
    decreases *old(chain),
{
    match chain {
        Some(head) => attach(&mut head.intercept, link),
        None => {
            *chain = Some(link);
        },
    }
}

/// Cuts the head out of `chain` and returns it alone; what hung behind it takes
/// its place.
pub fn cut_head<P>(chain: &mut Option<Box<Link<P>>>) -> (head: Option<Box<Link<P>>>)
    ensures
        match *old(chain) {
            None => head is None && *final(chain) is None,
            Some(first) => {
                &&& *final(chain) == first.intercept
                &&& head == Some(Box::new(Link { receiver: first.receiver, intercept: None }))
            },
        },
{
    let mut head = chain.take();
    match &mut head {
        Some(first) => {
            *chain = first.intercept.take();
        },
        None => {},
    }
    head
}

/// Passes `event` through `chain`.
pub fn pass<E, P: Receive<E, Output = E>>(chain: &mut Option<Box<Link<P>>>, event: E) -> (out: Option<
    E,
>)
    ensures
        passes(*old(chain), event, *final(chain), out),
    decreases *old(chain), 0nat,
{
    match chain {
        Some(head) => {
            let answer = head.relay_on(event);
            let ghost head_after = **head;
            assert(candidate((head_after, answer)));
            match answer {
                ReceiverResult::Continue(passed) => Some(passed),
                ReceiverResult::Stop => None,
                ReceiverResult::Delete(returned) => {
                    cut_head(chain);
                    Some(returned)
                },
            }
        },
        None => Some(event),
    }
}

/// Boxes `receiver` as a link with nothing behind it.
pub fn link_from<E: 'static, I: Receive<E, Output = E> + 'static>(receiver: I) -> (link: Box<
    Intercept<E>,
>)
    ensures
        link.intercept is None,
        carries(Some(link), 0, receiver),
{
    link_before(receiver, None)
}

/// Boxes `receiver` as a link with `chain` behind it.
pub fn link_before<E: 'static, I: Receive<E, Output = E> + 'static>(
    receiver: I,
    chain: Chain<E>,
) -> (link: Box<Intercept<E>>)
    ensures
        link.intercept == chain,
        carries(Some(link), 0, receiver),
{
    let boxed: Box<dyn Relay<E>> = Box::new(receiver);
    let link = Box::new(Link { receiver: boxed, intercept: chain });
    assert(links(Some(link))[0] == link.receiver);
    link
}

impl<P> Link<P> {
    /// A link around `receiver` with nothing behind it.
    pub fn new(receiver: P) -> (link: Self)
        ensures
            link == (Link { receiver, intercept: None }),
    {
        Link { receiver, intercept: None }
    }

    /// Sends `event` to this link: through the chain behind it, then to its own
    /// receiver.
    pub fn relay_on<E>(&mut self, event: E) -> (answer: ReceiverResult<E, E>) where
        P: Receive<E, Output = E>,
        ensures
            relayed(*old(self), event, *final(self), answer),
        decreases *old(self), 1nat,
    {
        let out = pass(&mut self.intercept, event);
        assert(candidate(out));
        match out {
            Some(passed) => self.receiver.send(passed),
            None => ReceiverResult::Stop,
        }
    }
}

impl<E, P: Receive<E, Output = E>> Receive<E> for Link<P> {
    type Output = E;

    open spec fn delivers(&self, event: E, after: &Self, result: ReceiverResult<E, E>) -> bool {
        relayed(*self, event, *after, result)
    }

    fn send(&mut self, event: E) -> (result: ReceiverResult<E, E>) {
        self.relay_on(event)
    }
}

/// The receivers of a joined chain are those of its first part, then those of
/// its second.
pub proof fn lemma_links_joined<P>(chain: Option<Box<Link<P>>>, more: Option<Box<Link<P>>>)
    ensures
        links(joined(chain, more)) == links(chain) + links(more),
    decreases chain,
{
    match chain {
        None => {
            assert(links(more) =~= Seq::<P>::empty() + links(more));
        },
        Some(head) => {
            lemma_links_joined(head.intercept, more);
            assert(links(joined(chain, more)) =~= links(chain) + links(more));
        },
    }
}

/// Joining nothing to a chain leaves the chain.
pub proof fn lemma_joined_nothing<P>(chain: Option<Box<Link<P>>>)
    ensures
        joined(chain, None) == chain,
    decreases chain,
{
    match chain {
        None => {},
        Some(head) => {
            lemma_joined_nothing(head.intercept);
        },
    }
}

/// A chain holds one link more than the chain behind its head.
pub proof fn lemma_links_len<P>(chain: Option<Box<Link<P>>>)
    ensures
        match chain {
            None => links(chain).len() == 0,
            Some(head) => links(chain).len() == links(head.intercept).len() + 1,
        },
{
}

/// A link with nothing behind it is a chain of one receiver.
pub proof fn lemma_links_alone<P>(link: Box<Link<P>>)
    requires
        link.intercept is None,
    ensures
        links(Some(link)) == seq![link.receiver],
{
    assert(links(link.intercept) =~= Seq::<P>::empty());
    assert(links(Some(link)) =~= seq![link.receiver]);
}

/// Attaching one link to a chain adds its receiver after the others.
pub proof fn lemma_links_attached<P>(chain: Option<Box<Link<P>>>, link: Box<Link<P>>)
    requires
        link.intercept is None,
    ensures
        links(joined(chain, Some(link))) == links(chain).push(link.receiver),
        links(joined(chain, Some(link))).len() == links(chain).len() + 1,
        links(joined(chain, Some(link))).drop_last() == links(chain),
        links(joined(chain, Some(link))).last() == link.receiver,
{
    lemma_links_alone(link);
    lemma_links_joined(chain, Some(link));
    let before = links(chain);
    assert(before + seq![link.receiver] =~= before.push(link.receiver));
    assert(before.push(link.receiver).drop_last() =~= before);
}

/// Putting one link before a chain adds its receiver before the others.
pub proof fn lemma_links_put_first<P>(link: Box<Link<P>>, chain: Option<Box<Link<P>>>)
    requires
        link.intercept is None,
    ensures
        links(joined(Some(link), chain)) == seq![link.receiver] + links(chain),
        links(joined(Some(link), chain)).len() == links(chain).len() + 1,
        links(joined(Some(link), chain)).drop_first() == links(chain),
        links(joined(Some(link), chain)).first() == link.receiver,
{
    lemma_links_alone(link);
    lemma_links_joined(Some(link), chain);
    let before = links(chain);
    assert((seq![link.receiver] + before).drop_first() =~= before);
}

} // verus!
