//! What holds of every chain, every router and every exposure.
//!
//! The contracts of the single functions say what one call does.  The proofs
//! here put them together.

use vstd::prelude::*;
use crate::exposed::{asked_out, observed, Exposed, Viewer};
use crate::intercept::{
    joined, lemma_links_attached, lemma_links_len, lemma_links_put_first, links, passes, relayed,
    Intercept, Link,
};
use crate::receive::{candidate, Receive, ReceiverResult};
use crate::router::Router;
use crate::view::DeleteView;
use crate::view::View as _;
use crate::viewers::{ids_of, lemma_ids_has, lemma_without_under, under, without};

verus! {

/// A link whose receiver is gone: whatever the receiver is sent, it hands back
/// in `Delete`.
pub open spec fn gone<E, P: Receive<E, Output = E>>(link: Link<P>) -> bool {
    forall|event: E, after: P, answer: ReceiverResult<E, E>| #[trigger]
        link.receiver.delivers(event, &after, answer) ==> answer == ReceiverResult::<
            E,
            E,
        >::Delete(event)
}

/// A link whose receiver stops whatever it is sent.
pub open spec fn stops<E, P: Receive<E, Output = E>>(link: Link<P>) -> bool {
    forall|event: E, after: P, answer: ReceiverResult<E, E>| #[trigger]
        link.receiver.delivers(event, &after, answer) ==> answer is Stop
}

/// A receiver that is gone: whatever it is sent, it hands back in `Delete`.
pub open spec fn vanished<E, R: Receive<E>>(receiver: R) -> bool {
    forall|event: E, after: R, result: ReceiverResult<E, R::Output>| #[trigger]
        receiver.delivers(event, &after, result) ==> result == ReceiverResult::<
            E,
            R::Output,
        >::Delete(event)
}

/// Links that are attached one after the other stand in the chain in that
/// order, behind the links that were there.
pub proof fn law_attached_in_order<P>(
    chain: Option<Box<Link<P>>>,
    first: Box<Link<P>>,
    second: Box<Link<P>>,
)
    requires
        first.intercept is None,
        second.intercept is None,
    ensures
        links(joined(joined(chain, Some(first)), Some(second))) == links(chain).push(
            first.receiver,
        ).push(second.receiver),
{
    lemma_links_attached(chain, first);
    lemma_links_attached(joined(chain, Some(first)), second);
}

/// A link that is put at the root stands before every link that was there, and
/// leaves their order as it was.
pub proof fn law_root_stands_first<P>(chain: Option<Box<Link<P>>>, link: Box<Link<P>>)
    requires
        link.intercept is None,
    ensures
        links(joined(Some(link), chain)).first() == link.receiver,
        links(joined(Some(link), chain)).drop_first() == links(chain),
{
    lemma_links_put_first(link, chain);
}

/// An event passes a chain from its far end.  Through a chain made of `front`
/// and, behind it, `back`, the event goes through `back` first; what `back`
/// lets out goes through `front`; and where `back` lets nothing out, `front`
/// is left as it was.
pub proof fn law_far_end_first<E, P: Receive<E, Output = E>>(
    front: Option<Box<Link<P>>>,
    back: Option<Box<Link<P>>>,
    event: E,
    left: Option<Box<Link<P>>>,
    out: Option<E>,
)
    requires
        passes(joined(front, back), event, left, out),
    ensures
        exists|back_left: Option<Box<Link<P>>>, between: Option<E>, front_left: Option<Box<Link<P>>>|
            {
                &&& #[trigger] candidate((back_left, between, front_left))
                &&& passes(back, event, back_left, between)
                &&& left == joined(front_left, back_left)
                &&& match between {
                    Some(passed) => passes(front, passed, front_left, out),
                    None => out is None && front_left == front,
                }
            },
    decreases front,
{
    match front {
        None => {
            assert(candidate((left, out, None::<Box<Link<P>>>)));
        },
        Some(head) => {
            let whole = joined(front, back)->0;
            let (whole_after, answer) = choose|whole_after: Link<P>, answer: ReceiverResult<E, E>|
                {
                    &&& #[trigger] candidate((whole_after, answer))
                    &&& relayed(*whole, event, whole_after, answer)
                    &&& match answer {
                        ReceiverResult::Continue(passed) => {
                            left == Some(Box::new(whole_after)) && out == Some(passed)
                        },
                        ReceiverResult::Stop => left == Some(Box::new(whole_after)) && out is None,
                        ReceiverResult::Delete(returned) => {
                            left == whole_after.intercept && out == Some(returned)
                        },
                    }
                };
            let behind = choose|behind: Option<E>|
                {
                    &&& #[trigger] candidate(behind)
                    &&& passes(whole.intercept, event, whole_after.intercept, behind)
                    &&& match behind {
                        Some(passed) => whole.receiver.delivers(
                            passed,
                            &whole_after.receiver,
                            answer,
                        ),
                        None => answer is Stop && whole_after.receiver == whole.receiver,
                    }
                };
            law_far_end_first(head.intercept, back, event, whole_after.intercept, behind);
            let (back_left, between, rest_left) = choose|
                back_left: Option<Box<Link<P>>>,
                between: Option<E>,
                rest_left: Option<Box<Link<P>>>,
            |
                {
                    &&& #[trigger] candidate((back_left, between, rest_left))
                    &&& passes(back, event, back_left, between)
                    &&& whole_after.intercept == joined(rest_left, back_left)
                    &&& match between {
                        Some(passed) => passes(head.intercept, passed, rest_left, behind),
                        None => behind is None && rest_left == head.intercept,
                    }
                };
            let head_after = Link { receiver: whole_after.receiver, intercept: rest_left };
            match between {
                None => {
                    assert(candidate((back_left, between, front)));
                },
                Some(passed) => {
                    assert(candidate(behind));
                    assert(relayed(*head, passed, head_after, answer));
                    assert(candidate((head_after, answer)));
                    match answer {
                        ReceiverResult::Delete(returned) => {
                            assert(passes(front, passed, rest_left, out));
                            assert(candidate((back_left, between, rest_left)));
                        },
                        _ => {
                            let front_left = Some(Box::new(head_after));
                            assert(passes(front, passed, front_left, out));
                            assert(candidate((back_left, between, front_left)));
                        },
                    }
                },
            }
        },
    }
}

/// The other way round: where an event passes `back`, and what `back` lets out
/// passes `front`, the event passes the chain made of `front` and, behind it,
/// `back`.
pub proof fn law_far_end_first_suffices<E, P: Receive<E, Output = E>>(
    front: Option<Box<Link<P>>>,
    back: Option<Box<Link<P>>>,
    event: E,
    back_left: Option<Box<Link<P>>>,
    between: Option<E>,
    front_left: Option<Box<Link<P>>>,
    out: Option<E>,
)
    requires
        passes(back, event, back_left, between),
        match between {
            Some(passed) => passes(front, passed, front_left, out),
            None => out is None && front_left == front,
        },
    ensures
        passes(joined(front, back), event, joined(front_left, back_left), out),
    decreases front,
{
    match front {
        None => {},
        Some(head) => {
            let whole = joined(front, back)->0;
            match between {
                None => {
                    law_far_end_first_suffices(
                        head.intercept,
                        back,
                        event,
                        back_left,
                        between,
                        head.intercept,
                        None,
                    );
                    let whole_after = Link {
                        receiver: head.receiver,
                        intercept: joined(head.intercept, back_left),
                    };
                    assert(candidate(None::<E>));
                    assert(relayed(*whole, event, whole_after, ReceiverResult::<E, E>::Stop));
                    assert(candidate((whole_after, ReceiverResult::<E, E>::Stop)));
                },
                Some(passed) => {
                    let (head_after, answer) = choose|
                        head_after: Link<P>,
                        answer: ReceiverResult<E, E>,
                    |
                        {
                            &&& #[trigger] candidate((head_after, answer))
                            &&& relayed(*head, passed, head_after, answer)
                            &&& match answer {
                                ReceiverResult::Continue(gone_on) => {
                                    front_left == Some(Box::new(head_after)) && out == Some(gone_on)
                                },
                                ReceiverResult::Stop => {
                                    front_left == Some(Box::new(head_after)) && out is None
                                },
                                ReceiverResult::Delete(returned) => {
                                    front_left == head_after.intercept && out == Some(returned)
                                },
                            }
                        };
                    let behind = choose|behind: Option<E>|
                        {
                            &&& #[trigger] candidate(behind)
                            &&& passes(head.intercept, passed, head_after.intercept, behind)
                            &&& match behind {
                                Some(reached) => head.receiver.delivers(
                                    reached,
                                    &head_after.receiver,
                                    answer,
                                ),
                                None => answer is Stop && head_after.receiver == head.receiver,
                            }
                        };
                    law_far_end_first_suffices(
                        head.intercept,
                        back,
                        event,
                        back_left,
                        between,
                        head_after.intercept,
                        behind,
                    );
                    let whole_after = Link {
                        receiver: head_after.receiver,
                        intercept: joined(head_after.intercept, back_left),
                    };
                    assert(candidate(behind));
                    assert(relayed(*whole, event, whole_after, answer));
                    assert(candidate((whole_after, answer)));
                },
            }
        },
    }
}

/// Passing a chain of one link is asking that link's receiver, once.  The link
/// stays, with its receiver as it has become, unless the receiver answered
/// `Delete`.
pub proof fn law_one_link<E, P: Receive<E, Output = E>>(
    link: Box<Link<P>>,
    event: E,
    left: Option<Box<Link<P>>>,
    out: Option<E>,
)
    requires
        link.intercept is None,
        passes(Some(link), event, left, out),
    ensures
        exists|after: P, answer: ReceiverResult<E, E>|
            {
                &&& #[trigger] candidate((after, answer))
                &&& link.receiver.delivers(event, &after, answer)
                &&& match answer {
                    ReceiverResult::Continue(passed) => {
                        &&& out == Some(passed)
                        &&& left == Some(Box::new(Link { receiver: after, intercept: None }))
                    },
                    ReceiverResult::Stop => {
                        &&& out is None
                        &&& left == Some(Box::new(Link { receiver: after, intercept: None }))
                    },
                    ReceiverResult::Delete(returned) => out == Some(returned) && left is None,
                }
            },
{
    let (link_after, answer) = choose|link_after: Link<P>, answer: ReceiverResult<E, E>|
        {
            &&& #[trigger] candidate((link_after, answer))
            &&& relayed(*link, event, link_after, answer)
            &&& match answer {
                ReceiverResult::Continue(passed) => {
                    left == Some(Box::new(link_after)) && out == Some(passed)
                },
                ReceiverResult::Stop => left == Some(Box::new(link_after)) && out is None,
                ReceiverResult::Delete(returned) => {
                    left == link_after.intercept && out == Some(returned)
                },
            }
        };
    let behind = choose|behind: Option<E>|
        {
            &&& #[trigger] candidate(behind)
            &&& passes(link.intercept, event, link_after.intercept, behind)
            &&& match behind {
                Some(reached) => link.receiver.delivers(reached, &link_after.receiver, answer),
                None => answer is Stop && link_after.receiver == link.receiver,
            }
        };
    assert(candidate((link_after.receiver, answer)));
}

/// A delivery adds no link to a chain: what is left holds at most as many links
/// as there were.
pub proof fn law_delivery_adds_no_link<E, P: Receive<E, Output = E>>(
    chain: Option<Box<Link<P>>>,
    event: E,
    left: Option<Box<Link<P>>>,
    out: Option<E>,
)
    requires
        passes(chain, event, left, out),
    ensures
        links(left).len() <= links(chain).len(),
    decreases chain,
{
    match chain {
        None => {},
        Some(head) => {
            let (head_after, answer) = choose|head_after: Link<P>, answer: ReceiverResult<E, E>|
                {
                    &&& #[trigger] candidate((head_after, answer))
                    &&& relayed(*head, event, head_after, answer)
                    &&& match answer {
                        ReceiverResult::Continue(passed) => {
                            left == Some(Box::new(head_after)) && out == Some(passed)
                        },
                        ReceiverResult::Stop => left == Some(Box::new(head_after)) && out is None,
                        ReceiverResult::Delete(returned) => {
                            left == head_after.intercept && out == Some(returned)
                        },
                    }
                };
            let behind = choose|behind: Option<E>|
                {
                    &&& #[trigger] candidate(behind)
                    &&& passes(head.intercept, event, head_after.intercept, behind)
                    &&& match behind {
                        Some(reached) => head.receiver.delivers(
                            reached,
                            &head_after.receiver,
                            answer,
                        ),
                        None => answer is Stop && head_after.receiver == head.receiver,
                    }
                };
            law_delivery_adds_no_link(head.intercept, event, head_after.intercept, behind);
            lemma_links_len(chain);
            lemma_links_len(Some(Box::new(head_after)));
        },
    }
}

/// A link whose receiver is gone is cut out by the delivery that finds it so,
/// and the event goes on as if the link had not been there: whatever the chain
/// lets out, the chain behind the link lets out, and it is left in the same
/// state.
pub proof fn law_gone_link_is_cut<E, P: Receive<E, Output = E>>(
    head: Box<Link<P>>,
    event: E,
    left: Option<Box<Link<P>>>,
    out: Option<E>,
)
    requires
        gone(*head),
        passes(Some(head), event, left, out),
        out is Some,
    ensures
        passes(head.intercept, event, left, out),
        links(left).len() < links(Some(head)).len(),
{
    let (head_after, answer) = choose|head_after: Link<P>, answer: ReceiverResult<E, E>|
        {
            &&& #[trigger] candidate((head_after, answer))
            &&& relayed(*head, event, head_after, answer)
            &&& match answer {
                ReceiverResult::Continue(passed) => {
                    left == Some(Box::new(head_after)) && out == Some(passed)
                },
                ReceiverResult::Stop => left == Some(Box::new(head_after)) && out is None,
                ReceiverResult::Delete(returned) => {
                    left == head_after.intercept && out == Some(returned)
                },
            }
        };
    let behind = choose|behind: Option<E>|
        {
            &&& #[trigger] candidate(behind)
            &&& passes(head.intercept, event, head_after.intercept, behind)
            &&& match behind {
                Some(passed) => head.receiver.delivers(passed, &head_after.receiver, answer),
                None => answer is Stop && head_after.receiver == head.receiver,
            }
        };
    law_delivery_adds_no_link(head.intercept, event, left, out);
    lemma_links_len(Some(head));
}

/// A router whose first link is gone delivers as the router without that link
/// does, unless a link behind it stops the event.  After the delivery the link
/// is no longer in the chain.
pub proof fn law_gone_link_as_if_absent<E, R: Receive<E>>(
    router: Router<E, R>,
    event: E,
    after: Router<E, R>,
    result: ReceiverResult<E, R::Output>,
)
    requires
        router.intercept is Some,
        gone(*router.intercept->0),
        router.delivers(event, &after, result),
    ensures
        result is Stop && after.receiver == router.receiver || {
            &&& (Router {
                intercept: router.intercept->0.intercept,
                receiver: router.receiver,
            }).delivers(event, &after, result)
            &&& links(after.intercept).len() < links(router.intercept).len()
        },
{
    let out = choose|out: Option<E>|
        {
            &&& #[trigger] candidate(out)
            &&& passes(router.intercept, event, after.intercept, out)
            &&& match out {
                Some(passed) => router.receiver.delivers(passed, &after.receiver, result),
                None => result is Stop && after.receiver == router.receiver,
            }
        };
    if out is Some {
        law_gone_link_is_cut(router.intercept->0, event, after.intercept, out);
        let without_link = Router {
            intercept: router.intercept->0.intercept,
            receiver: router.receiver,
        };
        assert(candidate(out));
        assert(without_link.delivers(event, &after, result));
    }
}

/// A router with an empty chain whose receiver is gone hands the event back as
/// it came.
pub proof fn law_gone_receiver_hands_back<E, R: Receive<E>>(
    router: Router<E, R>,
    event: E,
    after: Router<E, R>,
    result: ReceiverResult<E, R::Output>,
)
    requires
        router.intercept is None,
        vanished(router.receiver),
        router.delivers(event, &after, result),
    ensures
        result == ReceiverResult::<E, R::Output>::Delete(event),
        after.intercept is None,
{
    let out = choose|out: Option<E>|
        {
            &&& #[trigger] candidate(out)
            &&& passes(router.intercept, event, after.intercept, out)
            &&& match out {
                Some(passed) => router.receiver.delivers(passed, &after.receiver, result),
                None => result is Stop && after.receiver == router.receiver,
            }
        };
}

/// Where the first link stops every event, the delivery ends there: the answer
/// is `Stop` and the receiver is left as it was.
pub proof fn law_stop_short_circuits<E, R: Receive<E>>(
    router: Router<E, R>,
    event: E,
    after: Router<E, R>,
    result: ReceiverResult<E, R::Output>,
)
    requires
        router.intercept is Some,
        stops(*router.intercept->0),
        router.delivers(event, &after, result),
    ensures
        result is Stop,
        after.receiver == router.receiver,
{
    let out = choose|out: Option<E>|
        {
            &&& #[trigger] candidate(out)
            &&& passes(router.intercept, event, after.intercept, out)
            &&& match out {
                Some(passed) => router.receiver.delivers(passed, &after.receiver, result),
                None => result is Stop && after.receiver == router.receiver,
            }
        };
    let head = router.intercept->0;
    let (head_after, answer) = choose|head_after: Intercept<E>, answer: ReceiverResult<E, E>|
        {
            &&& #[trigger] candidate((head_after, answer))
            &&& relayed(*head, event, head_after, answer)
            &&& match answer {
                ReceiverResult::Continue(passed) => {
                    after.intercept == Some(Box::new(head_after)) && out == Some(passed)
                },
                ReceiverResult::Stop => after.intercept == Some(Box::new(head_after)) && out is None,
                ReceiverResult::Delete(returned) => {
                    after.intercept == head_after.intercept && out == Some(returned)
                },
            }
        };
    let behind = choose|behind: Option<E>|
        {
            &&& #[trigger] candidate(behind)
            &&& passes(head.intercept, event, head_after.intercept, behind)
            &&& match behind {
                Some(passed) => head.receiver.delivers(passed, &head_after.receiver, answer),
                None => answer is Stop && head_after.receiver == head.receiver,
            }
        };
}

/// A link behind which the delivery stopped is not asked: it answers `Stop`
/// and its receiver is left as it was.
pub proof fn law_stop_reaches_no_link_before<E, P: Receive<E, Output = E>>(
    link: Link<P>,
    event: E,
    after: Link<P>,
    answer: ReceiverResult<E, E>,
)
    requires
        link.intercept is Some,
        stops(*link.intercept->0),
        relayed(link, event, after, answer),
    ensures
        answer is Stop,
        after.receiver == link.receiver,
{
    let out = choose|out: Option<E>|
        {
            &&& #[trigger] candidate(out)
            &&& passes(link.intercept, event, after.intercept, out)
            &&& match out {
                Some(passed) => link.receiver.delivers(passed, &after.receiver, answer),
                None => answer is Stop && after.receiver == link.receiver,
            }
        };
    let head = link.intercept->0;
    let (head_after, below) = choose|head_after: Link<P>, below: ReceiverResult<E, E>|
        {
            &&& #[trigger] candidate((head_after, below))
            &&& relayed(*head, event, head_after, below)
            &&& match below {
                ReceiverResult::Continue(passed) => {
                    after.intercept == Some(Box::new(head_after)) && out == Some(passed)
                },
                ReceiverResult::Stop => after.intercept == Some(Box::new(head_after)) && out is None,
                ReceiverResult::Delete(returned) => {
                    after.intercept == head_after.intercept && out == Some(returned)
                },
            }
        };
    let behind = choose|behind: Option<E>|
        {
            &&& #[trigger] candidate(behind)
            &&& passes(head.intercept, event, head_after.intercept, behind)
            &&& match behind {
                Some(passed) => head.receiver.delivers(passed, &head_after.receiver, below),
                None => below is Stop && head_after.receiver == head.receiver,
            }
        };
}

/// The viewers only watch.  The receiver of an exposure is sent the event as
/// it came, whatever viewers there are, and its answer is the exposure's; and
/// every viewer has been shown that same event.
pub proof fn law_viewers_only_watch<E, R: Receive<E>>(
    exposed: Exposed<E, R>,
    event: E,
    after: Exposed<E, R>,
    result: ReceiverResult<E, R::Output>,
)
    requires
        exposed.wf(),
        exposed.delivers(event, &after, result),
    ensures
        exposed.receiver.delivers(event, &after.receiver, result),
        exists|verdicts: Seq<Option<DeleteView>>|
            {
                &&& #[trigger] candidate(verdicts)
                &&& verdicts.len() == exposed.viewers.entries().len()
                &&& forall|k: int|
                    0 <= k < verdicts.len() ==> (*exposed.viewers.entries()[k].1).admits(
                        seq![(event, #[trigger] verdicts[k])],
                    )
            },
{
    let before = exposed.viewers.entries();
    let (shown, verdicts) = choose|
        shown: Seq<(usize, Viewer<E>)>,
        verdicts: Seq<Option<DeleteView>>,
    |
        {
            &&& #[trigger] candidate((shown, verdicts))
            &&& shown.len() == before.len()
            &&& verdicts.len() == before.len()
            &&& forall|k: int|
                0 <= k < before.len() ==> {
                    &&& (#[trigger] shown[k]).0 == before[k].0
                    &&& before[k].1.shows(&event, &shown[k].1, verdicts[k])
                }
            &&& after.viewers.entries() == without(shown, asked_out(shown, verdicts))
        };
    assert(candidate(verdicts));
    assert forall|k: int| 0 <= k < verdicts.len() implies (*before[k].1).admits(
        seq![(event, #[trigger] verdicts[k])],
    ) by {
        assert(shown[k].0 == before[k].0);
    }
}

/// A viewer that asks for its removal is taken out after the pass, not during
/// it.  Every viewer that stood there is shown the event.  One that can only
/// ask for its removal is gone afterwards; one that never asks stays, under
/// its id.
pub proof fn law_removal_after_the_pass<E, V: crate::view::View<E>>(
    before: Seq<(usize, V)>,
    event: &E,
    after: Seq<(usize, V)>,
    k: int,
)
    requires
        ids_of(before).no_duplicates(),
        observed(before, event, after),
        0 <= k < before.len(),
    ensures
        exists|seen: V, verdict: Option<DeleteView>| #[trigger]
            before[k].1.shows(event, &seen, verdict),
        (forall|seen: V, verdict: Option<DeleteView>| #[trigger]
            before[k].1.shows(event, &seen, verdict) ==> verdict is Some) ==> !under(
            after,
            before[k].0,
        ),
        (forall|seen: V, verdict: Option<DeleteView>| #[trigger]
            before[k].1.shows(event, &seen, verdict) ==> verdict is None) ==> under(
            after,
            before[k].0,
        ),
        forall|id: usize| under(after, id) ==> under(before, id),
{
    let (shown, verdicts) = choose|shown: Seq<(usize, V)>, verdicts: Seq<Option<DeleteView>>|
        {
            &&& #[trigger] candidate((shown, verdicts))
            &&& shown.len() == before.len()
            &&& verdicts.len() == before.len()
            &&& forall|k: int|
                0 <= k < before.len() ==> {
                    &&& (#[trigger] shown[k]).0 == before[k].0
                    &&& before[k].1.shows(event, &shown[k].1, verdicts[k])
                }
            &&& after == without(shown, asked_out(shown, verdicts))
        };
    assert forall|id: usize| under(after, id) implies under(before, id) by {
        lemma_without_under(shown, asked_out(shown, verdicts), id);
        let at = choose|at: int| 0 <= at < shown.len() && (#[trigger] shown[at]).0 == id;
        assert(before[at].0 == id);
    }
    let id = before[k].0;
    assert(shown[k].0 == id);
    assert(before[k].1.shows(event, &shown[k].1, verdicts[k]));
    lemma_without_under(shown, asked_out(shown, verdicts), id);
    assert(under(shown, id));
    if verdicts[k] is Some {
        assert(asked_out(shown, verdicts).contains(id));
    } else {
        if asked_out(shown, verdicts).contains(id) {
            let j = choose|j: int|
                0 <= j < shown.len() && j < verdicts.len() && #[trigger] shown[j].0 == id
                    && verdicts[j] is Some;
            assert(shown[j].0 == before[j].0);
            lemma_ids_has(before, id);
            assert(ids_of(before)[j] == id);
            assert(ids_of(before)[k] == id);
            assert(j == k);
        }
    }
}

} // verus!
