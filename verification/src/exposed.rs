//! The exposure: a receiver whose events are shown to viewers first.

use vstd::prelude::*;
use crate::receive::{candidate, Receive, ReceiverResult};
use crate::view::View as _;
use crate::view::{DeleteView, Showings, Watch};
use crate::viewers::{
    ids_of, lemma_without_strangers, lemma_without_twice, without, Viewers, ViewersFull,
};

verus! {

/// One viewer, boxed.
pub type Viewer<E> = Box<dyn Watch<E>>;

/// One receiver, and the viewers that are shown every event before the
/// receiver gets it.
#[verifier::reject_recursive_types(E)]
pub struct Exposed<E, R: Receive<E>> {
    pub viewers: Viewers<Viewer<E>>,
    pub receiver: R,
}

/// Whether the viewer among `entries` at `at`, counted in the order of arrival,
/// does as `viewer` does: it is `viewer`, seen without its type.
pub open spec fn shows_as<E, W: crate::view::View<E>>(
    entries: Seq<(usize, Viewer<E>)>,
    at: int,
    viewer: W,
) -> bool {
    forall|showings: Showings<E>|
        #![trigger (*entries[at].1).admits(showings)]
        #![trigger viewer.admits(showings)]
        (*entries[at].1).admits(showings) == viewer.admits(showings)
}

/// The ids of those among `entries` whose verdict asks for removal.
pub open spec fn asked_out<V>(entries: Seq<(usize, V)>, verdicts: Seq<Option<DeleteView>>) -> Set<
    usize,
> {
    Set::new(
        |id: usize|
            exists|k: int|
                0 <= k < entries.len() && k < verdicts.len() && #[trigger] entries[k].0 == id
                    && verdicts[k] is Some,
    )
}

/// Whether showing `event` to the viewers `before`, each in its turn, may
/// leave the viewers `after`.
///
/// Every viewer is shown the event and gives its verdict.  Each stays under
/// its id, as it has become: these are the viewers `shown`.  When all have
/// seen the event, those that asked for it are taken out.
pub open spec fn observed<E, V: crate::view::View<E>>(
    before: Seq<(usize, V)>,
    event: &E,
    after: Seq<(usize, V)>,
) -> bool {
    exists|shown: Seq<(usize, V)>, verdicts: Seq<Option<DeleteView>>|
        {
            &&& #[trigger] candidate((shown, verdicts))
            &&& shown.len() == before.len()
            &&& verdicts.len() == before.len()
            &&& forall|k: int|
                0 <= k < before.len() ==> {
                    &&& (#[trigger] shown[k]).0 == before[k].0
                    &&& before[k].1.shows(event, &shown[k].1, verdicts[k])
                }
            &&& after == without(shown, asked_out(shown, verdicts))
        }
}

impl<E, R: Receive<E>> Exposed<E, R> {
    /// Whether the collection of viewers is in order; see [`Viewers::wf`].
    pub open spec fn wf(&self) -> bool {
        self.viewers.wf()
    }

    /// An exposure of `receiver` with no viewer.
    pub fn new(receiver: R) -> (exposed: Self)
        ensures
            exposed.wf(),
            exposed.viewers.entries() == Seq::<(usize, Viewer<E>)>::empty(),
            exposed.viewers.next_id() == Some(0usize),
            exposed.receiver == receiver,
    {
        Exposed { viewers: Viewers::new(), receiver }
    }

    /// An exposure of `receiver` to `viewers`.
    pub fn with_viewers(viewers: Viewers<Viewer<E>>, receiver: R) -> (exposed: Self)
        ensures
            exposed.viewers == viewers,
            exposed.receiver == receiver,
    {
        Exposed { viewers, receiver }
    }

    pub fn get_receiver(&self) -> (receiver: &R)
        ensures
            *receiver == self.receiver,
    {
        &self.receiver
    }

    pub fn get_receiver_mut(&mut self) -> (receiver: &mut R)
        ensures
            *receiver == old(self).receiver,
            final(self).receiver == *final(receiver),
            final(self).viewers == old(self).viewers,
    {
        &mut self.receiver
    }

    pub fn get_viewers(&self) -> (viewers: &Viewers<Viewer<E>>)
        ensures
            *viewers == self.viewers,
    {
        &self.viewers
    }

    /// Adds `other` behind the viewers that are there, under the id that is
    /// next to be given, and returns the id.  `Err` exactly when no id is
    /// left; `other` is dropped then.
    pub fn add_viewer(&mut self, other: Viewer<E>) -> (id: Result<usize, ViewersFull>)
        ensures
            final(self).receiver == old(self).receiver,
            old(self).wf() ==> final(self).wf(),
            match old(self).viewers.next_id() {
                Some(given) => {
                    &&& id == Ok::<usize, ViewersFull>(given)
                    &&& old(self).wf() ==> !old(self).viewers.has(given)
                    &&& final(self).viewers.entries() == old(self).viewers.entries().push(
                        (given, other),
                    )
                },
                None => {
                    &&& id == Err::<usize, ViewersFull>(ViewersFull)
                    &&& final(self).viewers.entries() == old(self).viewers.entries()
                    &&& final(self).viewers.next_id() is None
                },
            },
    {
        self.viewers.push(other)
    }

    /// Boxes `other` and adds it as [`add_viewer`](Exposed::add_viewer) does:
    /// `Err` exactly when no id is left.
    pub fn box_and_add_viewer<W: crate::view::View<E> + 'static>(&mut self, other: W) -> (id: Result<
        usize,
        ViewersFull,
    >)
        ensures
            final(self).receiver == old(self).receiver,
            old(self).wf() ==> final(self).wf(),
            match old(self).viewers.next_id() {
                Some(given) => {
                    &&& id == Ok::<usize, ViewersFull>(given)
                    &&& old(self).wf() ==> !old(self).viewers.has(given)
                    &&& final(self).viewers.entries().len() == old(self).viewers.entries().len() + 1
                    &&& final(self).viewers.entries().drop_last() == old(self).viewers.entries()
                    &&& final(self).viewers.entries().last().0 == given
                    &&& shows_as(
                        final(self).viewers.entries(),
                        old(self).viewers.entries().len() as int,
                        other,
                    )
                },
                None => {
                    &&& id == Err::<usize, ViewersFull>(ViewersFull)
                    &&& final(self).viewers.entries() == old(self).viewers.entries()
                    &&& final(self).viewers.next_id() is None
                },
            },
    {
        let boxed: Viewer<E> = Box::new(other);
        let id = self.viewers.push(boxed);
        proof {
            if id is Ok {
                lemma_pushed(old(self).viewers.entries(), (id->Ok_0, boxed));
            }
        }
        id
    }

    /// Takes out the viewer under `id` and returns it; the others stay as they
    /// stand.  `None`, and no change, where no viewer stands under `id`.
    pub fn remove_viewer(&mut self, id: usize) -> (removed: Option<Viewer<E>>)
        ensures
            final(self).receiver == old(self).receiver,
            old(self).wf() ==> final(self).wf(),
            old(self).wf() ==> final(self).viewers.entries() == without(
                old(self).viewers.entries(),
                set![id],
            ),
            match removed {
                Some(viewer) => {
                    &&& exists|k: int|
                        0 <= k < old(self).viewers.entries().len() && (#[trigger] old(
                            self,
                        ).viewers.entries()[k]).0 == id && old(self).viewers.entries()[k].1
                            == viewer
                    &&& old(self).wf() ==> final(self).viewers.next_id() == Some(id)
                },
                None => {
                    &&& !old(self).viewers.has(id)
                    &&& final(self).viewers.entries() == old(self).viewers.entries()
                    &&& final(self).viewers.next_id() == old(self).viewers.next_id()
                },
            },
    {
        self.viewers.remove(id)
    }
}

/// What a sequence looks like from its end once a value has been added.
pub proof fn lemma_pushed<T>(values: Seq<T>, value: T)
    ensures
        values.push(value).len() == values.len() + 1,
        values.push(value).drop_last() == values,
        values.push(value).last() == value,
{
    assert(values.push(value).drop_last() =~= values);
}

impl<E, R: Receive<E>> Receive<E> for Exposed<E, R> {
    type Output = R::Output;

    /// The receiver is sent the event as it came, and its answer is the
    /// exposure's.  Before that the viewers have seen the event.
    open spec fn delivers(
        &self,
        event: E,
        after: &Self,
        result: ReceiverResult<E, R::Output>,
    ) -> bool {
        &&& self.receiver.delivers(event, &after.receiver, result)
        &&& self.wf() ==> after.wf() && observed(
            self.viewers.entries(),
            &event,
            after.viewers.entries(),
        )
    }

    fn send(&mut self, event: E) -> (result: ReceiverResult<E, R::Output>) {
        let ghost before = self.viewers.entries();
        let ghost in_order = self.wf();
        let ghost mut verdicts: Seq<Option<DeleteView>> = Seq::empty();
        let mut deleted: Vec<usize> = Vec::new();
        let count = self.viewers.len();
        let mut index: usize = 0;
        proof {
            assert(deleted@.to_set() =~= asked_out(before, verdicts));
        }
        while index < count
            invariant
                index <= count,
                count == before.len(),
                self.viewers.entries().len() == count,
                ids_of(self.viewers.entries()) == ids_of(before),
                in_order ==> self.wf(),
                self.receiver == old(self).receiver,
                verdicts.len() == index,
                forall|k: int|
                    0 <= k < index ==> before[k].1.shows(
                        &event,
                        &self.viewers.entries()[k].1,
                        #[trigger] verdicts[k],
                    ),
                forall|k: int| index <= k < count ==> self.viewers.entries()[k] == before[k],
                deleted@.to_set() == asked_out(before, verdicts),
            decreases count - index,
        {
            let verdict = self.viewers.show(index, &event);
            let id = self.viewers.id_at(index);
            proof {
                assert(ids_of(self.viewers.entries())[index as int] == ids_of(before)[index as int]);
                lemma_asked_out_next(before, verdicts, verdict);
                if verdict is Some {
                    deleted@.lemma_push_to_set_commute(id);
                }
                verdicts = verdicts.push(verdict);
            }
            if verdict.is_some() {
                deleted.push(id);
            }
            index += 1;
        }
        let ghost shown = self.viewers.entries();
        proof {
            assert forall|k: int| 0 <= k < before.len() implies (#[trigger] shown[k]).0
                == before[k].0 by {
                assert(ids_of(shown)[k] == ids_of(before)[k]);
            }
            lemma_asked_out_same_ids(before, shown, verdicts);
            assert(deleted@.take(0).to_set() =~= Set::<usize>::empty());
            lemma_without_strangers(shown, Set::<usize>::empty());
        }
        let mut next: usize = 0;
        while next < deleted.len()
            invariant
                next <= deleted@.len(),
                in_order ==> self.wf(),
                in_order ==> self.viewers.entries() == without(
                    shown,
                    deleted@.take(next as int).to_set(),
                ),
                self.receiver == old(self).receiver,
            decreases deleted@.len() - next,
        {
            let id = deleted[next];
            self.viewers.remove(id);
            proof {
                let done = deleted@.take(next as int);
                lemma_without_twice(shown, done.to_set(), set![id]);
                deleted@.lemma_take_succ_push(next as int);
                done.lemma_push_to_set_commute(id);
                assert(done.to_set().insert(id) =~= done.to_set() + set![id]);
            }
            next += 1;
        }
        proof {
            assert(deleted@.take(deleted@.len() as int) =~= deleted@);
            assert(candidate((shown, verdicts)));
        }
        self.receiver.send(event)
    }
}

/// One more verdict asks out one more id, or none.
pub proof fn lemma_asked_out_next<V>(
    entries: Seq<(usize, V)>,
    verdicts: Seq<Option<DeleteView>>,
    verdict: Option<DeleteView>,
)
    requires
        verdicts.len() < entries.len(),
    ensures
        asked_out(entries, verdicts.push(verdict)) == if verdict is Some {
            asked_out(entries, verdicts).insert(entries[verdicts.len() as int].0)
        } else {
            asked_out(entries, verdicts)
        },
{
    let more = verdicts.push(verdict);
    let at = verdicts.len() as int;
    let next = if verdict is Some {
        asked_out(entries, verdicts).insert(entries[at].0)
    } else {
        asked_out(entries, verdicts)
    };
    assert forall|id: usize| asked_out(entries, more).contains(id) <==> next.contains(id) by {
        if asked_out(entries, more).contains(id) {
            let k = choose|k: int|
                0 <= k < entries.len() && k < more.len() && #[trigger] entries[k].0 == id
                    && more[k] is Some;
            if k < at {
                assert(verdicts[k] is Some);
            }
        }
        if asked_out(entries, verdicts).contains(id) {
            let k = choose|k: int|
                0 <= k < entries.len() && k < verdicts.len() && #[trigger] entries[k].0 == id
                    && verdicts[k] is Some;
            assert(more[k] is Some);
        }
        if verdict is Some && entries[at].0 == id {
            assert(more[at] is Some);
        }
    }
    assert(asked_out(entries, more) =~= next);
}

/// Which ids are asked out depends on the ids of the entries alone.
pub proof fn lemma_asked_out_same_ids<V>(
    entries: Seq<(usize, V)>,
    others: Seq<(usize, V)>,
    verdicts: Seq<Option<DeleteView>>,
)
    requires
        entries.len() == others.len(),
        forall|k: int| 0 <= k < entries.len() ==> (#[trigger] others[k]).0 == entries[k].0,
    ensures
        asked_out(entries, verdicts) == asked_out(others, verdicts),
{
    assert forall|id: usize| asked_out(entries, verdicts).contains(id) <==> asked_out(
        others,
        verdicts,
    ).contains(id) by {
        if asked_out(entries, verdicts).contains(id) {
            let k = choose|k: int|
                0 <= k < entries.len() && k < verdicts.len() && #[trigger] entries[k].0 == id
                    && verdicts[k] is Some;
            assert(others[k].0 == id);
        }
        if asked_out(others, verdicts).contains(id) {
            let k = choose|k: int|
                0 <= k < others.len() && k < verdicts.len() && #[trigger] others[k].0 == id
                    && verdicts[k] is Some;
            assert(entries[k].0 == id);
        }
    }
    assert(asked_out(entries, verdicts) =~= asked_out(others, verdicts));
}

} // verus!
