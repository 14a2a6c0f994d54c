//! The collection that holds the viewers of one receiver.
//!
//! Ids come from a `ReassignableCountedMap`: it hands out the id that was given
//! back last, or else the next number, and reports when it has none left.  The
//! map walks its entries in no stated order, so the viewers themselves stand in
//! a vector, in the order in which they were added.
//!
//! Two things are said of the map, and both on trust: which ids it has out
//! ([`ids_in_use`]) and which id it gives next ([`next_id`]).  What the
//! collection does with the map's answer is [`enter`], and is proved.

use counted_map::{HashMapFull, ReassignableCountedMap};
use vstd::prelude::*;
use crate::view::DeleteView;

verus! {

/// The map that gives out the ids: a `ReassignableCountedMap<usize, ()>`.  It
/// holds an id as a key for as long as the id is out; nothing stands under the
/// keys.  Verus does not look inside.
#[verifier::external_body]
pub struct IdMap {
    map: ReassignableCountedMap<usize, ()>,
}

/// `counted_map::HashMapFull`, the map's only error.  It carries nothing.
#[verifier::external_type_specification]
#[verifier::external_body]
pub struct ExHashMapFull(HashMapFull);

/// The keys that `map` holds: the ids that it has handed out and not taken
/// back.
pub uninterp spec fn ids_in_use(map: IdMap) -> Set<usize>;

/// What `ReassignableCountedMap::push` returns for `map`: the id that the
/// map's counter gives next, or `None` where `push` answers `HashMapFull`.
/// The counter gives the id that was handed back to it last and has not been
/// given again; when it holds no such id it gives the next number, counting
/// from 0, and when that number is `usize::MAX` it gives none.
pub uninterp spec fn next_id(map: IdMap) -> Option<usize>;

/// `ReassignableCountedMap::new`: a map that holds no key, and whose counter
/// stands at 0.
#[verifier::external_body]
fn no_ids() -> (map: IdMap)
    ensures
        ids_in_use(map) == Set::<usize>::empty(),
        next_id(map) == Some(0usize),
{
    IdMap { map: ReassignableCountedMap::new() }
}

/// `ReassignableCountedMap::push`, with the unit value: asks the map's counter
/// for an id, which is the id given back last or else the next number, and
/// enters it as a key.  The id was no key before: `push` panics where its
/// insertion finds an entry under the id, and a map that was made by `new` and
/// changed by `push` and `remove` alone, as this one is, keeps its counter and
/// its keys in step and does not come there.  When the counter has no id left
/// the map stays as it is, counter and all, and `HashMapFull` comes back.
#[verifier::external_body]
fn take_id(map: &mut IdMap) -> (id: Result<usize, HashMapFull>)
    ensures
        match id {
            Ok(id) => {
                &&& next_id(*old(map)) == Some(id)
                &&& !ids_in_use(*old(map)).contains(id)
                &&& ids_in_use(*final(map)) == ids_in_use(*old(map)).insert(id)
            },
            Err(_) => {
                &&& next_id(*old(map)) is None
                &&& next_id(*final(map)) is None
                &&& ids_in_use(*final(map)) == ids_in_use(*old(map))
            },
        },
{
    map.map.push(())
}

/// `ReassignableCountedMap::remove`: takes the key `id` out and hands the id
/// back to the counter, which gives it again next; `None`, and no change,
/// where `id` is no key.  `remove` panics where the counter refuses the id of
/// a key; a map that was made and changed as this one is does not come there.
#[verifier::external_body]
fn give_back(map: &mut IdMap, id: usize) -> (held: Option<()>)
    ensures
        held is Some <==> ids_in_use(*old(map)).contains(id),
        ids_in_use(*final(map)) == ids_in_use(*old(map)).remove(id),
        next_id(*final(map)) == if held is Some {
            Some(id)
        } else {
            next_id(*old(map))
        },
{
    map.map.remove(id)
}

/// The collection has no id left to give.
#[derive(Clone, Copy, Debug, PartialEq, Eq)]
pub struct ViewersFull;

/// The ids of `entries`, in their order.
pub open spec fn ids_of<V>(entries: Seq<(usize, V)>) -> Seq<usize> {
    Seq::new(entries.len(), |i: int| entries[i].0)
}

/// Whether an entry stands under `id` among `entries`.
pub open spec fn under<V>(entries: Seq<(usize, V)>, id: usize) -> bool {
    exists|k: int| 0 <= k < entries.len() && (#[trigger] entries[k]).0 == id
}

/// Whether `value` stands under `id` among `entries`.
pub open spec fn stands<V>(entries: Seq<(usize, V)>, id: usize, value: V) -> bool {
    exists|k: int| 0 <= k < entries.len() && (#[trigger] entries[k]).0 == id && entries[k].1 == value
}

/// `entries` without those whose id is in `gone`, in their order.
pub open spec fn without<V>(entries: Seq<(usize, V)>, gone: Set<usize>) -> Seq<(usize, V)>
    decreases entries.len(),
{
    if entries.len() == 0 {
        entries
    } else if gone.contains(entries.last().0) {
        without(entries.drop_last(), gone)
    } else {
        without(entries.drop_last(), gone).push(entries.last())
    }
}

/// Enters `value` behind `entries` under the id that the map has assigned, or
/// turns the map's refusal into the collection's own.
pub fn enter<V>(entries: &mut Vec<(usize, V)>, assigned: Result<usize, HashMapFull>, value: V) -> (id:
    Result<usize, ViewersFull>)
    ensures
        match assigned {
            Ok(given) => {
                &&& id == Ok::<usize, ViewersFull>(given)
                &&& final(entries)@ == old(entries)@.push((given, value))
            },
            Err(_) => {
                &&& id == Err::<usize, ViewersFull>(ViewersFull)
                &&& final(entries)@ == old(entries)@
            },
        },
{
    match assigned {
        Ok(given) => {
            entries.push((given, value));
            Ok(given)
        },
        Err(_) => Err(ViewersFull),
    }
}

/// Values under ids: each value stands under the id it was given when it was
/// added, and the values stand in the order in which they were added.  An id
/// that was taken out is the next to be given again.
pub struct Viewers<V> {
    ids: IdMap,
    entries: Vec<(usize, V)>,
}

impl<V> Viewers<V> {
    /// The ids and their values, in the order in which they were added.
    pub closed spec fn entries(&self) -> Seq<(usize, V)> {
        self.entries@
    }

    /// Whether a value stands under `id`.
    pub open spec fn has(&self, id: usize) -> bool {
        under(self.entries(), id)
    }

    /// The id that the next value will stand under; `None` when the map has no
    /// id left to give.
    pub closed spec fn next_id(&self) -> Option<usize> {
        next_id(self.ids)
    }

    /// No id stands twice, and the ids are those that the map has out.  Every
    /// collection that this module hands out is well formed.
    pub closed spec fn wf(&self) -> bool {
        &&& ids_of(self.entries@).no_duplicates()
        &&& ids_of(self.entries@).to_set() == ids_in_use(self.ids)
    }

    /// In a well-formed collection no id stands twice.
    pub proof fn lemma_ids_distinct(&self)
        requires
            self.wf(),
        ensures
            ids_of(self.entries()).no_duplicates(),
    {
    }

    /// An empty collection.
    pub fn new() -> (viewers: Self)
        ensures
            viewers.wf(),
            viewers.entries() == Seq::<(usize, V)>::empty(),
            viewers.next_id() == Some(0usize),
    {
        let ids = no_ids();
        let entries: Vec<(usize, V)> = Vec::new();
        proof {
            assert(ids_of(entries@) =~= Seq::<usize>::empty());
            assert(ids_of(entries@).to_set() =~= Set::<usize>::empty());
        }
        Viewers { ids, entries }
    }

    /// The number of values.
    pub fn len(&self) -> (len: usize)
        ensures
            len == self.entries().len(),
    {
        self.entries.len()
    }

    /// The id of the value at `index`, counted in the order of arrival.
    pub fn id_at(&self, index: usize) -> (id: usize)
        requires
            index < self.entries().len(),
        ensures
            id == self.entries()[index as int].0,
    {
        self.entries[index].0
    }

    /// The place of the first value under `id`, or the number of values where
    /// there is none.
    fn find(&self, id: usize) -> (at: usize)
        ensures
            at <= self.entries@.len(),
            forall|k: int| 0 <= k < at ==> self.entries@[k].0 != id,
            at < self.entries@.len() ==> self.entries@[at as int].0 == id,
    {
        let mut at: usize = 0;
        while at < self.entries.len() && self.entries[at].0 != id
            invariant
                at <= self.entries@.len(),
                forall|k: int| 0 <= k < at ==> self.entries@[k].0 != id,
            decreases self.entries@.len() - at,
        {
            at += 1;
        }
        at
    }

    /// The value under `id`, if there is one.
    pub fn get(&self, id: usize) -> (value: Option<&V>)
        ensures
            match value {
                Some(value) => stands(self.entries(), id, *value),
                None => !self.has(id),
            },
    {
        let at = self.find(id);
        if at < self.entries.len() {
            Some(&self.entries[at].1)
        } else {
            None
        }
    }

    /// Adds `value` behind the others, under the id that is next to be given.
    /// `Err` exactly when the map has no id left; nothing is added then, and
    /// `value` is dropped.
    pub fn push(&mut self, value: V) -> (id: Result<usize, ViewersFull>)
        ensures
            old(self).wf() ==> final(self).wf(),
            match old(self).next_id() {
                Some(given) => {
                    &&& id == Ok::<usize, ViewersFull>(given)
                    &&& old(self).wf() ==> !old(self).has(given)
                    &&& final(self).entries() == old(self).entries().push((given, value))
                },
                None => {
                    &&& id == Err::<usize, ViewersFull>(ViewersFull)
                    &&& final(self).entries() == old(self).entries()
                    &&& final(self).next_id() is None
                },
            },
    {
        let assigned = take_id(&mut self.ids);
        proof {
            if assigned is Ok {
                lemma_ids_pushed(self.entries@, (assigned->Ok_0, value));
                lemma_ids_has(self.entries@, assigned->Ok_0);
            }
        }
        enter(&mut self.entries, assigned, value)
    }

    /// Takes out the value under `id` and returns it; the others stay as they
    /// stand.  `None`, and no change, where nothing stands under `id`.
    pub fn remove(&mut self, id: usize) -> (removed: Option<V>)
        ensures
            old(self).wf() ==> final(self).wf(),
            old(self).wf() ==> final(self).entries() == without(old(self).entries(), set![id]),
            match removed {
                Some(value) => {
                    &&& stands(old(self).entries(), id, value)
                    &&& old(self).wf() ==> final(self).next_id() == Some(id)
                },
                None => {
                    &&& !old(self).has(id)
                    &&& final(self).entries() == old(self).entries()
                    &&& final(self).next_id() == old(self).next_id()
                },
            },
    {
        let at = self.find(id);
        if at < self.entries.len() {
            proof {
                if self.wf() {
                    lemma_without_one(self.entries@, at as int);
                    lemma_ids_removed(self.entries@, at as int);
                    assert(ids_of(self.entries@)[at as int] == id);
                }
            }
            give_back(&mut self.ids, id);
            let entry = self.entries.remove(at);
            Some(entry.1)
        } else {
            proof {
                lemma_without_strangers(self.entries@, set![id]);
            }
            None
        }
    }
}

impl<V> Viewers<V> {
    /// Shows `event` to the viewer at `index`, counted in the order of arrival.
    /// The viewer stays where it is, under its id.
    pub fn show<E>(&mut self, index: usize, event: &E) -> (verdict: Option<DeleteView>) where
        V: crate::view::View<E>,
        requires
            index < old(self).entries().len(),
        ensures
            old(self).entries()[index as int].1.shows(
                event,
                &final(self).entries()[index as int].1,
                verdict,
            ),
            final(self).entries().len() == old(self).entries().len(),
            final(self).entries()[index as int].0 == old(self).entries()[index as int].0,
            ids_of(final(self).entries()) == ids_of(old(self).entries()),
            forall|k: int|
                0 <= k < old(self).entries().len() && k != index ==> final(self).entries()[k] == old(
                    self,
                ).entries()[k],
            old(self).wf() ==> final(self).wf(),
            final(self).next_id() == old(self).next_id(),
    {
        let verdict = self.entries[index].1.view(event);
        assert(ids_of(self.entries@) =~= ids_of(old(self).entries@));
        verdict
    }
}

/// Adding an entry adds its id behind the others.
pub proof fn lemma_ids_pushed<V>(entries: Seq<(usize, V)>, entry: (usize, V))
    ensures
        ids_of(entries.push(entry)) == ids_of(entries).push(entry.0),
        ids_of(entries.push(entry)).to_set() == ids_of(entries).to_set().insert(entry.0),
        ids_of(entries).no_duplicates() && !ids_of(entries).contains(entry.0) ==> ids_of(
            entries.push(entry),
        ).no_duplicates(),
{
    let ids = ids_of(entries);
    let more = ids_of(entries.push(entry));
    assert(more =~= ids.push(entry.0));
    assert forall|id: usize| more.to_set().contains(id) <==> ids.to_set().insert(entry.0).contains(
        id,
    ) by {
        if more.contains(id) {
            let k = choose|k: int| 0 <= k < more.len() && more[k] == id;
            if k < ids.len() {
                assert(ids[k] == id);
            }
        }
        if ids.contains(id) {
            let k = choose|k: int| 0 <= k < ids.len() && ids[k] == id;
            assert(more[k] == id);
        }
        assert(more[ids.len() as int] == entry.0);
    }
    assert(more.to_set() =~= ids.to_set().insert(entry.0));
}

/// Taking the entry at `at` out of entries under distinct ids takes its id out
/// of the ids, and leaves them distinct.
pub proof fn lemma_ids_removed<V>(entries: Seq<(usize, V)>, at: int)
    requires
        0 <= at < entries.len(),
        ids_of(entries).no_duplicates(),
    ensures
        ids_of(entries.remove(at)) == ids_of(entries).remove(at),
        ids_of(entries.remove(at)).no_duplicates(),
        ids_of(entries.remove(at)).to_set() == ids_of(entries).to_set().remove(entries[at].0),
{
    let ids = ids_of(entries);
    let fewer = ids_of(entries.remove(at));
    assert(fewer =~= ids.remove(at));
    assert forall|i: int, j: int| 0 <= i < fewer.len() && 0 <= j < fewer.len() && i != j implies fewer[i]
        != fewer[j] by {
        let i0 = if i < at { i } else { i + 1 };
        let j0 = if j < at { j } else { j + 1 };
        assert(fewer[i] == ids[i0] && fewer[j] == ids[j0]);
    }
    assert forall|id: usize| fewer.to_set().contains(id) <==> ids.to_set().remove(
        entries[at].0,
    ).contains(id) by {
        if fewer.contains(id) {
            let k = choose|k: int| 0 <= k < fewer.len() && fewer[k] == id;
            let k0 = if k < at { k } else { k + 1 };
            assert(ids[k0] == id);
            assert(ids[at] == entries[at].0);
        }
        if ids.contains(id) && id != entries[at].0 {
            let k = choose|k: int| 0 <= k < ids.len() && ids[k] == id;
            assert(ids[at] == entries[at].0);
            let k1 = if k < at { k } else { k - 1 };
            assert(fewer[k1] == id);
        }
    }
    assert(fewer.to_set() =~= ids.to_set().remove(entries[at].0));
}

/// Entries of which none has its id in `gone` all stay.
pub proof fn lemma_without_strangers<V>(entries: Seq<(usize, V)>, gone: Set<usize>)
    requires
        forall|k: int| 0 <= k < entries.len() ==> !gone.contains(#[trigger] entries[k].0),
    ensures
        without(entries, gone) == entries,
    decreases entries.len(),
{
    if entries.len() > 0 {
        lemma_without_strangers(entries.drop_last(), gone);
        assert(entries.drop_last().push(entries.last()) =~= entries);
    }
}

/// Among entries under distinct ids, taking out the one at `at` is taking out
/// its id.
pub proof fn lemma_without_one<V>(entries: Seq<(usize, V)>, at: int)
    requires
        0 <= at < entries.len(),
        ids_of(entries).no_duplicates(),
    ensures
        without(entries, set![entries[at].0]) == entries.remove(at),
    decreases entries.len(),
{
    let id = entries[at].0;
    let front = entries.drop_last();
    assert(ids_of(entries)[at] == id);
    if at == entries.len() - 1 {
        assert forall|k: int| 0 <= k < front.len() implies !set![id].contains(
            #[trigger] front[k].0,
        ) by {
            assert(ids_of(entries)[k] == front[k].0);
        }
        lemma_without_strangers(front, set![id]);
        assert(entries.remove(at) =~= front);
    } else {
        assert(ids_of(entries)[entries.len() - 1] == entries.last().0);
        assert forall|i: int, j: int| 0 <= i < front.len() && 0 <= j < front.len() && i != j implies ids_of(
            front,
        )[i] != ids_of(front)[j] by {
            assert(ids_of(front)[i] == ids_of(entries)[i]);
            assert(ids_of(front)[j] == ids_of(entries)[j]);
        }
        lemma_without_one(front, at);
        assert(front[at] == entries[at]);
        assert(entries.remove(at) =~= front.remove(at).push(entries.last()));
    }
}

/// An id is among the ids of `entries` exactly if an entry stands under it.
pub proof fn lemma_ids_has<V>(entries: Seq<(usize, V)>, id: usize)
    ensures
        ids_of(entries).len() == entries.len(),
        ids_of(entries).contains(id) <==> under(entries, id),
{
    if ids_of(entries).contains(id) {
        let k = choose|k: int| 0 <= k < ids_of(entries).len() && ids_of(entries)[k] == id;
        assert(entries[k].0 == id);
    }
    if under(entries, id) {
        let k = choose|k: int| 0 <= k < entries.len() && (#[trigger] entries[k]).0 == id;
        assert(ids_of(entries)[k] == id);
    }
}

/// After an entry has been added, the ids in use are those that were, and its
/// own.
pub proof fn lemma_under_pushed<V>(entries: Seq<(usize, V)>, entry: (usize, V), id: usize)
    ensures
        under(entries.push(entry), id) <==> under(entries, id) || entry.0 == id,
{
    let more = entries.push(entry);
    if under(more, id) {
        let k = choose|k: int| 0 <= k < more.len() && (#[trigger] more[k]).0 == id;
        if k < entries.len() {
            assert(entries[k].0 == id);
        }
    }
    if under(entries, id) {
        let k = choose|k: int| 0 <= k < entries.len() && (#[trigger] entries[k]).0 == id;
        assert(more[k].0 == id);
    }
    if entry.0 == id {
        assert(more[entries.len() as int].0 == id);
    }
}

/// What stays is what stood there and is not in `gone`.
pub proof fn lemma_without_under<V>(entries: Seq<(usize, V)>, gone: Set<usize>, id: usize)
    ensures
        under(without(entries, gone), id) <==> under(entries, id) && !gone.contains(id),
    decreases entries.len(),
{
    if entries.len() > 0 {
        let front = entries.drop_last();
        let last = entries.last();
        lemma_without_under(front, gone, id);
        assert(front.push(last) =~= entries);
        lemma_under_pushed(front, last, id);
        if !gone.contains(last.0) {
            lemma_under_pushed(without(front, gone), last, id);
        }
    }
}

/// Taking out `first` and then `then` is taking out both.
pub proof fn lemma_without_twice<V>(entries: Seq<(usize, V)>, first: Set<usize>, then: Set<usize>)
    ensures
        without(without(entries, first), then) == without(entries, first + then),
    decreases entries.len(),
{
    if entries.len() > 0 {
        lemma_without_twice(entries.drop_last(), first, then);
        let rest = without(entries.drop_last(), first);
        if !first.contains(entries.last().0) {
            assert(rest.push(entries.last()).drop_last() =~= rest);
        }
    }
}

} // verus!
