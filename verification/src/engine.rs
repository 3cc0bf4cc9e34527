//! The diff engine: the one owner of the known state.

use crate::diff::{
    added_entries, events_for, events_of_batch, known_after, known_after_batch, lemma_ids_of_push,
    lemma_without_push, removed_entries, stored_keys, without, Known,
};
use crate::model::{
    entry_views, event_views, ids_of, Batch, Container, ContainerView, DiffEvent, DiffEventView, Entry,
    EntryKey, EntryView, EventKind,
};
use vstd::hash_map::StringHashMap;
use vstd::hash_set::StringHashSet;
use vstd::prelude::*;

verus! {

/// Holds what has been observed of every container so far, and reports how
/// each new observation differs from it.
pub struct DiffEngine {
    known: StringHashMap<Vec<Entry>>,
}

impl View for DiffEngine {
    type V = Known;

    closed spec fn view(&self) -> Known {
        Map::new(
            |id: Seq<char>| self.known@.contains_key(id),
            |id: Seq<char>| entry_views(self.known@[id]@),
        )
    }
}

/// The identifiers of `entries`, as a hash set.
fn id_set(entries: &Vec<Entry>) -> (r: StringHashSet)
    ensures
        r@ == ids_of(entry_views(entries@)),
{
    let mut out = StringHashSet::new();
    let mut i: usize = 0;
    while i < entries.len()
        invariant
            i <= entries.len(),
            out@ == ids_of(entry_views(entries@.take(i as int))),
        decreases entries.len() - i,
    {
        let ghost before = entry_views(entries@.take(i as int));
        out.insert(entries[i].id.clone());
        proof {
            assert(entry_views(entries@.take(i + 1)) =~= before.push(entries[i as int]@));
            lemma_ids_of_push(before, entries[i as int]@);
        }
        i += 1;
    }
    assert(entries@.take(entries.len() as int) =~= entries@);
    out
}

/// Copies of the entries of `entries` whose identifier is not in `present`.
fn select_without(entries: &Vec<Entry>, present: &StringHashSet) -> (r: Vec<Entry>)
    ensures
        entry_views(r@) == without(entry_views(entries@), present@),
{
    let mut out: Vec<Entry> = Vec::new();
    let mut i: usize = 0;
    proof {
        reveal(Seq::filter);
        assert(entry_views(entries@.take(0)) =~= Seq::<EntryView>::empty());
        assert(entry_views(out@) =~= Seq::<EntryView>::empty());
    }
    while i < entries.len()
        invariant
            i <= entries.len(),
            entry_views(out@) == without(entry_views(entries@.take(i as int)), present@),
        decreases entries.len() - i,
    {
        let ghost before = entry_views(entries@.take(i as int));
        let ghost kept = entry_views(out@);
        let e = &entries[i];
        proof {
            lemma_without_push(before, e@, present@);
            assert(entry_views(entries@.take(i + 1)) =~= before.push(e@));
        }
        if !present.contains(e.id.as_str()) {
            out.push(e.clone());
            assert(entry_views(out@) =~= kept.push(e@));
        }
        i += 1;
    }
    assert(entries@.take(entries.len() as int) =~= entries@);
    out
}

impl DiffEngine {
    /// An engine that has seen nothing.
    pub fn new() -> (r: DiffEngine)
        ensures
            r@ == Map::<Seq<char>, Seq<EntryView>>::empty(),
    {
        let r = DiffEngine { known: StringHashMap::new() };
        assert(r@ =~= Map::<Seq<char>, Seq<EntryView>>::empty());
        r
    }

    /// How many containers have been seen.
    pub fn container_count(&self) -> (r: usize)
        ensures
            r == self@.len(),
    {
        assert(self@.dom() =~= self.known@.dom());
        self.known.len()
    }

    /// Whether the container named `container` has been seen.
    pub fn is_known(&self, container: &str) -> (r: bool)
        ensures
            r == self@.contains_key(container@),
    {
        self.known.contains_key(container)
    }

    /// Whether the entry named `entry` is believed present in the container
    /// named `container`.
    pub fn holds(&self, container: &str, entry: &str) -> (r: bool)
        ensures
            r == stored_keys(self@, container@).contains(
                EntryKey { container: container@, entry: entry@ },
            ),
    {
        match self.known.get(container) {
            Some(stored) => id_set(stored).contains(entry),
            None => false,
        }
    }

    /// The identifiers of the entries stored for the container named
    /// `container`, in the order they were observed in; `None` for a container
    /// never seen.
    pub fn entry_ids(&self, container: &str) -> (r: Option<Vec<String>>)
        ensures
            match r {
                Some(ids) => self@.contains_key(container@) && ids.len() == self@[container@].len()
                    && forall|i: int|
                    0 <= i < ids.len() ==> (#[trigger] ids[i])@ == self@[container@][i].id,
                None => !self@.contains_key(container@),
            },
    {
        match self.known.get(container) {
            Some(stored) => {
                let mut ids: Vec<String> = Vec::new();
                let mut i: usize = 0;
                while i < stored.len()
                    invariant
                        i <= stored.len(),
                        ids.len() == i,
                        forall|j: int| 0 <= j < i ==> (#[trigger] ids[j])@ == stored[j].id@,
                    decreases stored.len() - i,
                {
                    ids.push(stored[i].id.clone());
                    i += 1;
                }
                Some(ids)
            },
            None => None,
        }
    }

    /// Observes one container: reports how it differs from what is stored
    /// for it, and stores what was observed.
    pub fn observe(&mut self, c: &Container) -> (events: Vec<DiffEvent>)
        ensures
            final(self)@ == known_after(old(self)@, c@),
            event_views(events@) == events_for(old(self)@, c@),
    {
        let mut events: Vec<DiffEvent> = Vec::new();
        match self.known.get(c.id.as_str()) {
            None => {
                events.push(DiffEvent { kind: EventKind::Add, container: c.clone() });
                assert(event_views(events@) =~= events_for(old(self)@, c@));
            },
            Some(stored) => {
                let stored_ids = id_set(stored);
                let candidate_ids = id_set(&c.entries);
                let added = select_without(&c.entries, &stored_ids);
                let removed = select_without(stored, &candidate_ids);
                assert(entry_views(added@) == added_entries(old(self)@, c@));
                assert(entry_views(removed@) == removed_entries(old(self)@, c@));
                if added.len() > 0 {
                    events.push(
                        DiffEvent { kind: EventKind::Add, container: c.restricted_to(added) },
                    );
                }
                if removed.len() > 0 {
                    events.push(
                        DiffEvent { kind: EventKind::Remove, container: c.restricted_to(removed) },
                    );
                }
                assert(event_views(events@) =~= events_for(old(self)@, c@));
            },
        }
        let observed = c.entries.clone();
        assert(entry_views(observed@) =~= c@.entries);
        self.known.insert(c.id.clone(), observed);
        assert(self@ =~= known_after(old(self)@, c@));
        events
    }

    /// Observes the containers of `batch` in order and returns the events
    /// they give rise to, in that order.
    pub fn apply(&mut self, batch: &Batch) -> (events: Vec<DiffEvent>)
        ensures
            final(self)@ == known_after_batch(old(self)@, batch@.containers),
            event_views(events@) == events_of_batch(old(self)@, batch@.containers),
            forall|id: Seq<char>| old(self)@.contains_key(id) ==> final(self)@.contains_key(id),
    {
        let mut events: Vec<DiffEvent> = Vec::new();
        let mut i: usize = 0;
        let ghost all = batch@.containers;
        assert(all.take(0) =~= Seq::<ContainerView>::empty());
        assert(event_views(events@) =~= Seq::<DiffEventView>::empty());
        while i < batch.containers.len()
            invariant
                i <= batch.containers.len(),
                all == batch@.containers,
                self@ == known_after_batch(old(self)@, all.take(i as int)),
                event_views(events@) == events_of_batch(old(self)@, all.take(i as int)),
                forall|id: Seq<char>| old(self)@.contains_key(id) ==> self@.contains_key(id),
            decreases batch.containers.len() - i,
        {
            let ghost before = event_views(events@);
            let mut found = self.observe(&batch.containers[i]);
            let ghost fresh = event_views(found@);
            proof {
                assert(all.take(i + 1).drop_last() =~= all.take(i as int));
                assert(all.take(i + 1).last() == batch.containers[i as int]@);
            }
            events.append(&mut found);
            assert(event_views(events@) =~= before + fresh);
            i += 1;
        }
        assert(all.take(batch.containers.len() as int) =~= all);
        events
    }
}

} // verus!
