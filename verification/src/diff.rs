//! The diff of a batch against the known state, as mathematics.
//!
//! The known state maps each container identifier seen so far to the entries
//! that the container held when it was last observed. A container that is new
//! is reported whole; a known one is compared with what is stored for it, and
//! what is stored is then replaced by what was observed.

use crate::model::{
    ids_of, keys_of, restricted, ContainerView, DiffEventView, EntryKey, EntryView, EventKind,
};
use vstd::prelude::*;

verus! {

/// The known state: for each container seen so far, its entries as last
/// observed.
pub type Known = Map<Seq<char>, Seq<EntryView>>;

/// The keys believed present in the container named `container`; empty for
/// a container never seen.
pub open spec fn stored_keys(known: Known, container: Seq<char>) -> Set<EntryKey> {
    if known.contains_key(container) {
        keys_of(container, known[container])
    } else {
        Set::empty()
    }
}

/// The entries of `entries` whose identifier is not in `present`, in order.
pub open spec fn without(entries: Seq<EntryView>, present: Set<Seq<char>>) -> Seq<EntryView> {
    entries.filter(|e: EntryView| !present.contains(e.id))
}

/// The entries of `entries` whose identifier does not occur among `others`.
pub open spec fn missing_from(entries: Seq<EntryView>, others: Seq<EntryView>) -> Seq<EntryView> {
    without(entries, ids_of(others))
}

/// The event of kind `kind` that reports `entries` of `c`, or nothing where
/// there are none to report.
pub open spec fn event_if_any(kind: EventKind, c: ContainerView, entries: Seq<EntryView>) -> Seq<
    DiffEventView,
> {
    if entries.len() > 0 {
        seq![DiffEventView { kind: kind, container: restricted(c, entries) }]
    } else {
        seq![]
    }
}

/// The entries that `c` holds and the known state does not.
pub open spec fn added_entries(known: Known, c: ContainerView) -> Seq<EntryView>
    recommends
        known.contains_key(c.id),
{
    missing_from(c.entries, known[c.id])
}

/// The entries that the known state holds for `c` and `c` no longer does.
pub open spec fn removed_entries(known: Known, c: ContainerView) -> Seq<EntryView>
    recommends
        known.contains_key(c.id),
{
    missing_from(known[c.id], c.entries)
}

/// The events that observing `c` gives rise to.
pub open spec fn events_for(known: Known, c: ContainerView) -> Seq<DiffEventView> {
    if !known.contains_key(c.id) {
        seq![DiffEventView { kind: EventKind::Add, container: c }]
    } else {
        event_if_any(EventKind::Add, c, added_entries(known, c)) + event_if_any(
            EventKind::Remove,
            c,
            removed_entries(known, c),
        )
    }
}

/// The known state once `c` has been observed.
pub open spec fn known_after(known: Known, c: ContainerView) -> Known {
    known.insert(c.id, c.entries)
}

/// The known state once `containers` have been observed in order.
pub open spec fn known_after_batch(known: Known, containers: Seq<ContainerView>) -> Known
    decreases containers.len(),
{
    if containers.len() == 0 {
        known
    } else {
        known_after(known_after_batch(known, containers.drop_last()), containers.last())
    }
}

/// The events that observing `containers` in order gives rise to, each
/// container diffed against the state its predecessors left.
pub open spec fn events_of_batch(known: Known, containers: Seq<ContainerView>) -> Seq<
    DiffEventView,
>
    decreases containers.len(),
{
    if containers.len() == 0 {
        seq![]
    } else {
        events_of_batch(known, containers.drop_last()) + events_for(
            known_after_batch(known, containers.drop_last()),
            containers.last(),
        )
    }
}

/// Filtering one more entry either keeps it at the end or leaves the result
/// as it was.
pub proof fn lemma_without_push(entries: Seq<EntryView>, e: EntryView, present: Set<Seq<char>>)
    ensures
        without(entries.push(e), present) == if present.contains(e.id) {
            without(entries, present)
        } else {
            without(entries, present).push(e)
        },
{
    reveal(Seq::filter);
    assert(entries.push(e).drop_last() =~= entries);
}

/// The identifiers of a sequence with one more entry.
pub proof fn lemma_ids_of_push(entries: Seq<EntryView>, e: EntryView)
    ensures
        ids_of(entries.push(e)) == ids_of(entries).insert(e.id),
{
    let longer = entries.push(e);
    assert forall|id: Seq<char>| #[trigger]
        ids_of(longer).contains(id) <==> ids_of(entries).insert(e.id).contains(id) by {
        if ids_of(longer).contains(id) {
            let j = choose|j: int| 0 <= j < longer.len() && #[trigger] longer[j].id == id;
            if j < entries.len() {
                assert(entries[j].id == id);
            }
        }
        if ids_of(entries).contains(id) {
            let j = choose|j: int| 0 <= j < entries.len() && #[trigger] entries[j].id == id;
            assert(longer[j].id == id);
        }
        if id == e.id {
            assert(longer[entries.len() as int].id == id);
        }
    }
    assert(ids_of(longer) =~= ids_of(entries).insert(e.id));
}

/// Filtering keeps exactly the identifiers that are not in `present`.
pub proof fn lemma_ids_of_without(entries: Seq<EntryView>, present: Set<Seq<char>>)
    ensures
        ids_of(without(entries, present)) == ids_of(entries).difference(present),
    decreases entries.len(),
{
    if entries.len() == 0 {
        reveal(Seq::filter);
        assert(ids_of(without(entries, present)) =~= ids_of(entries).difference(present));
    } else {
        let init = entries.drop_last();
        let e = entries.last();
        assert(entries =~= init.push(e));
        lemma_ids_of_without(init, present);
        lemma_without_push(init, e, present);
        lemma_ids_of_push(init, e);
        if !present.contains(e.id) {
            lemma_ids_of_push(without(init, present), e);
        }
        assert(ids_of(without(entries, present)) =~= ids_of(entries).difference(present));
    }
}

/// Nothing is left of entries whose identifiers are all in `present`.
pub proof fn lemma_without_all_present(entries: Seq<EntryView>, present: Set<Seq<char>>)
    requires
        ids_of(entries).subset_of(present),
    ensures
        without(entries, present) == Seq::<EntryView>::empty(),
    decreases entries.len(),
{
    if entries.len() == 0 {
        reveal(Seq::filter);
    } else {
        let init = entries.drop_last();
        let e = entries.last();
        assert(entries =~= init.push(e));
        lemma_ids_of_push(init, e);
        assert(ids_of(init).subset_of(present)) by {
            assert forall|id: Seq<char>| ids_of(init).contains(id) implies present.contains(id) by {
                assert(ids_of(entries).contains(id));
            }
        }
        assert(present.contains(e.id)) by {
            assert(ids_of(entries).contains(e.id));
        }
        lemma_without_all_present(init, present);
        lemma_without_push(init, e, present);
    }
}

/// A sequence of entries is empty exactly when it has no keys.
pub proof fn lemma_keys_of_empty(container: Seq<char>, entries: Seq<EntryView>)
    ensures
        keys_of(container, entries).is_empty() <==> entries.len() == 0,
{
    if entries.len() > 0 {
        let k = EntryKey { container: container, entry: entries[0].id };
        assert(ids_of(entries).contains(entries[0].id));
        assert(keys_of(container, entries).contains(k));
    } else {
        assert(keys_of(container, entries) =~= Set::<EntryKey>::empty());
    }
}

/// The keys of filtered entries are the keys of the entries, less those
/// whose identifier is in `present`.
pub proof fn lemma_keys_of_missing(
    container: Seq<char>,
    entries: Seq<EntryView>,
    others: Seq<EntryView>,
)
    ensures
        keys_of(container, missing_from(entries, others)) == keys_of(
            container,
            entries,
        ).difference(keys_of(container, others)),
{
    lemma_ids_of_without(entries, ids_of(others));
    assert(keys_of(container, missing_from(entries, others)) =~= keys_of(
        container,
        entries,
    ).difference(keys_of(container, others)));
}

/// A container never seen before is reported whole by a single `Add` event,
/// and afterwards the keys stored for it are exactly the keys it was
/// observed with.
pub proof fn lemma_new_container_reported_whole(known: Known, c: ContainerView)
    requires
        !known.contains_key(c.id),
    ensures
        events_for(known, c) == seq![DiffEventView { kind: EventKind::Add, container: c }],
        events_for(known, c).len() == 1,
        events_for(known, c)[0].kind == EventKind::Add,
        events_for(known, c)[0].container.entries == c.entries,
        stored_keys(known, c.id) == Set::<EntryKey>::empty(),
        stored_keys(known_after(known, c), c.id) == keys_of(c.id, c.entries),
{
}

/// For a container seen before, with `candidate` the keys it is observed
/// with and `stored` the keys held for it:
/// the `Add` event carries exactly `candidate - stored` and is emitted if and
/// only if that set is not empty; the `Remove` event carries exactly
/// `stored - candidate` and is emitted if and only if that set is not empty;
/// `Add` comes before `Remove`; no key is in both; and afterwards the keys
/// held for the container are `candidate`.
pub proof fn lemma_known_container_diffed(known: Known, c: ContainerView)
    requires
        known.contains_key(c.id),
    ensures
        ({
            let candidate = keys_of(c.id, c.entries);
            let stored = stored_keys(known, c.id);
            let added = candidate.difference(stored);
            let removed = stored.difference(candidate);
            let events = events_for(known, c);
            &&& keys_of(c.id, added_entries(known, c)) == added
            &&& keys_of(c.id, removed_entries(known, c)) == removed
            &&& events == event_if_any(EventKind::Add, c, added_entries(known, c)) + event_if_any(
                EventKind::Remove,
                c,
                removed_entries(known, c),
            )
            &&& (exists|i: int| 0 <= i < events.len() && events[i].kind == EventKind::Add)
                <==> !added.is_empty()
            &&& (exists|i: int| 0 <= i < events.len() && events[i].kind == EventKind::Remove)
                <==> !removed.is_empty()
            &&& forall|i: int|
                0 <= i < events.len() && events[i].kind == EventKind::Add ==> keys_of(
                    c.id,
                    events[i].container.entries,
                ) == added
            &&& forall|i: int|
                0 <= i < events.len() && events[i].kind == EventKind::Remove ==> keys_of(
                    c.id,
                    events[i].container.entries,
                ) == removed
            &&& forall|i: int| 0 <= i < events.len() ==> events[i].container.id == c.id
            &&& added.disjoint(removed)
            &&& stored_keys(known_after(known, c), c.id) == candidate
        }),
{
    let candidate = keys_of(c.id, c.entries);
    let stored = stored_keys(known, c.id);
    let added = candidate.difference(stored);
    let removed = stored.difference(candidate);
    let more = added_entries(known, c);
    let less = removed_entries(known, c);
    let events = events_for(known, c);
    let adds = event_if_any(EventKind::Add, c, more);
    let removes = event_if_any(EventKind::Remove, c, less);
    lemma_keys_of_missing(c.id, c.entries, known[c.id]);
    lemma_keys_of_missing(c.id, known[c.id], c.entries);
    lemma_keys_of_empty(c.id, more);
    lemma_keys_of_empty(c.id, less);
    assert(events == adds + removes);
    if more.len() > 0 {
        assert(events[0].kind == EventKind::Add);
    }
    if less.len() > 0 {
        assert(events[adds.len() as int].kind == EventKind::Remove);
    }
}

/// No container is forgotten: every identifier known before a batch is
/// known after it, and so is every container of the batch.
pub proof fn lemma_known_only_grows(known: Known, containers: Seq<ContainerView>)
    ensures
        forall|id: Seq<char>|
            known.contains_key(id) ==> #[trigger] known_after_batch(known, containers).contains_key(
                id,
            ),
        forall|i: int|
            0 <= i < containers.len() ==> known_after_batch(known, containers).contains_key(
                #[trigger] containers[i].id,
            ),
    decreases containers.len(),
{
    if containers.len() > 0 {
        let init = containers.drop_last();
        lemma_known_only_grows(known, init);
        assert forall|id: Seq<char>| known.contains_key(id) implies #[trigger] known_after_batch(
            known,
            containers,
        ).contains_key(id) by {
            assert(known_after_batch(known, init).contains_key(id));
        }
        assert forall|i: int| 0 <= i < containers.len() implies known_after_batch(
            known,
            containers,
        ).contains_key(#[trigger] containers[i].id) by {
            if i < containers.len() - 1 {
                assert(containers.drop_last()[i] == containers[i]);
            }
        }
    }
}

/// Containers of one batch that share an identifier hold the same set of
/// entry identifiers.
pub open spec fn repeats_agree(containers: Seq<ContainerView>) -> bool {
    forall|i: int, j: int|
        0 <= i < containers.len() && 0 <= j < containers.len() && containers[i].id
            == containers[j].id ==> ids_of(#[trigger] containers[i].entries) == ids_of(
            #[trigger] containers[j].entries,
        )
}

/// The known state holds, for every container of `containers`, exactly the
/// identifiers that the container holds.
pub open spec fn settled(known: Known, containers: Seq<ContainerView>) -> bool {
    forall|i: int|
        0 <= i < containers.len() ==> known.contains_key(#[trigger] containers[i].id) && ids_of(
            known[containers[i].id],
        ) == ids_of(containers[i].entries)
}

/// Once a batch has been observed, the known state is settled on it.
pub proof fn lemma_settled_after_batch(known: Known, containers: Seq<ContainerView>)
    requires
        repeats_agree(containers),
    ensures
        settled(known_after_batch(known, containers), containers),
    decreases containers.len(),
{
    if containers.len() > 0 {
        let init = containers.drop_last();
        let last = containers.last();
        assert(repeats_agree(init)) by {
            assert forall|i: int, j: int|
                0 <= i < init.len() && 0 <= j < init.len() && init[i].id
                    == init[j].id implies ids_of(#[trigger] init[i].entries) == ids_of(
                #[trigger] init[j].entries,
            ) by {
                assert(init[i] == containers[i] && init[j] == containers[j]);
            }
        }
        lemma_settled_after_batch(known, init);
        let after = known_after_batch(known, containers);
        assert forall|i: int| 0 <= i < containers.len() implies after.contains_key(
            #[trigger] containers[i].id,
        ) && ids_of(after[containers[i].id]) == ids_of(containers[i].entries) by {
            if containers[i].id == last.id {
                assert(ids_of(containers[i].entries) == ids_of(
                    containers[containers.len() - 1].entries,
                ));
            } else {
                assert(init[i] == containers[i]);
            }
        }
    }
}

/// Observing, in a settled state, a prefix of the batch it is settled on
/// emits nothing and leaves the state settled.
proof fn lemma_settled_prefix_is_silent(known: Known, containers: Seq<ContainerView>, n: int)
    requires
        settled(known, containers),
        0 <= n <= containers.len(),
    ensures
        events_of_batch(known, containers.take(n)) == Seq::<DiffEventView>::empty(),
        settled(known_after_batch(known, containers.take(n)), containers),
    decreases n,
{
    if n > 0 {
        lemma_settled_prefix_is_silent(known, containers, n - 1);
        let prefix = containers.take(n);
        let c = containers[n - 1];
        assert(prefix.drop_last() =~= containers.take(n - 1));
        assert(prefix.last() == c);
        let before = known_after_batch(known, containers.take(n - 1));
        let after = known_after_batch(known, prefix);
        assert(before.contains_key(c.id) && ids_of(before[c.id]) == ids_of(c.entries));
        lemma_without_all_present(c.entries, ids_of(before[c.id]));
        lemma_without_all_present(before[c.id], ids_of(c.entries));
        assert(events_for(before, c) =~= Seq::<DiffEventView>::empty());
        assert forall|i: int| 0 <= i < containers.len() implies after.contains_key(
            #[trigger] containers[i].id,
        ) && ids_of(after[containers[i].id]) == ids_of(containers[i].entries) by {
            if containers[i].id == c.id {
                assert(ids_of(before[containers[i].id]) == ids_of(containers[i].entries));
            }
        }
    }
}

/// Entries of which filtering leaves nothing have all their identifiers in
/// `present`.
proof fn lemma_nothing_left_means_all_present(entries: Seq<EntryView>, present: Set<Seq<char>>)
    requires
        without(entries, present).len() == 0,
    ensures
        ids_of(entries).subset_of(present),
{
    lemma_ids_of_without(entries, present);
    assert forall|id: Seq<char>| ids_of(entries).contains(id) implies present.contains(id) by {
        if !present.contains(id) {
            assert(ids_of(without(entries, present)).contains(id));
        }
    }
}

/// Observing a prefix of a batch without any event means that the state was
/// settled on that prefix, and leaves every container with the identifiers
/// it had.
proof fn lemma_silent_prefix_was_settled(known: Known, containers: Seq<ContainerView>, n: int)
    requires
        0 <= n <= containers.len(),
        events_of_batch(known, containers.take(n)).len() == 0,
    ensures
        settled(known, containers.take(n)),
        forall|id: Seq<char>| #[trigger]
            known_after_batch(known, containers.take(n)).contains_key(id) <==> known.contains_key(
                id,
            ),
        forall|id: Seq<char>|
            known.contains_key(id) ==> ids_of(
                #[trigger] known_after_batch(known, containers.take(n))[id],
            ) == ids_of(known[id]),
    decreases n,
{
    if n > 0 {
        let prefix = containers.take(n);
        let shorter = containers.take(n - 1);
        let c = containers[n - 1];
        assert(prefix.drop_last() =~= shorter);
        assert(prefix.last() == c);
        let before = known_after_batch(known, shorter);
        let after = known_after_batch(known, prefix);
        assert(events_of_batch(known, prefix) == events_of_batch(known, shorter) + events_for(
            before,
            c,
        ));
        assert(events_of_batch(known, shorter).len() == 0);
        assert(events_for(before, c).len() == 0);
        lemma_silent_prefix_was_settled(known, containers, n - 1);
        assert(before.contains_key(c.id));
        assert(known.contains_key(c.id));
        assert(added_entries(before, c).len() == 0);
        assert(removed_entries(before, c).len() == 0);
        lemma_nothing_left_means_all_present(c.entries, ids_of(before[c.id]));
        lemma_nothing_left_means_all_present(before[c.id], ids_of(c.entries));
        assert(ids_of(c.entries) =~= ids_of(before[c.id]));
        assert(ids_of(before[c.id]) == ids_of(known[c.id]));
        assert forall|i: int| 0 <= i < prefix.len() implies known.contains_key(
            #[trigger] prefix[i].id,
        ) && ids_of(known[prefix[i].id]) == ids_of(prefix[i].entries) by {
            if i < n - 1 {
                assert(shorter[i] == prefix[i]);
            }
        }
        assert forall|id: Seq<char>| known.contains_key(id) implies ids_of(#[trigger] after[id])
            == ids_of(known[id]) by {
            if id != c.id {
                assert(after[id] == before[id]);
            }
        }
    } else {
        assert(containers.take(0) =~= Seq::<ContainerView>::empty());
    }
}

/// A batch is observed without any event exactly when the known state is
/// settled on it.
pub proof fn lemma_silent_iff_settled(known: Known, containers: Seq<ContainerView>)
    ensures
        events_of_batch(known, containers) == Seq::<DiffEventView>::empty() <==> settled(
            known,
            containers,
        ),
{
    assert(containers.take(containers.len() as int) =~= containers);
    if settled(known, containers) {
        lemma_settled_prefix_is_silent(known, containers, containers.len() as int);
    }
    if events_of_batch(known, containers) == Seq::<DiffEventView>::empty() {
        lemma_silent_prefix_was_settled(known, containers, containers.len() as int);
    }
}

/// Observing the same batch a second time, right after the first, emits no
/// event at all. This holds of every batch in which containers that share an
/// identifier hold the same entry identifiers.
pub proof fn lemma_second_pass_is_silent(known: Known, containers: Seq<ContainerView>)
    requires
        repeats_agree(containers),
    ensures
        events_of_batch(known_after_batch(known, containers), containers) == Seq::<
            DiffEventView,
        >::empty(),
{
    lemma_settled_after_batch(known, containers);
    lemma_silent_iff_settled(known_after_batch(known, containers), containers);
}

/// A batch in which two containers share an identifier and differ in their
/// entry identifiers is never silent, not even right after it has been
/// observed: each of the two is diffed against what the other left.
pub proof fn lemma_second_pass_reports_disagreement(known: Known, containers: Seq<ContainerView>)
    requires
        !repeats_agree(containers),
    ensures
        events_of_batch(known_after_batch(known, containers), containers).len() > 0,
{
    let after = known_after_batch(known, containers);
    lemma_silent_iff_settled(after, containers);
    if events_of_batch(after, containers).len() == 0 {
        assert(events_of_batch(after, containers) =~= Seq::<DiffEventView>::empty());
        assert(settled(after, containers));
        assert forall|i: int, j: int|
            0 <= i < containers.len() && 0 <= j < containers.len() && containers[i].id
                == containers[j].id implies ids_of(#[trigger] containers[i].entries) == ids_of(
            #[trigger] containers[j].entries,
        ) by {
            assert(ids_of(after[containers[i].id]) == ids_of(containers[i].entries));
            assert(ids_of(after[containers[j].id]) == ids_of(containers[j].entries));
        }
    }
}

/// Observing the same batch a second time leaves the known state as the
/// first pass left it.
pub proof fn lemma_second_pass_keeps_state(known: Known, containers: Seq<ContainerView>)
    ensures
        known_after_batch(known_after_batch(known, containers), containers) == known_after_batch(
            known,
            containers,
        ),
{
    let empty = Map::<Seq<char>, Seq<EntryView>>::empty();
    let once = known_after_batch(known, containers);
    lemma_batch_overrides(known, containers);
    lemma_batch_overrides(once, containers);
    assert(once.union_prefer_right(known_after_batch(empty, containers)) =~= once);
}

/// What a batch leaves behind is what was known, overridden by what the
/// batch alone would leave.
proof fn lemma_batch_overrides(known: Known, containers: Seq<ContainerView>)
    ensures
        known_after_batch(known, containers) == known.union_prefer_right(
            known_after_batch(Map::<Seq<char>, Seq<EntryView>>::empty(), containers),
        ),
    decreases containers.len(),
{
    let empty = Map::<Seq<char>, Seq<EntryView>>::empty();
    if containers.len() == 0 {
        assert(known =~= known.union_prefer_right(empty));
    } else {
        lemma_batch_overrides(known, containers.drop_last());
        assert(known_after_batch(known, containers) =~= known.union_prefer_right(
            known_after_batch(empty, containers),
        ));
    }
}

} // verus!
