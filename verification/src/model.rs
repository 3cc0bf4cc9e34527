//! The data that the feed carries and the events derived from it, each with
//! the mathematical value that contracts speak of.

use serde_json::Value;
use vstd::prelude::*;

verus! {

/// An item of a container: its identifier and the JSON object it came in.
#[derive(Debug, PartialEq)]
pub struct Entry {
    pub id: String,
    pub body: Value,
}

/// What an [`Entry`] stands for.
pub ghost struct EntryView {
    pub id: Seq<char>,
    pub body: Value,
}

impl View for Entry {
    type V = EntryView;

    open spec fn view(&self) -> EntryView {
        EntryView { id: self.id@, body: self.body }
    }
}

/// A named group of entries, together with the members of the JSON object
/// that described it.
#[derive(Debug, PartialEq)]
pub struct Container {
    pub id: String,
    pub entries: Vec<Entry>,
    pub fields: serde_json::Map<String, Value>,
}

/// What a [`Container`] stands for.
pub ghost struct ContainerView {
    pub id: Seq<char>,
    pub entries: Seq<EntryView>,
    pub fields: serde_json::Map<String, Value>,
}

impl View for Container {
    type V = ContainerView;

    open spec fn view(&self) -> ContainerView {
        ContainerView { id: self.id@, entries: entry_views(self.entries@), fields: self.fields }
    }
}

/// One response of the feed: the containers that changed and the cursor to
/// continue from.
#[derive(Debug, PartialEq)]
pub struct Batch {
    pub next_cursor: String,
    pub containers: Vec<Container>,
}

/// What a [`Batch`] stands for.
pub ghost struct BatchView {
    pub next_cursor: Seq<char>,
    pub containers: Seq<ContainerView>,
}

impl View for Batch {
    type V = BatchView;

    open spec fn view(&self) -> BatchView {
        BatchView {
            next_cursor: self.next_cursor@,
            containers: container_views(self.containers@),
        }
    }
}

/// Whether entries appeared in a container or disappeared from it.
#[derive(Clone, Copy, Debug, PartialEq, Eq, Structural)]
pub enum EventKind {
    Add,
    Remove,
}

/// A change to one container: the container restricted to the entries that
/// were added to it or removed from it.
#[derive(Debug, PartialEq)]
pub struct DiffEvent {
    pub kind: EventKind,
    pub container: Container,
}

/// What a [`DiffEvent`] stands for.
pub ghost struct DiffEventView {
    pub kind: EventKind,
    pub container: ContainerView,
}

impl View for DiffEvent {
    type V = DiffEventView;

    open spec fn view(&self) -> DiffEventView {
        DiffEventView { kind: self.kind, container: self.container@ }
    }
}

/// The unit of diffing: an entry identifier scoped by its container. The two
/// parts are kept apart, so no choice of identifiers makes two keys collide.
pub ghost struct EntryKey {
    pub container: Seq<char>,
    pub entry: Seq<char>,
}

pub open spec fn entry_views(entries: Seq<Entry>) -> Seq<EntryView> {
    Seq::new(entries.len(), |i: int| entries[i]@)
}

pub open spec fn container_views(containers: Seq<Container>) -> Seq<ContainerView> {
    Seq::new(containers.len(), |i: int| containers[i]@)
}

pub open spec fn event_views(events: Seq<DiffEvent>) -> Seq<DiffEventView> {
    Seq::new(events.len(), |i: int| events[i]@)
}

/// The identifiers that occur among `entries`.
pub open spec fn ids_of(entries: Seq<EntryView>) -> Set<Seq<char>> {
    Set::new(|id: Seq<char>| exists|i: int| 0 <= i < entries.len() && #[trigger] entries[i].id == id)
}

/// The keys of `entries` as items of the container named `container`.
pub open spec fn keys_of(container: Seq<char>, entries: Seq<EntryView>) -> Set<EntryKey> {
    Set::new(|k: EntryKey| k.container == container && ids_of(entries).contains(k.entry))
}

/// The container `c` carrying `entries` in place of its own.
pub open spec fn restricted(c: ContainerView, entries: Seq<EntryView>) -> ContainerView {
    ContainerView { id: c.id, entries: entries, fields: c.fields }
}

/// The JSON objects of `entries`, in order.
pub open spec fn bodies_of(entries: Seq<EntryView>) -> Seq<Value> {
    Seq::new(entries.len(), |i: int| entries[i].body)
}

impl Clone for Entry {
    fn clone(&self) -> (r: Entry)
        ensures
            r@ == self@,
    {
        Entry { id: self.id.clone(), body: self.body.clone() }
    }
}

impl Clone for Container {
    fn clone(&self) -> (r: Container)
        ensures
            r@ == self@,
    {
        let entries = self.entries.clone();
        assert(entry_views(entries@) =~= entry_views(self.entries@));
        Container { id: self.id.clone(), entries: entries, fields: self.fields.clone() }
    }
}

impl Container {
    /// A copy of this container that carries `entries` in place of its own.
    pub fn restricted_to(&self, entries: Vec<Entry>) -> (r: Container)
        ensures
            r@ == restricted(self@, entry_views(entries@)),
    {
        Container { id: self.id.clone(), entries: entries, fields: self.fields.clone() }
    }
}

impl Clone for Batch {
    fn clone(&self) -> (r: Batch)
        ensures
            r@ == self@,
    {
        let containers = self.containers.clone();
        assert(container_views(containers@) =~= container_views(self.containers@));
        Batch { next_cursor: self.next_cursor.clone(), containers: containers }
    }
}

impl Clone for DiffEvent {
    fn clone(&self) -> (r: DiffEvent)
        ensures
            r@ == self@,
    {
        DiffEvent { kind: self.kind, container: self.container.clone() }
    }
}

} // verus!
