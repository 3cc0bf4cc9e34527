//! What is handed to the handlers: one message per event, as JSON text, and
//! after the messages of a batch the signal to reload.

use crate::decode::{field_of, list_field};
use crate::json::{
    array, array_value, member, object, object_value, render, rendered, set_member, with_member,
};
use crate::model::{
    bodies_of, entry_views, event_views, Container, ContainerView, DiffEvent, DiffEventView, Entry,
    EventKind,
};
use serde_json::Value;
use vstd::prelude::*;

verus! {

/// One thing to hand to the handlers.
#[derive(Debug, PartialEq, Eq)]
pub enum Delivery {
    /// An event, with the container it reports as JSON text.
    Event { kind: EventKind, payload: String },
    /// The signal to drop whatever the handlers have cached.
    Reload,
}

/// What a [`Delivery`] stands for.
pub ghost enum DeliveryView {
    Event { kind: EventKind, payload: Seq<char> },
    Reload,
}

impl View for Delivery {
    type V = DeliveryView;

    open spec fn view(&self) -> DeliveryView {
        match self {
            Delivery::Event { kind, payload } => DeliveryView::Event {
                kind: *kind,
                payload: payload@,
            },
            Delivery::Reload => DeliveryView::Reload,
        }
    }
}

pub open spec fn delivery_views(deliveries: Seq<Delivery>) -> Seq<DeliveryView> {
    Seq::new(deliveries.len(), |i: int| deliveries[i]@)
}

/// The JSON object that reports `c`: the members of the container as they
/// came, with `items` replaced by the array of the entries that `c` carries.
pub open spec fn event_object(c: ContainerView) -> Value {
    object_value(with_member(c.fields, "items"@, array_value(bodies_of(c.entries))))
}

/// The JSON text that reports `c`.
pub open spec fn encoded(c: ContainerView) -> Seq<char> {
    rendered(event_object(c))
}

/// The channel that a delivery goes to: an event to the channel of its
/// kind, the reload signal to the channel of `Add` events.
pub open spec fn channel_of(d: DeliveryView) -> EventKind {
    match d {
        DeliveryView::Event { kind, .. } => kind,
        DeliveryView::Reload => EventKind::Add,
    }
}

/// The deliveries of one batch: a message for each event, in order, and then
/// the reload signal.
pub open spec fn deliveries_for(events: Seq<DiffEventView>) -> Seq<DeliveryView> {
    Seq::new(
        events.len() + 1,
        |i: int|
            if i < events.len() {
                DeliveryView::Event { kind: events[i].kind, payload: encoded(events[i].container) }
            } else {
                DeliveryView::Reload
            },
    )
}

fn bodies(entries: &Vec<Entry>) -> (r: Vec<Value>)
    ensures
        r@ == bodies_of(entry_views(entries@)),
{
    let mut out: Vec<Value> = Vec::new();
    let mut i: usize = 0;
    while i < entries.len()
        invariant
            i <= entries.len(),
            out.len() == i,
            forall|j: int| 0 <= j < i ==> out[j] == entries[j].body,
        decreases entries.len() - i,
    {
        out.push(entries[i].body.clone());
        i += 1;
    }
    assert(out@ =~= bodies_of(entry_views(entries@)));
    out
}

/// Builds the JSON object that reports `c`. Under `items` it holds the
/// entries that `c` carries, in their order; every other member is as it came
/// with the container.
pub fn event_value(c: &Container) -> (r: Value)
    ensures
        r == event_object(c@),
        list_field(r, "items"@) == Some(bodies_of(c@.entries)),
        forall|key: Seq<char>| key != "items"@ ==> field_of(r, key) == member(c@.fields, key),
{
    let mut fields = c.fields.clone();
    set_member(&mut fields, "items", array(bodies(&c.entries)));
    object(fields)
}

/// Writes the JSON text that reports `c`.
pub fn encode(c: &Container) -> (r: String)
    ensures
        r@ == encoded(c@),
{
    render(&event_value(c))
}

impl Clone for Delivery {
    fn clone(&self) -> (r: Delivery)
        ensures
            r@ == self@,
    {
        match self {
            Delivery::Event { kind, payload } => Delivery::Event {
                kind: *kind,
                payload: payload.clone(),
            },
            Delivery::Reload => Delivery::Reload,
        }
    }
}

impl Delivery {
    /// The channel this delivery goes to.
    pub fn channel(&self) -> (r: EventKind)
        ensures
            r == channel_of(self@),
    {
        match self {
            Delivery::Event { kind, .. } => *kind,
            Delivery::Reload => EventKind::Add,
        }
    }
}

/// Plans the deliveries of one batch from its events.
pub fn plan(events: &Vec<DiffEvent>) -> (r: Vec<Delivery>)
    ensures
        delivery_views(r@) == deliveries_for(event_views(events@)),
{
    let mut out: Vec<Delivery> = Vec::new();
    let mut i: usize = 0;
    while i < events.len()
        invariant
            i <= events.len(),
            out.len() == i,
            forall|j: int|
                0 <= j < i ==> out[j]@ == (DeliveryView::Event {
                    kind: events[j].kind,
                    payload: encoded(events[j].container@),
                }),
        decreases events.len() - i,
    {
        let e = &events[i];
        out.push(Delivery::Event { kind: e.kind, payload: encode(&e.container) });
        i += 1;
    }
    out.push(Delivery::Reload);
    assert(delivery_views(out@) =~= deliveries_for(event_views(events@)));
    out
}

/// The reload signal is delivered exactly once for a batch, and only after
/// every event of the batch.
pub proof fn lemma_reload_once_and_last(events: Seq<DiffEventView>)
    ensures
        deliveries_for(events).len() == events.len() + 1,
        deliveries_for(events).last() is Reload,
        forall|i: int|
            0 <= i < events.len() ==> (#[trigger] deliveries_for(events)[i]) is Event,
        forall|i: int|
            0 <= i < deliveries_for(events).len() && (#[trigger] deliveries_for(events)[i]) is Reload
                ==> i == events.len(),
{
}

} // verus!
