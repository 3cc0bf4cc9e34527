//! Reading feed responses: from the bytes of a response body to a cursor or
//! a batch.
//!
//! A bootstrap response is a JSON object with a string member
//! `next_change_id`. A feed response has that member too, and a member
//! `stashes`: an array of objects, each with a string member `id` and an
//! array member `items` of objects that each have a string member `id`.
//! Anything else is a parse error.

use crate::json::{elements_of, get, member, object_of, parse, parsed, text_of};
use crate::model::{
    container_views, entry_views, Batch, BatchView, Container, ContainerView, Entry, EntryView,
};
use serde_json::Value;
use vstd::prelude::*;

verus! {

/// Why a fetch gave no batch.
#[derive(Clone, Copy, Debug, PartialEq, Eq, Structural)]
pub enum FeedError {
    /// The request failed: no connection, a timeout, or a status that is not
    /// a success.
    Network,
    /// The body is not JSON, or lacks a member that is required.
    Parse,
}

/// The member of the JSON object `v` under `key`; `None` where `v` is no
/// object or has no such member.
pub open spec fn field_of(v: Value, key: Seq<char>) -> Option<Value> {
    match object_of(v) {
        Some(m) => member(m, key),
        None => None,
    }
}

/// The text of the string member of `v` under `key`.
pub open spec fn text_field(v: Value, key: Seq<char>) -> Option<Seq<char>> {
    match field_of(v, key) {
        Some(f) => text_of(f),
        None => None,
    }
}

/// The elements of the array member of `v` under `key`.
pub open spec fn list_field(v: Value, key: Seq<char>) -> Option<Seq<Value>> {
    match field_of(v, key) {
        Some(f) => elements_of(f),
        None => None,
    }
}

/// The cursor that the response `v` names as the next one.
pub open spec fn cursor_in(v: Value) -> Option<Seq<char>> {
    text_field(v, "next_change_id"@)
}

/// The entry that the JSON value `item` describes.
pub open spec fn entry_in(item: Value) -> Option<EntryView> {
    match text_field(item, "id"@) {
        Some(id) => Some(EntryView { id: id, body: item }),
        None => None,
    }
}

/// The entries that `items` describe, if each of them describes one.
pub open spec fn entries_in(items: Seq<Value>) -> Option<Seq<EntryView>> {
    if forall|i: int| 0 <= i < items.len() ==> (#[trigger] entry_in(items[i])) is Some {
        Some(Seq::new(items.len(), |i: int| entry_in(items[i]).unwrap()))
    } else {
        None
    }
}

/// The container that the JSON value `stash` describes.
pub open spec fn container_in(stash: Value) -> Option<ContainerView> {
    match (object_of(stash), text_field(stash, "id"@), list_field(stash, "items"@)) {
        (Some(fields), Some(id), Some(items)) => match entries_in(items) {
            Some(entries) => Some(ContainerView { id: id, entries: entries, fields: fields }),
            None => None,
        },
        _ => None,
    }
}

/// The containers that `stashes` describe, if each of them describes one.
pub open spec fn containers_in(stashes: Seq<Value>) -> Option<Seq<ContainerView>> {
    if forall|i: int| 0 <= i < stashes.len() ==> (#[trigger] container_in(stashes[i])) is Some {
        Some(Seq::new(stashes.len(), |i: int| container_in(stashes[i]).unwrap()))
    } else {
        None
    }
}

/// The batch that the feed response `v` describes.
pub open spec fn batch_in(v: Value) -> Option<BatchView> {
    match (cursor_in(v), list_field(v, "stashes"@)) {
        (Some(next), Some(stashes)) => match containers_in(stashes) {
            Some(containers) => Some(BatchView { next_cursor: next, containers: containers }),
            None => None,
        },
        _ => None,
    }
}

/// The batch that the bytes of a feed response describe.
pub open spec fn batch_of(body: Seq<u8>) -> Option<BatchView> {
    match parsed(body) {
        Some(v) => batch_in(v),
        None => None,
    }
}

/// The cursor that the bytes of a bootstrap response name.
pub open spec fn cursor_of(body: Seq<u8>) -> Option<Seq<char>> {
    match parsed(body) {
        Some(v) => cursor_in(v),
        None => None,
    }
}

fn field<'a>(v: &'a Value, key: &str) -> (r: Option<&'a Value>)
    ensures
        match r {
            Some(f) => field_of(*v, key@) == Some(*f),
            None => field_of(*v, key@) is None,
        },
{
    match v.as_object() {
        Some(m) => get(m, key),
        None => None,
    }
}

fn text<'a>(v: &'a Value, key: &str) -> (r: Option<&'a str>)
    ensures
        match r {
            Some(s) => text_field(*v, key@) == Some(s@),
            None => text_field(*v, key@) is None,
        },
{
    match field(v, key) {
        Some(f) => f.as_str(),
        None => None,
    }
}

fn list<'a>(v: &'a Value, key: &str) -> (r: Option<&'a Vec<Value>>)
    ensures
        match r {
            Some(a) => list_field(*v, key@) == Some(a@),
            None => list_field(*v, key@) is None,
        },
{
    match field(v, key) {
        Some(f) => f.as_array(),
        None => None,
    }
}

/// Reads the cursor to continue from out of a response.
pub fn cursor_from(v: &Value) -> (r: Result<String, FeedError>)
    ensures
        match r {
            Ok(c) => cursor_in(*v) == Some(c@),
            Err(e) => e == FeedError::Parse && cursor_in(*v) is None,
        },
{
    match text(v, "next_change_id") {
        Some(s) => Ok(s.to_owned()),
        None => Err(FeedError::Parse),
    }
}

/// Reads one entry out of the JSON value that describes it.
pub fn entry_from(item: &Value) -> (r: Result<Entry, FeedError>)
    ensures
        match r {
            Ok(e) => entry_in(*item) == Some(e@),
            Err(e) => e == FeedError::Parse && entry_in(*item) is None,
        },
{
    match text(item, "id") {
        Some(id) => Ok(Entry { id: id.to_owned(), body: item.clone() }),
        None => Err(FeedError::Parse),
    }
}

fn entries_from(items: &Vec<Value>) -> (r: Result<Vec<Entry>, FeedError>)
    ensures
        match r {
            Ok(es) => entries_in(items@) == Some(entry_views(es@)),
            Err(e) => e == FeedError::Parse && entries_in(items@) is None,
        },
{
    let mut out: Vec<Entry> = Vec::new();
    let mut i: usize = 0;
    while i < items.len()
        invariant
            i <= items.len(),
            out.len() == i,
            forall|j: int| 0 <= j < i ==> (#[trigger] entry_in(items[j])) == Some(out[j]@),
        decreases items.len() - i,
    {
        match entry_from(&items[i]) {
            Ok(e) => out.push(e),
            Err(e) => {
                assert(entry_in(items[i as int]) is None);
                return Err(e);
            },
        }
        i += 1;
    }
    assert(entries_in(items@).unwrap() =~= entry_views(out@));
    Ok(out)
}

/// Reads one container out of the JSON value that describes it.
pub fn container_from(stash: &Value) -> (r: Result<Container, FeedError>)
    ensures
        match r {
            Ok(c) => container_in(*stash) == Some(c@),
            Err(e) => e == FeedError::Parse && container_in(*stash) is None,
        },
{
    let fields = match stash.as_object() {
        Some(m) => m,
        None => { return Err(FeedError::Parse); },
    };
    let id = match text(stash, "id") {
        Some(s) => s,
        None => { return Err(FeedError::Parse); },
    };
    let items = match list(stash, "items") {
        Some(a) => a,
        None => { return Err(FeedError::Parse); },
    };
    match entries_from(items) {
        Ok(entries) => Ok(Container { id: id.to_owned(), entries: entries, fields: fields.clone() }),
        Err(e) => Err(e),
    }
}

fn containers_from(stashes: &Vec<Value>) -> (r: Result<Vec<Container>, FeedError>)
    ensures
        match r {
            Ok(cs) => containers_in(stashes@) == Some(container_views(cs@)),
            Err(e) => e == FeedError::Parse && containers_in(stashes@) is None,
        },
{
    let mut out: Vec<Container> = Vec::new();
    let mut i: usize = 0;
    while i < stashes.len()
        invariant
            i <= stashes.len(),
            out.len() == i,
            forall|j: int| 0 <= j < i ==> (#[trigger] container_in(stashes[j])) == Some(out[j]@),
        decreases stashes.len() - i,
    {
        match container_from(&stashes[i]) {
            Ok(c) => out.push(c),
            Err(e) => {
                assert(container_in(stashes[i as int]) is None);
                return Err(e);
            },
        }
        i += 1;
    }
    assert(containers_in(stashes@).unwrap() =~= container_views(out@));
    Ok(out)
}

/// Reads a batch out of a feed response that has been parsed as JSON.
pub fn batch_from(v: &Value) -> (r: Result<Batch, FeedError>)
    ensures
        match r {
            Ok(b) => batch_in(*v) == Some(b@),
            Err(e) => e == FeedError::Parse && batch_in(*v) is None,
        },
{
    let next = match cursor_from(v) {
        Ok(c) => c,
        Err(e) => { return Err(e); },
    };
    let stashes = match list(v, "stashes") {
        Some(a) => a,
        None => { return Err(FeedError::Parse); },
    };
    match containers_from(stashes) {
        Ok(containers) => Ok(Batch { next_cursor: next, containers: containers }),
        Err(e) => Err(e),
    }
}

/// Reads a batch out of the bytes of a feed response.
pub fn decode_batch(body: &[u8]) -> (r: Result<Batch, FeedError>)
    ensures
        match r {
            Ok(b) => batch_of(body@) == Some(b@),
            Err(e) => e == FeedError::Parse && batch_of(body@) is None,
        },
{
    match parse(body) {
        Ok(v) => batch_from(&v),
        Err(_) => Err(FeedError::Parse),
    }
}

/// Reads the initial cursor out of the bytes of a bootstrap response.
pub fn decode_cursor(body: &[u8]) -> (r: Result<String, FeedError>)
    ensures
        match r {
            Ok(c) => cursor_of(body@) == Some(c@),
            Err(e) => e == FeedError::Parse && cursor_of(body@) is None,
        },
{
    match parse(body) {
        Ok(v) => cursor_from(&v),
        Err(_) => Err(FeedError::Parse),
    }
}

} // verus!
