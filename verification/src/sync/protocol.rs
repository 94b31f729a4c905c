//! What a synchronisation asks its driver to do, and what the driver
//! reports back. The driver owns the network and the storage; the
//! synchronisation owns every decision.

use crate::client::models::DefaultWordset;
use crate::client::models::Meaning;
use crate::client::models::Word;
use crate::client::models::Wordset;
use crate::client::models::WordsResp;
use crate::client::models::WordsetsResp;
use crate::error::Error;
use crate::pagination::PageRequest;
use vstd::prelude::*;

verus! {

/// One thing to do for a synchronisation. Each request is answered by the
/// event that its description names, or by `Event::Failed`.
#[derive(Debug, Clone, PartialEq, Eq)]
pub enum Request {
    /// Look the name up among the stored collections; answered by
    /// `NameResolved`. Does not touch the remote account.
    CollectionIdByName(String),
    /// Fetch one page of the list of collections; answered by
    /// `CollectionsPage`.
    FetchCollections(PageRequest),
    /// Fetch the default collection; answered by `DefaultCollection`.
    FetchDefault,
    /// Ask persistence whether the collection is stored; answered by
    /// `Exists`.
    CollectionExists(i32),
    /// Store the collection under this id and name; answered by
    /// `CollectionInserted`.
    InsertCollection(i32, String),
    /// Fetch one page of the members of the collection; answered by
    /// `MembersPage`.
    FetchMembers { collection: i32, page: PageRequest },
    /// Resolve these entry ids to entries, in one remote call; answered by
    /// `Resolved`.
    Resolve(Vec<i32>),
    /// Ask persistence which of these ids it does not hold; answered by
    /// `Unknown`.
    UnknownIds(Vec<i32>),
    /// Store these entries under the collection, not exported; answered by
    /// `EntriesInserted`.
    InsertEntries { entries: Vec<Meaning>, collection: i32 },
}

/// What came of the last request.
#[derive(Debug, Clone, PartialEq, Eq)]
pub enum Event {
    NameResolved(Option<i32>),
    CollectionsPage(WordsetsResp),
    DefaultCollection(DefaultWordset),
    Exists(bool),
    CollectionInserted,
    MembersPage(WordsResp),
    Resolved(Vec<Meaning>),
    Unknown(Vec<i32>),
    EntriesInserted,
    /// The request could not be carried out.
    Failed(Error),
}

/// The mathematical content of a [`Request`].
pub enum RequestView {
    CollectionIdByName(String),
    FetchCollections(PageRequest),
    FetchDefault,
    CollectionExists(i32),
    InsertCollection(i32, String),
    FetchMembers { collection: i32, page: PageRequest },
    Resolve(Seq<i32>),
    UnknownIds(Seq<i32>),
    InsertEntries { entries: Seq<Meaning>, collection: i32 },
}

impl View for Request {
    type V = RequestView;

    open spec fn view(&self) -> RequestView {
        match *self {
            Request::CollectionIdByName(name) => RequestView::CollectionIdByName(name),
            Request::FetchCollections(page) => RequestView::FetchCollections(page),
            Request::FetchDefault => RequestView::FetchDefault,
            Request::CollectionExists(id) => RequestView::CollectionExists(id),
            Request::InsertCollection(id, name) => RequestView::InsertCollection(id, name),
            Request::FetchMembers { collection, page } => RequestView::FetchMembers {
                collection,
                page,
            },
            Request::Resolve(ids) => RequestView::Resolve(ids@),
            Request::UnknownIds(ids) => RequestView::UnknownIds(ids@),
            Request::InsertEntries { entries, collection } => RequestView::InsertEntries {
                entries: entries@,
                collection,
            },
        }
    }
}

/// The mathematical content of an [`Event`]: of a page, the total that it
/// declares and its items; of the default collection, the collection.
pub enum EventView {
    NameResolved(Option<i32>),
    CollectionsPage { total: int, items: Seq<Wordset> },
    DefaultCollection(Wordset),
    Exists(bool),
    CollectionInserted,
    MembersPage { total: int, items: Seq<Word> },
    Resolved(Seq<Meaning>),
    Unknown(Seq<i32>),
    EntriesInserted,
    Failed(Error),
}

impl View for Event {
    type V = EventView;

    open spec fn view(&self) -> EventView {
        match *self {
            Event::NameResolved(id) => EventView::NameResolved(id),
            Event::CollectionsPage(resp) => EventView::CollectionsPage {
                total: resp.meta.total as int,
                items: resp.data@,
            },
            Event::DefaultCollection(default) => EventView::DefaultCollection(
                Wordset { id: default.id, title: default.title },
            ),
            Event::Exists(stored) => EventView::Exists(stored),
            Event::CollectionInserted => EventView::CollectionInserted,
            Event::MembersPage(resp) => EventView::MembersPage {
                total: resp.meta.total as int,
                items: resp.data@,
            },
            Event::Resolved(entries) => EventView::Resolved(entries@),
            Event::Unknown(ids) => EventView::Unknown(ids@),
            Event::EntriesInserted => EventView::EntriesInserted,
            Event::Failed(reason) => EventView::Failed(reason),
        }
    }
}

} // verus!
