//! Synchronising a single collection that the caller names by id or by the
//! name under which it is stored.

use crate::error::unexpected;
use crate::error::unexpected_event;
use crate::error::Error;
use crate::sync::account::Run;
use crate::sync::account::RunView;
use crate::sync::collection::start_spec;
use crate::sync::collection::step_spec;
use crate::sync::collection::CollectionSync;
use crate::sync::collection::CollectionView;
use crate::sync::collection::Progress;
use crate::sync::collection::ProgressView;
use crate::sync::protocol::Event;
use crate::sync::protocol::EventView;
use crate::sync::protocol::Request;
use crate::sync::protocol::RequestView;
use crate::sync::report::empty_report;
use crate::sync::report::with_success;
use crate::sync::report::SyncReport;
use crate::sync::IdOrName;
use vstd::prelude::*;

verus! {

/// The mathematical content of a [`WordsetSync`].
pub enum WordsetView {
    /// Waits for persistence to resolve this name.
    Naming(String),
    /// Waits on behalf of the collection.
    Running(CollectionView),
}

/// What a collection's own progress means for the run that holds it alone:
/// a request is passed on, the end gives the report of one collection, and
/// a stop is the failure of the run.
pub open spec fn lift(id: i32, progress: ProgressView) -> RunView<WordsetView> {
    match progress {
        ProgressView::Next(c, request) => RunView::Next(WordsetView::Running(c), request),
        ProgressView::Done(stored) => RunView::Done(with_success(empty_report(), id, stored)),
        ProgressView::Failed { reason, persisted } => RunView::Failed(reason),
    }
}

/// How the synchronisation of the named collection begins. An id leads to
/// the collection at once; a name is first looked up in persistence.
pub open spec fn start_wordset_spec(selector: IdOrName) -> RunView<WordsetView> {
    match selector {
        IdOrName::Id(id) => lift(id, start_spec(id, None)),
        IdOrName::Name(name) => RunView::Next(
            WordsetView::Naming(name),
            RequestView::CollectionIdByName(name),
        ),
    }
}

/// The decision that the synchronisation takes on `event`.
///
/// A name that persistence does not know ends the run with `NotFound` and
/// that name; one that it knows leads to the collection with the id found.
/// From then on every event belongs to the collection.
pub open spec fn wordset_step_spec(w: WordsetView, event: EventView) -> RunView<WordsetView> {
    match w {
        WordsetView::Naming(name) => match event {
            EventView::Failed(reason) => RunView::Failed(reason),
            EventView::NameResolved(Some(id)) => lift(id, start_spec(id, None)),
            EventView::NameResolved(None) => RunView::Failed(Error::NotFound(name)),
            _ => RunView::Failed(unexpected()),
        },
        WordsetView::Running(c) => lift(c.id, step_spec(c, event)),
    }
}

#[derive(Debug)]
enum WordsetStage {
    Naming(String),
    Running(CollectionSync),
}

/// The synchronisation of a single collection, between two requests.
#[derive(Debug)]
pub struct WordsetSync {
    stage: WordsetStage,
}

impl View for WordsetSync {
    type V = WordsetView;

    closed spec fn view(&self) -> WordsetView {
        match self.stage {
            WordsetStage::Naming(name) => WordsetView::Naming(name),
            WordsetStage::Running(c) => WordsetView::Running(c@),
        }
    }
}

impl WordsetSync {
    fn lift(id: i32, progress: Progress) -> (r: Run<WordsetSync>)
        ensures
            r@ == lift(id, progress@),
    {
        match progress {
            Progress::Next(c, request) => Run::Next(
                WordsetSync { stage: WordsetStage::Running(c) },
                request,
            ),
            Progress::Done(stored) => {
                let mut report = SyncReport::new();
                report.record_success(id, stored);
                Run::Done(report)
            },
            Progress::Failed { reason, persisted } => Run::Failed(reason),
        }
    }

    /// Begins the synchronisation of the collection that `selector` names.
    pub fn start(selector: IdOrName) -> (r: Run<WordsetSync>)
        ensures
            r@ == start_wordset_spec(selector),
    {
        match selector {
            IdOrName::Id(id) => Self::lift(id, CollectionSync::start(id, None)),
            IdOrName::Name(name) => {
                let asked = name.clone();
                Run::Next(
                    WordsetSync { stage: WordsetStage::Naming(name) },
                    Request::CollectionIdByName(asked),
                )
            },
        }
    }

    /// Takes the answer to the pending request and decides what comes next.
    pub fn step(self, event: Event) -> (r: Run<WordsetSync>)
        ensures
            r@ == wordset_step_spec(self@, event@),
    {
        match self.stage {
            WordsetStage::Naming(name) => match event {
                Event::Failed(reason) => Run::Failed(reason),
                Event::NameResolved(Some(id)) => Self::lift(id, CollectionSync::start(id, None)),
                Event::NameResolved(None) => Run::Failed(Error::NotFound(name)),
                _ => Run::Failed(unexpected_event()),
            },
            WordsetStage::Running(c) => {
                let id = c.id();
                Self::lift(id, c.step(event))
            },
        }
    }
}

} // verus!
