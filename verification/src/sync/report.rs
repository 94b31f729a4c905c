//! What a synchronisation reports when it is over.

use crate::error::Error;
use vstd::prelude::*;

verus! {

/// A collection whose synchronisation stopped, and why.
#[derive(Debug, Clone, PartialEq, Eq)]
pub struct Failure {
    pub collection: i32,
    pub reason: Error,
}

/// The summary of a synchronisation.
#[derive(Debug, Clone, PartialEq, Eq)]
pub struct SyncReport {
    /// The ids of the collections that were synchronised to the end, in the
    /// order in which they were taken.
    pub processed: Vec<i32>,
    /// The collections whose synchronisation stopped, in that order.
    pub failed: Vec<Failure>,
    /// The ids of the entries that were stored, in the order of storing.
    pub persisted: Vec<i32>,
}

/// The mathematical content of a [`SyncReport`].
pub struct ReportView {
    pub processed: Seq<i32>,
    pub failed: Seq<Failure>,
    pub persisted: Seq<i32>,
}

impl View for SyncReport {
    type V = ReportView;

    open spec fn view(&self) -> ReportView {
        ReportView {
            processed: self.processed@,
            failed: self.failed@,
            persisted: self.persisted@,
        }
    }
}

/// The report of a synchronisation that has not done anything.
pub open spec fn empty_report() -> ReportView {
    ReportView { processed: Seq::empty(), failed: Seq::empty(), persisted: Seq::empty() }
}

/// `report` after the collection `id` was synchronised to the end and the
/// entries `stored` were stored for it.
pub open spec fn with_success(report: ReportView, id: i32, stored: Seq<i32>) -> ReportView {
    ReportView {
        processed: report.processed.push(id),
        failed: report.failed,
        persisted: report.persisted + stored,
    }
}

/// `report` after the synchronisation of the collection `id` stopped for
/// `reason`, the entries `stored` having been stored for it before.
pub open spec fn with_failure(report: ReportView, id: i32, reason: Error, stored: Seq<i32>) -> ReportView {
    ReportView {
        processed: report.processed,
        failed: report.failed.push(Failure { collection: id, reason }),
        persisted: report.persisted + stored,
    }
}

impl SyncReport {
    /// The report of a synchronisation that has not done anything.
    pub fn new() -> (r: SyncReport)
        ensures
            r@ == empty_report(),
    {
        SyncReport { processed: Vec::new(), failed: Vec::new(), persisted: Vec::new() }
    }

    /// Notes that the collection `id` was synchronised to the end, and which
    /// entries were stored for it.
    pub fn record_success(&mut self, id: i32, stored: Vec<i32>)
        ensures
            final(self)@ == with_success(old(self)@, id, stored@),
    {
        let mut stored = stored;
        self.processed.push(id);
        self.persisted.append(&mut stored);
    }

    /// Notes that the synchronisation of the collection `id` stopped, why,
    /// and which entries had been stored for it before.
    pub fn record_failure(&mut self, id: i32, reason: Error, stored: Vec<i32>)
        ensures
            final(self)@ == with_failure(old(self)@, id, reason, stored@),
    {
        let mut stored = stored;
        self.failed.push(Failure { collection: id, reason });
        self.persisted.append(&mut stored);
    }
}

} // verus!
