//! The reconciler: post-run comparison of local and remote counts.
//!
//! After a run drains, the harness holds its own success counter and
//! fetches one final snapshot from the aggregate store. The reconciler
//! diffs the two: an exact match verifies the run, a mismatch reports
//! which side is higher and by how much. It never retries and never
//! corrects — it only reports.

use vstd::prelude::*;
use crate::aggregate::Aggregate;
use crate::aggregate::Snapshot;
use crate::aggregate::snapshot_matches;
use crate::dispatcher::Dispatcher;

verus! {

/// The verdict of a run: either both sides agree exactly, or one side
/// counted more, by the stated amount.
#[derive(Clone, Copy, PartialEq, Eq, Structural, Debug)]
pub enum Reconciliation {
    Match,
    LocalHigher { diff: u64 },
    RemoteHigher { diff: u64 },
}

/// What reconciling a local success count against a remote total reports.
pub open spec fn spec_reconcile(local: u64, remote: u64) -> Reconciliation {
    if local == remote {
        Reconciliation::Match
    } else if local > remote {
        Reconciliation::LocalHigher { diff: (local - remote) as u64 }
    } else {
        Reconciliation::RemoteHigher { diff: (remote - local) as u64 }
    }
}

/// Compare the dispatcher's local success counter against the snapshot's
/// total count and report the discrepancy, if any.
pub fn reconcile(local_succeeded: u64, remote_total: u64) -> (r: Reconciliation)
    ensures
        r == spec_reconcile(local_succeeded, remote_total),
{
    if local_succeeded == remote_total {
        Reconciliation::Match
    } else if local_succeeded > remote_total {
        Reconciliation::LocalHigher { diff: local_succeeded - remote_total }
    } else {
        Reconciliation::RemoteHigher { diff: remote_total - local_succeeded }
    }
}

/// Reconciliation of a clean run: when the store's accepted history holds
/// exactly one event per attempt the dispatcher counted as a success, the
/// final snapshot's total equals the local success counter and the
/// reconciler reports a match.
pub proof fn lemma_clean_run_reconciles(d: Dispatcher, a: Aggregate, s: Snapshot)
    requires
        d.wf(),
        a.wf(),
        snapshot_matches(a, s),
        a.history().len() == d.succeeded(),
    ensures
        spec_reconcile(d.succeeded(), s.total_count) == Reconciliation::Match,
{
}

} // verus!
