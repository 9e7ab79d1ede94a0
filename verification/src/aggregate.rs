//! The aggregate store: a running summary of every accepted event.
//!
//! The store keeps three running totals — how many events were accepted,
//! the fixed-point sum of their values, and the set of distinct user
//! identifiers seen — and answers point-in-time snapshots of all three.
//! Distinct-user tracking is held in a `dashmap::DashSet`, the sharded
//! concurrent set the surrounding service shares between request handlers;
//! the library speaks of its contents through the trusted boundary below.
//!
//! A ghost history of the accepted events accompanies the store. The
//! well-formedness invariant ties every executable field to that history,
//! so conservation (no accepted event is ever lost or double-counted)
//! is part of the store's contract rather than a hope.

use vstd::prelude::*;
use dashmap::DashSet;

verus! {

/// Fixed-point scale: one stored unit is `1 / SCALE` of a real value unit.
pub const SCALE: u64 = 1_000_000;

// ------------------------------------------------------------------
// Trusted boundary to dashmap's concurrent set.
// ------------------------------------------------------------------

#[verifier::external_type_specification]
#[verifier::external_body]
#[verifier::reject_recursive_types(K)]
#[verifier::reject_recursive_types(S)]
pub struct ExDashSet<K, S>(dashmap::DashSet<K, S>);

/// The mathematical contents of a `DashSet<String>`: the set of views of
/// the keys it currently holds.
pub uninterp spec fn user_set(s: DashSet<String>) -> Set<Seq<char>>;

/// Relies on `dashmap::DashSet::new`, which creates an empty set.
#[verifier::external_body]
fn user_set_new() -> (s: DashSet<String>)
    ensures
        user_set(s) == Set::<Seq<char>>::empty(),
{
    DashSet::new()
}

/// Relies on `dashmap::DashSet::insert`, which adds the key to the set and
/// returns whether it was absent; a re-insertion of a present key leaves
/// the set unchanged. The set itself takes insertions through a shared
/// reference; this wrapper demands exclusive access so that the mutation
/// of the contents is visible in its contract.
#[verifier::external_body]
fn user_set_insert(s: &mut DashSet<String>, key: String) -> (fresh: bool)
    ensures
        user_set(*final(s)) == user_set(*old(s)).insert(key@),
        fresh == !user_set(*old(s)).contains(key@),
{
    s.insert(key)
}

/// Relies on `dashmap::DashSet::len`, which reports the number of keys the
/// set currently holds.
#[verifier::external_body]
fn user_set_count(s: &DashSet<String>) -> (n: usize)
    ensures
        user_set(*s).finite() ==> n == user_set(*s).len(),
{
    s.len()
}

// ------------------------------------------------------------------
// Events and errors.
// ------------------------------------------------------------------

/// An event is admissible when its user identifier is non-empty.
pub open spec fn valid_user_id(user: Seq<char>) -> bool {
    user.len() > 0
}

/// The store's only rejection: a malformed event.
#[derive(Clone, Copy, PartialEq, Eq, Structural, Debug)]
pub enum IngestError {
    InvalidEvent,
}

// ------------------------------------------------------------------
// The accepted-event history and its derived quantities.
// ------------------------------------------------------------------

/// Sum of the fixed-point values of a sequence of accepted events.
pub open spec fn sum_values(h: Seq<(Seq<char>, u64)>) -> int
    decreases h.len(),
{
    if h.len() == 0 {
        0
    } else {
        sum_values(h.drop_last()) + h.last().1
    }
}

/// The set of user identifiers occurring in a sequence of accepted events.
pub open spec fn id_set(h: Seq<(Seq<char>, u64)>) -> Set<Seq<char>>
    decreases h.len(),
{
    if h.len() == 0 {
        Set::empty()
    } else {
        id_set(h.drop_last()).insert(h.last().0)
    }
}

/// How many events of the sequence carry an identifier not seen earlier in
/// the sequence: the number of distinct users the sequence introduces.
pub open spec fn fresh_count(h: Seq<(Seq<char>, u64)>) -> int
    decreases h.len(),
{
    if h.len() == 0 {
        0
    } else {
        fresh_count(h.drop_last()) + if id_set(h.drop_last()).contains(h.last().0) {
            0int
        } else {
            1int
        }
    }
}

proof fn lemma_push_unfold(h: Seq<(Seq<char>, u64)>, e: (Seq<char>, u64))
    ensures
        sum_values(h.push(e)) == sum_values(h) + e.1,
        id_set(h.push(e)) == id_set(h).insert(e.0),
{
    assert(h.push(e).drop_last() =~= h);
    assert(h.push(e).last() == e);
}

/// An identifier set is finite and never larger than the history that
/// produced it.
pub proof fn lemma_id_set_bounds(h: Seq<(Seq<char>, u64)>)
    ensures
        id_set(h).finite(),
        id_set(h).len() <= h.len(),
    decreases h.len(),
{
    broadcast use vstd::set::group_set_axioms;

    if h.len() == 0 {
    } else {
        lemma_id_set_bounds(h.drop_last());
        vstd::set::axiom_set_insert_len(id_set(h.drop_last()), h.last().0);
    }
}

// ------------------------------------------------------------------
// The store itself.
// ------------------------------------------------------------------

/// The process-wide aggregate: running totals plus the distinct-user set.
pub struct Aggregate {
    total_count: u64,
    sum_scaled: u64,
    user_ids: DashSet<String>,
    history: Ghost<Seq<(Seq<char>, u64)>>,
}

impl Aggregate {
    /// The accepted events, in order of completion.
    pub closed spec fn history(self) -> Seq<(Seq<char>, u64)> {
        self.history@
    }

    /// Number of accepted events.
    pub closed spec fn count(self) -> u64 {
        self.total_count
    }

    /// Fixed-point running sum of accepted values.
    pub closed spec fn sum(self) -> u64 {
        self.sum_scaled
    }

    /// The distinct user identifiers seen so far.
    pub closed spec fn users(self) -> Set<Seq<char>> {
        user_set(self.user_ids)
    }

    /// The store's invariant: each executable field agrees exactly with
    /// the ghost history of accepted events.
    pub open spec fn wf(self) -> bool {
        &&& self.count() == self.history().len()
        &&& self.sum() == sum_values(self.history())
        &&& self.users() == id_set(self.history())
        &&& forall|i: int|
            0 <= i < self.history().len() ==> valid_user_id(#[trigger] self.history()[i].0)
    }

    /// A fresh store: nothing accepted yet.
    pub fn new() -> (a: Aggregate)
        ensures
            a.wf(),
            a.history() == Seq::<(Seq<char>, u64)>::empty(),
            a.count() == 0,
            a.sum() == 0,
            a.users() == Set::<Seq<char>>::empty(),
    {
        let user_ids = user_set_new();
        Aggregate {
            total_count: 0,
            sum_scaled: 0,
            user_ids,
            history: Ghost(Seq::empty()),
        }
    }

    /// Absorb one event: count it, add its fixed-point value to the sum,
    /// and record its user identifier. An empty identifier is rejected and
    /// leaves the store untouched. The counter and sum bounds in the
    /// precondition are the machine limits of the `u64` accumulators.
    pub fn accept(&mut self, user_id: String, value_scaled: u64) -> (r: Result<(), IngestError>)
        requires
            old(self).wf(),
            old(self).count() < u64::MAX,
            old(self).sum() + value_scaled <= u64::MAX,
        ensures
            final(self).wf(),
            valid_user_id(user_id@) ==> {
                &&& r is Ok
                &&& final(self).history() == old(self).history().push((user_id@, value_scaled))
                &&& final(self).count() == old(self).count() + 1
                &&& final(self).sum() == old(self).sum() + value_scaled
                &&& final(self).users() == old(self).users().insert(user_id@)
            },
            !valid_user_id(user_id@) ==> {
                &&& r == Result::<(), IngestError>::Err(IngestError::InvalidEvent)
                &&& *final(self) == *old(self)
            },
    {
        if user_id.as_str().is_empty() {
            return Err(IngestError::InvalidEvent);
        }
        let ghost uid = user_id@;
        self.total_count = self.total_count + 1;
        self.sum_scaled = self.sum_scaled + value_scaled;
        let _fresh = user_set_insert(&mut self.user_ids, user_id);
        self.history = Ghost(self.history@.push((uid, value_scaled)));
        proof {
            lemma_push_unfold(old(self).history(), (uid, value_scaled));
            assert forall|i: int|
                0 <= i < self.history().len() implies valid_user_id(
                #[trigger] self.history()[i].0,
            ) by {
                if i < old(self).history().len() {
                    assert(self.history()[i] == old(self).history()[i]);
                } else {
                    assert(self.history()[i] == (uid, value_scaled));
                }
            }
        }
        Ok(())
    }

    /// Read a point-in-time summary. Each field is read from its own
    /// backing store; the result is fully determined by the aggregate's
    /// current state.
    pub fn snapshot(&self) -> (s: Snapshot)
        requires
            self.wf(),
        ensures
            snapshot_matches(*self, s),
    {
        proof {
            lemma_id_set_bounds(self.history());
        }
        let total = self.total_count;
        let sum = self.sum_scaled;
        let uniq = user_set_count(&self.user_ids);
        let avg = if total > 0 {
            sum / total
        } else {
            0
        };
        Snapshot { total_count: total, unique_users: uniq as u64, sum_scaled: sum, avg_scaled: avg }
    }
}

// ------------------------------------------------------------------
// Snapshots.
// ------------------------------------------------------------------

/// An immutable point-in-time read of the aggregate. All quantities are in
/// fixed-point units; `avg_scaled` is the truncated per-event mean.
#[derive(Clone, Copy, PartialEq, Eq, Structural, Debug)]
pub struct Snapshot {
    pub total_count: u64,
    pub unique_users: u64,
    pub sum_scaled: u64,
    pub avg_scaled: u64,
}

/// The truncated fixed-point average: `sum / count` when any event was
/// counted, and zero otherwise.
pub open spec fn spec_avg(sum: u64, count: u64) -> int {
    if count > 0 {
        sum as int / count as int
    } else {
        0
    }
}

/// What a snapshot of a given aggregate state must report.
pub open spec fn snapshot_matches(a: Aggregate, s: Snapshot) -> bool {
    &&& s.total_count == a.count()
    &&& s.unique_users == a.users().len()
    &&& s.sum_scaled == a.sum()
    &&& s.avg_scaled == spec_avg(a.sum(), a.count())
}

// ------------------------------------------------------------------
// Laws of the store.
// ------------------------------------------------------------------

/// Conservation: a snapshot of a well-formed aggregate reports exactly
/// one count per accepted event — none lost, none doubled — and its
/// fixed-point sum is exactly the sum of the accepted values. The only
/// rounding in the whole pipeline is therefore the one scaling per event
/// at intake, so the accumulated error stays below one unit per event.
pub proof fn lemma_conservation(a: Aggregate, s: Snapshot)
    requires
        a.wf(),
        snapshot_matches(a, s),
    ensures
        s.total_count == a.history().len(),
        s.sum_scaled == sum_values(a.history()),
{
}

/// Distinct-user correctness: the set of users a history produces has
/// exactly as many members as the history has events whose identifier was
/// not seen earlier — reused identifiers never inflate the count.
pub proof fn lemma_distinct_users(h: Seq<(Seq<char>, u64)>)
    ensures
        id_set(h).len() == fresh_count(h),
    decreases h.len(),
{
    broadcast use vstd::set::group_set_axioms;

    if h.len() == 0 {
    } else {
        lemma_distinct_users(h.drop_last());
        lemma_id_set_bounds(h.drop_last());
        vstd::set::axiom_set_insert_len(id_set(h.drop_last()), h.last().0);
    }
}

/// Distinct-user correctness of the store: a snapshot's `unique_users`
/// equals the number of accepted events that carried a not-yet-seen
/// identifier — reused identifiers never inflate it.
pub proof fn lemma_unique_users(a: Aggregate, s: Snapshot)
    requires
        a.wf(),
        snapshot_matches(a, s),
    ensures
        s.unique_users == fresh_count(a.history()),
{
    lemma_distinct_users(a.history());
}

/// Average consistency: a snapshot's fixed-point average is the truncated
/// quotient of its sum by its count whenever anything was counted, and
/// zero otherwise.
pub proof fn lemma_average_consistency(a: Aggregate, s: Snapshot)
    requires
        a.wf(),
        snapshot_matches(a, s),
    ensures
        s.total_count > 0 ==> s.avg_scaled == s.sum_scaled as int / s.total_count as int,
        s.total_count == 0 ==> s.avg_scaled == 0,
{
}

/// An identifier is in a history's identifier set exactly when some event
/// of the history carries it.
pub proof fn lemma_id_set_membership(h: Seq<(Seq<char>, u64)>, u: Seq<char>)
    ensures
        id_set(h).contains(u) <==> exists|i: int| 0 <= i < h.len() && h[i].0 == u,
    decreases h.len(),
{
    broadcast use vstd::set::group_set_axioms;

    if h.len() == 0 {
    } else {
        lemma_id_set_membership(h.drop_last(), u);
        if id_set(h).contains(u) {
            if h.last().0 == u {
                assert(h[h.len() - 1].0 == u);
            } else {
                let i = choose|i: int| 0 <= i < h.drop_last().len() && h.drop_last()[i].0 == u;
                assert(h[i].0 == u);
            }
        }
        if exists|i: int| 0 <= i < h.len() && h[i].0 == u {
            let i = choose|i: int| 0 <= i < h.len() && h[i].0 == u;
            if i < h.len() - 1 {
                assert(h.drop_last()[i].0 == u);
            }
        }
    }
}

/// When a history's identifiers are pairwise distinct, every event
/// introduces a fresh user, so the distinct-user count equals the event
/// count — this is what a clean run of the harness produces, since its
/// synthetic identifiers are injective in the request index.
pub proof fn lemma_all_distinct(h: Seq<(Seq<char>, u64)>)
    requires
        forall|i: int, j: int| 0 <= i < j < h.len() ==> h[i].0 != h[j].0,
    ensures
        fresh_count(h) == h.len(),
    decreases h.len(),
{
    if h.len() == 0 {
    } else {
        let dl = h.drop_last();
        assert forall|i: int, j: int| 0 <= i < j < dl.len() implies dl[i].0 != dl[j].0 by {
            assert(dl[i] == h[i]);
            assert(dl[j] == h[j]);
        }
        lemma_all_distinct(dl);
        lemma_id_set_membership(dl, h.last().0);
        if id_set(dl).contains(h.last().0) {
            let i = choose|i: int| 0 <= i < dl.len() && dl[i].0 == h.last().0;
            assert(h[i].0 == h[h.len() - 1].0);
        }
    }
}

/// Idempotent reads: two snapshots of the same aggregate state, with no
/// accept between them, are identical in all four fields.
pub proof fn lemma_snapshot_idempotent(a: Aggregate, s1: Snapshot, s2: Snapshot)
    requires
        snapshot_matches(a, s1),
        snapshot_matches(a, s2),
    ensures
        s1 == s2,
{
}

} // verus!
