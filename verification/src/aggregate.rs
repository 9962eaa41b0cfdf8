//! Cross-connection aggregation and the shutdown signal.
//!
//! Every connection of one run produces a [`TransferResult`]; the pool (or
//! the server's handlers) folds them into one [`Aggregate`]. Byte counts
//! add commutatively, so contributions may arrive in any order; the
//! cumulative elapsed time is a compound read-modify-write and the caller
//! must serialize it — here that shows as `merge` taking `&mut self`.
//!
//! The [`ShutdownFlag`] is the one-way broadcast that stops the server's
//! accept loop: any handler may raise it, raising twice is the same as
//! raising once, and nothing ever clears it.

use vstd::prelude::*;

verus! {

/// What one connection's transfer loop produced: bytes moved and wall-clock
/// time from loop entry to exit.
#[derive(Copy, Clone, Debug, PartialEq, Eq, Structural)]
pub struct TransferResult {
    pub bytes: u64,
    pub elapsed_millis: u64,
}

impl TransferResult {
    pub fn new(bytes: u64, elapsed_millis: u64) -> (r: TransferResult)
        ensures
            r == (TransferResult { bytes, elapsed_millis }),
    {
        TransferResult { bytes, elapsed_millis }
    }

    /// The result of a connection that failed before transferring anything,
    /// a failed connect included: it contributes exactly zero bytes.
    pub fn failed() -> (r: TransferResult)
        ensures
            r == (TransferResult { bytes: 0, elapsed_millis: 0 }),
    {
        TransferResult { bytes: 0, elapsed_millis: 0 }
    }
}

/// The run-wide shared totals: bytes across all connections, cumulative
/// elapsed time, and a completed-connection count kept for observability.
#[derive(Copy, Clone, Debug, PartialEq, Eq, Structural)]
pub struct Aggregate {
    pub total_bytes: u64,
    pub total_elapsed_millis: u64,
    pub completed: u64,
}

/// `agg` after folding in `r`.
pub open spec fn spec_merge(agg: Aggregate, r: TransferResult) -> Aggregate {
    Aggregate {
        total_bytes: (agg.total_bytes + r.bytes) as u64,
        total_elapsed_millis: (agg.total_elapsed_millis + r.elapsed_millis) as u64,
        completed: (agg.completed + 1) as u64,
    }
}

impl Aggregate {
    /// Fresh counters for one run.
    pub fn new() -> (r: Aggregate)
        ensures
            r == (Aggregate { total_bytes: 0, total_elapsed_millis: 0, completed: 0 }),
    {
        Aggregate { total_bytes: 0, total_elapsed_millis: 0, completed: 0 }
    }

    /// Fold one connection's result into the totals. The caller holds the
    /// counters exclusively for the duration of the call.
    pub fn merge(&mut self, r: &TransferResult)
        requires
            old(self).total_bytes + r.bytes <= u64::MAX,
            old(self).total_elapsed_millis + r.elapsed_millis <= u64::MAX,
            old(self).completed < u64::MAX,
        ensures
            *final (self) == spec_merge(*old(self), *r),
            final (self).total_bytes == old(self).total_bytes + r.bytes,
            final (self).total_elapsed_millis == old(self).total_elapsed_millis
                + r.elapsed_millis,
            final (self).completed == old(self).completed + 1,
    {
        self.total_bytes = self.total_bytes + r.bytes;
        self.total_elapsed_millis = self.total_elapsed_millis + r.elapsed_millis;
        self.completed = self.completed + 1;
    }
}

/// The sum of the byte counts of a sequence of results.
pub open spec fn results_bytes(rs: Seq<TransferResult>) -> int
    decreases rs.len(),
{
    if rs.len() == 0 {
        0
    } else {
        results_bytes(rs.drop_last()) + rs.last().bytes
    }
}

/// The sum of the elapsed times of a sequence of results.
pub open spec fn results_elapsed(rs: Seq<TransferResult>) -> int
    decreases rs.len(),
{
    if rs.len() == 0 {
        0
    } else {
        results_elapsed(rs.drop_last()) + rs.last().elapsed_millis
    }
}

/// The aggregate after merging `rs` in order, from `init`.
pub open spec fn merge_all(init: Aggregate, rs: Seq<TransferResult>) -> Aggregate
    decreases rs.len(),
{
    if rs.len() == 0 {
        init
    } else {
        spec_merge(merge_all(init, rs.drop_last()), rs.last())
    }
}

pub proof fn lemma_results_bytes_nonneg(rs: Seq<TransferResult>)
    ensures
        results_bytes(rs) >= 0,
        results_elapsed(rs) >= 0,
    decreases rs.len(),
{
    if rs.len() > 0 {
        lemma_results_bytes_nonneg(rs.drop_last());
    }
}

/// Merging a batch of results adds exactly the sum of their bytes and of
/// their elapsed times, and counts every one of them once.
pub proof fn lemma_merge_all(init: Aggregate, rs: Seq<TransferResult>)
    requires
        init.total_bytes + results_bytes(rs) <= u64::MAX,
        init.total_elapsed_millis + results_elapsed(rs) <= u64::MAX,
        init.completed + rs.len() <= u64::MAX,
    ensures
        merge_all(init, rs).total_bytes == init.total_bytes + results_bytes(rs),
        merge_all(init, rs).total_elapsed_millis == init.total_elapsed_millis + results_elapsed(
            rs,
        ),
        merge_all(init, rs).completed == init.completed + rs.len(),
    decreases rs.len(),
{
    if rs.len() > 0 {
        lemma_results_bytes_nonneg(rs.drop_last());
        lemma_merge_all(init, rs.drop_last());
    }
}

/// Removing one result removes exactly its contribution from the sums.
pub proof fn lemma_results_bytes_remove(rs: Seq<TransferResult>, i: int)
    requires
        0 <= i < rs.len(),
    ensures
        results_bytes(rs.remove(i)) == results_bytes(rs) - rs[i].bytes,
        results_elapsed(rs.remove(i)) == results_elapsed(rs) - rs[i].elapsed_millis,
    decreases rs.len(),
{
    if i == rs.len() - 1 {
        assert(rs.remove(i) =~= rs.drop_last());
    } else {
        lemma_results_bytes_remove(rs.drop_last(), i);
        assert(rs.remove(i).drop_last() =~= rs.drop_last().remove(i));
        assert(rs.remove(i).last() == rs.last());
    }
}

/// The total is the same in whatever order the connections finish: two
/// sequences holding the same results (as a multiset) have the same byte
/// and elapsed-time sums.
pub proof fn lemma_results_order_independent(a: Seq<TransferResult>, b: Seq<TransferResult>)
    requires
        a.to_multiset() == b.to_multiset(),
    ensures
        results_bytes(a) == results_bytes(b),
        results_elapsed(a) == results_elapsed(b),
    decreases a.len(),
{
    broadcast use vstd::seq_lib::group_to_multiset_ensures;

    if a.len() == 0 {
        assert(a.to_multiset().len() == a.len());
        assert(b.to_multiset().len() == b.len());
        assert(b.len() == 0);
    } else {
        let x = a.last();
        assert(a.contains(x));
        assert(b.to_multiset().count(x) > 0);
        assert(b.contains(x));
        let j = choose|j: int| 0 <= j < b.len() && b[j] == x;
        assert(a.remove(a.len() - 1).to_multiset() == a.to_multiset().remove(x));
        assert(b.remove(j).to_multiset() == b.to_multiset().remove(x));
        assert(a.remove(a.len() - 1) =~= a.drop_last());
        lemma_results_order_independent(a.drop_last(), b.remove(j));
        lemma_results_bytes_remove(b, j);
    }
}

/// A connection that failed contributes exactly zero: dropping its result
/// from a batch leaves every sum unchanged, so it never prevents the others
/// from being counted.
pub proof fn lemma_failed_contributes_nothing(rs: Seq<TransferResult>, i: int)
    requires
        0 <= i < rs.len(),
        rs[i].bytes == 0,
        rs[i].elapsed_millis == 0,
    ensures
        results_bytes(rs.remove(i)) == results_bytes(rs),
        results_elapsed(rs.remove(i)) == results_elapsed(rs),
{
    lemma_results_bytes_remove(rs, i);
}

/// The write-once broadcast flag that stops the server's accept loop.
///
/// Any handler may raise it; in-flight connections are never cancelled by
/// it — only the accepting of new connections stops.
#[derive(Copy, Clone, Debug, PartialEq, Eq, Structural)]
pub struct ShutdownFlag {
    pub raised: bool,
}

impl ShutdownFlag {
    /// The flag at server start: not raised.
    pub fn new() -> (r: ShutdownFlag)
        ensures
            r == (ShutdownFlag { raised: false }),
    {
        ShutdownFlag { raised: false }
    }

    /// Raise the flag. Idempotent: the state afterwards is `raised`
    /// whatever it was before, so a second raise is a no-op, not an error,
    /// and nothing ever clears the flag.
    pub fn raise(&mut self)
        ensures
            *final (self) == (ShutdownFlag { raised: true }),
    {
        self.raised = true;
    }

    /// Whether the accept loop should keep accepting new connections.
    pub fn accepting(&self) -> (r: bool)
        ensures
            r == !self.raised,
    {
        !self.raised
    }
}

} // verus!
