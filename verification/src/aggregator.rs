//! The integer part of the request statistics: which requests count as
//! errors, and how many of them a batch of recorded requests holds.

use crate::request_metrics::RequestMetric;
use vstd::prelude::*;

verus! {

/// A request with this status code counts as an error.
pub open spec fn is_error_status(status_code: u16) -> bool {
    status_code >= 400
}

/// `status_code >= 400`.
pub fn is_error(status_code: u16) -> (r: bool)
    ensures
        r == is_error_status(status_code),
{
    status_code >= 400
}

/// Number of error statuses in `statuses`.
pub open spec fn error_count(statuses: Seq<u16>) -> nat
    decreases statuses.len(),
{
    if statuses.len() == 0 {
        0
    } else {
        error_count(statuses.drop_last()) + if is_error_status(statuses.last()) { 1nat } else { 0nat }
    }
}

/// The status codes of `metrics`, in order.
pub open spec fn statuses<D>(metrics: Seq<RequestMetric<D>>) -> Seq<u16> {
    metrics.map_values(|m: RequestMetric<D>| m.status_code)
}

/// There are never more errors than statuses.
pub proof fn lemma_error_count_bounded(statuses: Seq<u16>)
    ensures
        error_count(statuses) <= statuses.len(),
    decreases statuses.len(),
{
    if statuses.len() > 0 {
        lemma_error_count_bounded(statuses.drop_last());
    }
}

/// Number of requests in `metrics` whose status is an error (>= 400).
pub fn count_errors<D>(metrics: &Vec<RequestMetric<D>>) -> (n: u64)
    ensures
        n == error_count(statuses(metrics@)),
{
    let len: usize = metrics.len();
    let mut n: u64 = 0;
    let mut i: usize = 0;
    while i < len
        invariant
            len == metrics@.len(),
            i <= len,
            n == error_count(statuses(metrics@.subrange(0, i as int))),
            n <= i,
        decreases len - i,
    {
        let ghost prefix = metrics@.subrange(0, i as int);
        let ghost next = metrics@.subrange(0, i + 1);
        assert(statuses(next).drop_last() =~= statuses(prefix));
        assert(statuses(next).last() == metrics@[i as int].status_code);
        if is_error(metrics[i].status_code) {
            n = n + 1;
        }
        i += 1;
    }
    assert(metrics@.subrange(0, len as int) =~= metrics@);
    n
}

/// A status counts as an error exactly when it is 400 or above, for every
/// status code.
pub proof fn lemma_error_means_at_least_400()
    ensures
        forall|s: u16| #[trigger] is_error_status(s) <==> s >= 400,
{
}

/// The error count of a list of statuses is the number of statuses that
/// are 400 or above.
pub proof fn lemma_error_count_counts_at_least_400(statuses: Seq<u16>)
    ensures
        error_count(statuses) == statuses.filter(|s: u16| s >= 400).len(),
    decreases statuses.len(),
{
    reveal_with_fuel(Seq::filter, 1);
    if statuses.len() > 0 {
        lemma_error_count_counts_at_least_400(statuses.drop_last());
    }
}

} // verus!
