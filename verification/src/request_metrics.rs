//! The bounded store of recorded HTTP requests.
//!
//! The store is a ring buffer with a capacity of at least one entry. Once it
//! is full, recording a new request evicts the oldest one, so the store
//! always holds the most recent requests, oldest first.

use crate::clock::now_secs;
use std::collections::VecDeque;
use vstd::prelude::*;

verus! {

/// Default maximum number of requests kept in the store.
pub const DEFAULT_MAX_REQUESTS: usize = 10_000;

/// A single HTTP request captured by the middleware. The duration type is
/// left to the caller (milliseconds as a float in the Python binding).
#[derive(Debug, Clone)]
pub struct RequestMetric<D> {
    pub method: String,
    pub path: String,
    pub status_code: u16,
    pub duration_ms: D,
    pub timestamp: u64,
}

impl<D: Copy> RequestMetric<D> {
    /// A field-by-field copy of this metric.
    pub fn copied(&self) -> (r: Self)
        ensures
            r == *self,
    {
        RequestMetric {
            method: self.method.clone(),
            path: self.path.clone(),
            status_code: self.status_code,
            duration_ms: self.duration_ms,
            timestamp: self.timestamp,
        }
    }
}

/// The last `cap` elements of `s` (all of `s` when it is not longer than `cap`).
pub open spec fn keep_newest<T>(s: Seq<T>, cap: nat) -> Seq<T> {
    if s.len() > cap {
        s.subrange(s.len() - cap, s.len() as int)
    } else {
        s
    }
}

/// What a store with capacity `cap` holds after starting from `start` and
/// recording each of `items` in turn, evicting the oldest entry past `cap`.
pub open spec fn after_records<T>(start: Seq<T>, items: Seq<T>, cap: nat) -> Seq<T>
    decreases items.len(),
{
    if items.len() == 0 {
        start
    } else {
        keep_newest(after_records(start, items.drop_last(), cap).push(items.last()), cap)
    }
}

/// Whether metric `m` carries exactly the given request fields.
pub open spec fn metric_has<D>(
    m: RequestMetric<D>,
    method: Seq<char>,
    path: Seq<char>,
    status_code: u16,
    duration_ms: D,
) -> bool {
    &&& m.method@ == method
    &&& m.path@ == path
    &&& m.status_code == status_code
    &&& m.duration_ms == duration_ms
}

/// Trimming before or after one more record gives the same window: keeping
/// the newest `cap` entries of (the newest `cap` of `s`) plus `x` is keeping
/// the newest `cap` entries of `s` plus `x`.
pub proof fn lemma_trim_then_record<T>(s: Seq<T>, x: T, cap: nat)
    ensures
        keep_newest(keep_newest(s, cap).push(x), cap) == keep_newest(s.push(x), cap),
{
    let t = keep_newest(s, cap);
    if s.len() > cap {
        assert(keep_newest(t.push(x), cap) =~= keep_newest(s.push(x), cap));
    } else {
        assert(t =~= s);
    }
}

/// The store is a sliding window over the whole history: starting from any
/// contents that fit, recording `items` one by one leaves exactly the newest
/// `cap` requests of everything recorded, oldest first.
pub proof fn lemma_records_keep_newest_window<T>(start: Seq<T>, items: Seq<T>, cap: nat)
    requires
        start.len() <= cap,
    ensures
        after_records(start, items, cap) == keep_newest(start + items, cap),
        after_records(start, items, cap).len() <= cap,
    decreases items.len(),
{
    if items.len() == 0 {
        assert(start + items =~= start);
    } else {
        let front = items.drop_last();
        lemma_records_keep_newest_window(start, front, cap);
        lemma_trim_then_record(start + front, items.last(), cap);
        assert((start + front).push(items.last()) =~= start + items);
    }
}

/// Bounded, oldest-first store of request metrics.
pub struct RequestStore<D> {
    entries: VecDeque<RequestMetric<D>>,
    cap: usize,
}

impl<D> RequestStore<D> {
    #[verifier::type_invariant]
    spec fn bounded(self) -> bool {
        &&& 1 <= self.cap
        &&& self.entries@.len() <= self.cap
    }

    /// The stored metrics, oldest first.
    pub closed spec fn entries(self) -> Seq<RequestMetric<D>> {
        self.entries@
    }

    /// The retention capacity.
    pub closed spec fn capacity(self) -> nat {
        self.cap as nat
    }

    /// An empty store with the default capacity.
    pub fn new() -> (s: Self)
        ensures
            s.entries() == Seq::<RequestMetric<D>>::empty(),
            s.capacity() == DEFAULT_MAX_REQUESTS,
    {
        RequestStore { entries: VecDeque::new(), cap: DEFAULT_MAX_REQUESTS }
    }

    /// The current retention capacity (always at least 1).
    pub fn max_requests(&self) -> (m: usize)
        ensures
            m == self.capacity(),
            m >= 1,
            self.entries().len() <= m,
    {
        proof {
            use_type_invariant(self);
        }
        self.cap
    }

    /// Number of stored metrics.
    pub fn len(&self) -> (n: usize)
        ensures
            n == self.entries().len(),
            n <= self.capacity(),
    {
        proof {
            use_type_invariant(self);
        }
        self.entries.len()
    }

    /// Sets the retention capacity; values below 1 are clamped to 1. When the
    /// store holds more than the new capacity, the oldest entries are evicted
    /// at once.
    pub fn set_max_requests(&mut self, max: usize)
        ensures
            final(self).capacity() == (if max < 1 { 1 } else { max }),
            final(self).entries() == keep_newest(old(self).entries(), final(self).capacity()),
            final(self).entries().len() <= final(self).capacity(),
    {
        proof {
            use_type_invariant(&*self);
        }
        let max: usize = if max < 1 {
            1
        } else {
            max
        };
        let mut entries: VecDeque<RequestMetric<D>> = VecDeque::new();
        std::mem::swap(&mut entries, &mut self.entries);
        let ghost start = entries@;
        while entries.len() > max
            invariant
                start.len() >= entries@.len(),
                entries@.len() == start.len() || entries@.len() >= max,
                entries@ == start.subrange(start.len() - entries@.len(), start.len() as int),
            decreases entries@.len(),
        {
            entries.pop_front();
        }
        assert(entries@ =~= keep_newest(start, max as nat));
        self.cap = max;
        self.entries = entries;
    }

    /// Records one metric, evicting the oldest entry when the store is full.
    pub fn push(&mut self, metric: RequestMetric<D>)
        ensures
            final(self).capacity() == old(self).capacity(),
            final(self).entries() == keep_newest(old(self).entries().push(metric), old(self).capacity()),
            final(self).entries().len() <= final(self).capacity(),
    {
        proof {
            use_type_invariant(&*self);
        }
        let mut entries: VecDeque<RequestMetric<D>> = VecDeque::new();
        std::mem::swap(&mut entries, &mut self.entries);
        let ghost start = entries@;
        if entries.len() >= self.cap {
            entries.pop_front();
        }
        entries.push_back(metric);
        assert(entries@ =~= keep_newest(start.push(metric), self.cap as nat));
        self.entries = entries;
    }

    /// Records a request observed at Unix time `timestamp` (seconds).
    pub fn record_at(
        &mut self,
        method: &str,
        path: &str,
        status_code: u16,
        duration_ms: D,
        timestamp: u64,
    )
        ensures
            final(self).capacity() == old(self).capacity(),
            final(self).entries().len() > 0,
            metric_has(final(self).entries().last(), method@, path@, status_code, duration_ms),
            final(self).entries().last().timestamp == timestamp,
            final(self).entries() == keep_newest(
                old(self).entries().push(final(self).entries().last()),
                old(self).capacity(),
            ),
    {
        proof {
            use_type_invariant(&*self);
        }
        let metric = RequestMetric {
            method: method.to_owned(),
            path: path.to_owned(),
            status_code,
            duration_ms,
            timestamp,
        };
        self.push(metric);
        proof {
            let s = old(self).entries().push(metric);
            assert(s.last() == metric);
            assert(keep_newest(s, old(self).capacity()).last() == metric);
        }
    }

    /// Records a request, stamped with the current Unix time in seconds.
    pub fn record(&mut self, method: &str, path: &str, status_code: u16, duration_ms: D)
        ensures
            final(self).capacity() == old(self).capacity(),
            final(self).entries().len() > 0,
            metric_has(final(self).entries().last(), method@, path@, status_code, duration_ms),
            final(self).entries() == keep_newest(
                old(self).entries().push(final(self).entries().last()),
                old(self).capacity(),
            ),
    {
        let timestamp: u64 = now_secs();
        self.record_at(method, path, status_code, duration_ms, timestamp);
    }

    /// Removes every stored metric; the capacity is unchanged.
    pub fn clear(&mut self)
        ensures
            final(self).capacity() == old(self).capacity(),
            final(self).entries() == Seq::<RequestMetric<D>>::empty(),
    {
        proof {
            use_type_invariant(&*self);
        }
        self.entries = VecDeque::new();
    }
}

impl<D: Copy> RequestStore<D> {
    /// A copy of every stored metric, oldest first.
    pub fn get_all(&self) -> (all: Vec<RequestMetric<D>>)
        ensures
            all@ == self.entries(),
    {
        let mut all: Vec<RequestMetric<D>> = Vec::new();
        let n: usize = self.entries.len();
        let mut i: usize = 0;
        while i < n
            invariant
                n == self.entries@.len(),
                i <= n,
                all@ == self.entries@.subrange(0, i as int),
            decreases n - i,
        {
            all.push(self.entries[i].copied());
            i += 1;
            assert(all@ =~= self.entries@.subrange(0, i as int));
        }
        assert(self.entries@.subrange(0, n as int) =~= self.entries@);
        all
    }
}

} // verus!
