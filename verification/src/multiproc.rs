//! Multi-worker aggregation: the layout of a worker's shard of counters, how
//! a request is folded into it, how shards of live workers are merged, and
//! the decisions that switch the shared mode on and off.
//!
//! A shard is a flat array of `SHARD_LEN_U64` unsigned 64-bit slots. The file
//! handling and the memory mapping stay with the caller; every function here
//! works on the slot values.

use crate::aggregator::{error_count, is_error, is_error_status};
use crate::text::{decimal, decimal_value, lemma_decimal_injective, lemma_decimal_reads_back, ends_with, has_prefix, has_suffix, is_blank, is_blank_str, starts_with, to_decimal};
use vstd::prelude::*;

verus! {

/// Version tag stored in slot `I_VERSION` of every shard of this layout.
pub const FORMAT_VERSION: u64 = 1;

pub const I_VERSION: usize = 0;
pub const I_PID: usize = 1;
pub const I_TOTAL: usize = 2;
pub const I_ERRORS: usize = 3;
pub const I_SUM_US: usize = 4;
pub const I_MIN_US: usize = 5;
pub const I_MAX_US: usize = 6;
pub const I_HEARTBEAT: usize = 7;
pub const I_BUCKETS_START: usize = 8;

/// Inclusive upper bounds, in milliseconds, of the finite latency buckets.
/// A last, open-ended bucket counts everything above the last bound.
pub const BUCKET_BOUNDS_MS: [u64; 13] = [1, 2, 5, 10, 25, 50, 100, 250, 500, 1000, 2500, 5000, 10000];

/// Number of histogram buckets: the finite bounds plus the overflow bucket.
pub const NUM_BUCKETS: usize = 14;

/// Number of slots in a shard, and the shard file's size in bytes.
pub const SHARD_LEN_U64: usize = I_BUCKETS_START + NUM_BUCKETS;
pub const SHARD_BYTES: usize = SHARD_LEN_U64 * 8;

/// Stored in the minimum-latency slot while no sample has been recorded.
pub const MIN_EMPTY: u64 = u64::MAX;

pub open spec fn min_u64(a: u64, b: u64) -> u64 {
    if a <= b { a } else { b }
}

pub open spec fn max_u64(a: u64, b: u64) -> u64 {
    if a >= b { a } else { b }
}

/// `a + b`, wrapping at 2^64 as an atomic `fetch_add` does.
pub open spec fn wrap_add(a: u64, b: u64) -> u64 {
    vstd::wrapping::u64_specs::wrapping_add(a, b)
}

/// `a + b`, saturating at `u64::MAX`.
pub open spec fn sat_add(a: u64, b: u64) -> u64 {
    if a + b > u64::MAX { u64::MAX } else { (a + b) as u64 }
}

/// The slots of a freshly initialized shard owned by `pid`.
pub open spec fn fresh_shard(pid: u32, now: u64) -> Seq<u64> {
    Seq::new(
        SHARD_LEN_U64 as nat,
        |i: int|
            if i == I_VERSION {
                FORMAT_VERSION
            } else if i == I_PID {
                pid as u64
            } else if i == I_MIN_US {
                MIN_EMPTY
            } else if i == I_HEARTBEAT {
                now
            } else {
                0u64
            },
    )
}

/// The shard already carries this layout and belongs to `pid`.
pub open spec fn is_current_shard(s: Seq<u64>, pid: u32) -> bool {
    s[I_VERSION as int] == FORMAT_VERSION && s[I_PID as int] == pid as u64
}

/// Resets the slots of the shard that process `pid` writes: a fresh header
/// (this layout's version and `pid`), zeroed counters and buckets, an empty
/// minimum, and `now` as heartbeat.
pub fn reset_shard(slots: &mut Vec<u64>, pid: u32, now: u64)
    requires
        old(slots)@.len() == SHARD_LEN_U64,
    ensures
        final(slots)@ == fresh_shard(pid, now),
{
    let mut i: usize = 0;
    while i < slots.len()
        invariant
            slots@.len() == SHARD_LEN_U64,
            i <= SHARD_LEN_U64,
            forall|j: int| 0 <= j < i ==> slots@[j] == 0,
        decreases SHARD_LEN_U64 - i,
    {
        slots.set(i, 0);
        i += 1;
    }
    slots.set(I_VERSION, FORMAT_VERSION);
    slots.set(I_PID, pid as u64);
    slots.set(I_MIN_US, MIN_EMPTY);
    slots.set(I_HEARTBEAT, now);
    assert(slots@ =~= fresh_shard(pid, now));
}

/// Prepares the slots of the shard that process `pid` picks up on its
/// first use of the directory named in the environment: a shard that
/// already carries this layout and `pid` is kept as it is (its counters
/// survive); any other content is reset. Returns whether it was kept.
pub fn prepare_shard(slots: &mut Vec<u64>, pid: u32, now: u64) -> (kept: bool)
    requires
        old(slots)@.len() == SHARD_LEN_U64,
    ensures
        kept == is_current_shard(old(slots)@, pid),
        final(slots)@ == (if kept { old(slots)@ } else { fresh_shard(pid, now) }),
{
    let same: bool = slots[I_VERSION] == FORMAT_VERSION && slots[I_PID] == pid as u64;
    if !same {
        reset_shard(slots, pid, now);
    }
    same
}

/// The slots after folding in one request with status `status_code`,
/// latency `us` microseconds, falling in histogram bucket `bucket`, at
/// Unix time `now`.
pub open spec fn recorded(s: Seq<u64>, status_code: u16, us: u64, bucket: int, now: u64) -> Seq<u64> {
    s.update(I_TOTAL as int, wrap_add(s[I_TOTAL as int], 1))
        .update(
        I_ERRORS as int,
        if is_error_status(status_code) {
            wrap_add(s[I_ERRORS as int], 1)
        } else {
            s[I_ERRORS as int]
        },
    ).update(I_SUM_US as int, wrap_add(s[I_SUM_US as int], us))
        .update(I_MIN_US as int, min_u64(s[I_MIN_US as int], us))
        .update(I_MAX_US as int, max_u64(s[I_MAX_US as int], us))
        .update(I_BUCKETS_START + bucket, wrap_add(s[I_BUCKETS_START + bucket], 1))
        .update(I_HEARTBEAT as int, now)
}

/// Folds one request into this worker's shard: the request and error
/// counters, the latency sum (all wrapping, as atomic adds do), the latency
/// minimum and maximum, the request's histogram bucket, and the heartbeat.
pub fn record(slots: &mut Vec<u64>, status_code: u16, duration_us: u64, bucket: usize, now: u64)
    requires
        old(slots)@.len() == SHARD_LEN_U64,
        bucket < NUM_BUCKETS,
    ensures
        final(slots)@ == recorded(old(slots)@, status_code, duration_us, bucket as int, now),
{
    let total: u64 = slots[I_TOTAL].wrapping_add(1);
    slots.set(I_TOTAL, total);
    if is_error(status_code) {
        let errors: u64 = slots[I_ERRORS].wrapping_add(1);
        slots.set(I_ERRORS, errors);
    }
    let sum: u64 = slots[I_SUM_US].wrapping_add(duration_us);
    slots.set(I_SUM_US, sum);
    let min: u64 = if slots[I_MIN_US] <= duration_us {
        slots[I_MIN_US]
    } else {
        duration_us
    };
    slots.set(I_MIN_US, min);
    let max: u64 = if slots[I_MAX_US] >= duration_us {
        slots[I_MAX_US]
    } else {
        duration_us
    };
    slots.set(I_MAX_US, max);
    let b: u64 = slots[I_BUCKETS_START + bucket].wrapping_add(1);
    slots.set(I_BUCKETS_START + bucket, b);
    slots.set(I_HEARTBEAT, now);
    assert(slots@ =~= recorded(old(slots)@, status_code, duration_us, bucket as int, now));
}

/// Counters merged across the shards of all live workers.
pub struct Merged {
    pub total: u64,
    pub errors: u64,
    pub sum_us: u64,
    /// `MIN_EMPTY` when no shard recorded a sample.
    pub min_us: u64,
    pub max_us: u64,
    pub buckets: [u64; 14],
}

/// The mathematical value of a `Merged`.
pub struct MergedView {
    pub total: u64,
    pub errors: u64,
    pub sum_us: u64,
    pub min_us: u64,
    pub max_us: u64,
    pub buckets: Seq<u64>,
}

impl View for Merged {
    type V = MergedView;

    open spec fn view(&self) -> MergedView {
        MergedView {
            total: self.total,
            errors: self.errors,
            sum_us: self.sum_us,
            min_us: self.min_us,
            max_us: self.max_us,
            buckets: self.buckets@,
        }
    }
}

/// The value of a merge over no shard at all.
pub open spec fn empty_merged() -> MergedView {
    MergedView {
        total: 0,
        errors: 0,
        sum_us: 0,
        min_us: MIN_EMPTY,
        max_us: 0,
        buckets: Seq::new(NUM_BUCKETS as nat, |i: int| 0u64),
    }
}

/// Histogram bucket `i` of the shard slots `s`.
pub open spec fn shard_bucket(s: Seq<u64>, i: int) -> u64 {
    s[I_BUCKETS_START + i]
}

/// Merging the shard `s` into `m` overflows none of the counters that are
/// summed exactly (the request and error totals and the buckets).
pub open spec fn merge_fits(m: MergedView, s: Seq<u64>) -> bool {
    &&& m.total + s[I_TOTAL as int] <= u64::MAX
    &&& m.errors + s[I_ERRORS as int] <= u64::MAX
    &&& forall|i: int| 0 <= i < NUM_BUCKETS ==> #[trigger] m.buckets[i] + shard_bucket(s, i) <= u64::MAX
}

/// `m` with the counters of shard `s` added in: totals and buckets summed,
/// the latency sum saturating, the minimum ignoring an empty shard, the
/// maximum taken over both.
pub open spec fn merge_view(m: MergedView, s: Seq<u64>) -> MergedView {
    MergedView {
        total: (m.total + s[I_TOTAL as int]) as u64,
        errors: (m.errors + s[I_ERRORS as int]) as u64,
        sum_us: sat_add(m.sum_us, s[I_SUM_US as int]),
        min_us: if s[I_MIN_US as int] != MIN_EMPTY {
            min_u64(m.min_us, s[I_MIN_US as int])
        } else {
            m.min_us
        },
        max_us: max_u64(m.max_us, s[I_MAX_US as int]),
        buckets: Seq::new(NUM_BUCKETS as nat, |i: int| (m.buckets[i] + shard_bucket(s, i)) as u64),
    }
}

impl Merged {
    /// The merge over no shard: zero counters and an empty minimum.
    pub fn new() -> (m: Self)
        ensures
            m@ == empty_merged(),
    {
        let m = Merged {
            total: 0,
            errors: 0,
            sum_us: 0,
            min_us: MIN_EMPTY,
            max_us: 0,
            buckets: [0u64; 14],
        };
        assert(m.buckets@ =~= empty_merged().buckets);
        m
    }

    /// The smallest recorded latency in microseconds, or `None` when no
    /// merged shard recorded a sample.
    pub fn observed_min_us(&self) -> (r: Option<u64>)
        ensures
            r == (if self.min_us == MIN_EMPTY { None } else { Some(self.min_us) }),
    {
        if self.min_us == MIN_EMPTY {
            None
        } else {
            Some(self.min_us)
        }
    }

    /// Whether merging `slots` into `self` stays clear of overflow.
    pub fn merge_fits(&self, slots: &[u64]) -> (r: bool)
        requires
            slots@.len() == SHARD_LEN_U64,
        ensures
            r == merge_fits(self@, slots@),
    {
        if self.total > u64::MAX - slots[I_TOTAL] || self.errors > u64::MAX - slots[I_ERRORS] {
            return false;
        }
        let mut i: usize = 0;
        while i < NUM_BUCKETS
            invariant
                slots@.len() == SHARD_LEN_U64,
                i <= NUM_BUCKETS,
                forall|j: int| 0 <= j < i ==> #[trigger] self@.buckets[j] + shard_bucket(slots@, j) <= u64::MAX,
            decreases NUM_BUCKETS - i,
        {
            if self.buckets[i] > u64::MAX - slots[I_BUCKETS_START + i] {
                assert(self@.buckets[i as int] + shard_bucket(slots@, i as int) > u64::MAX);
                return false;
            }
            i += 1;
        }
        true
    }

    /// Adds the counters of one live worker's shard.
    pub fn merge_shard(&mut self, slots: &[u64])
        requires
            slots@.len() == SHARD_LEN_U64,
            merge_fits(old(self)@, slots@),
        ensures
            final(self)@ == merge_view(old(self)@, slots@),
    {
        let ghost start = self@;
        self.total = self.total + slots[I_TOTAL];
        self.errors = self.errors + slots[I_ERRORS];
        self.sum_us = self.sum_us.saturating_add(slots[I_SUM_US]);
        let min: u64 = slots[I_MIN_US];
        if min != MIN_EMPTY {
            if min < self.min_us {
                self.min_us = min;
            }
        }
        if slots[I_MAX_US] > self.max_us {
            self.max_us = slots[I_MAX_US];
        }
        let mut i: usize = 0;
        while i < NUM_BUCKETS
            invariant
                slots@.len() == SHARD_LEN_U64,
                i <= NUM_BUCKETS,
                self.buckets@.len() == NUM_BUCKETS,
                merge_fits(start, slots@),
                self.total == merge_view(start, slots@).total,
                self.errors == merge_view(start, slots@).errors,
                self.sum_us == merge_view(start, slots@).sum_us,
                self.min_us == merge_view(start, slots@).min_us,
                self.max_us == merge_view(start, slots@).max_us,
                forall|j: int| 0 <= j < i ==> self.buckets@[j] == start.buckets[j] + shard_bucket(slots@, j),
                forall|j: int| i <= j < NUM_BUCKETS ==> self.buckets@[j] == start.buckets[j],
            decreases NUM_BUCKETS - i,
        {
            assert(start.buckets[i as int] + shard_bucket(slots@, i as int) <= u64::MAX);
            self.buckets[i] = self.buckets[i] + slots[I_BUCKETS_START + i];
            i += 1;
        }
        assert(self@.buckets =~= merge_view(start, slots@).buckets);
    }
}

/// Merging shards is order-independent: adding shard `a` then shard `b`
/// gives the same counters as adding `b` then `a`, and neither order
/// overflows when the first does not.
pub proof fn lemma_merge_order_irrelevant(m: MergedView, a: Seq<u64>, b: Seq<u64>)
    requires
        m.buckets.len() == NUM_BUCKETS,
        a.len() == SHARD_LEN_U64,
        b.len() == SHARD_LEN_U64,
        merge_fits(m, a),
        merge_fits(merge_view(m, a), b),
    ensures
        merge_fits(m, b),
        merge_fits(merge_view(m, b), a),
        merge_view(merge_view(m, a), b) == merge_view(merge_view(m, b), a),
{
    let ab = merge_view(merge_view(m, a), b);
    let ba = merge_view(merge_view(m, b), a);
    assert forall|i: int| 0 <= i < NUM_BUCKETS implies #[trigger] m.buckets[i] + shard_bucket(b, i) <= u64::MAX by {
        assert(merge_view(m, a).buckets[i] + shard_bucket(b, i) <= u64::MAX);
    }
    assert forall|i: int| 0 <= i < NUM_BUCKETS implies #[trigger] merge_view(m, b).buckets[i] + shard_bucket(a, i) <= u64::MAX by {
        assert(merge_view(m, a).buckets[i] + shard_bucket(b, i) <= u64::MAX);
    }
    assert(ab.buckets =~= ba.buckets);
}

/// A freshly prepared shard, which has recorded nothing yet, changes no
/// merged counter.
pub proof fn lemma_fresh_shard_merges_as_nothing(m: MergedView, pid: u32, now: u64)
    requires
        m.buckets.len() == NUM_BUCKETS,
    ensures
        merge_fits(m, fresh_shard(pid, now)),
        merge_view(m, fresh_shard(pid, now)) == m,
{
    let f = fresh_shard(pid, now);
    assert(merge_view(m, f).buckets =~= m.buckets);
}

/// Sum of a sequence of counters.
pub open spec fn seq_sum(s: Seq<u64>) -> int
    decreases s.len(),
{
    if s.len() == 0 {
        0
    } else {
        seq_sum(s.drop_last()) + s.last()
    }
}

/// The histogram buckets of shard slots `s`.
pub open spec fn shard_buckets(s: Seq<u64>) -> Seq<u64> {
    s.subrange(I_BUCKETS_START as int, SHARD_LEN_U64 as int)
}

/// The histogram of shard `s` accounts for every request it counted.
pub open spec fn histogram_consistent(s: Seq<u64>) -> bool {
    seq_sum(shard_buckets(s)) == s[I_TOTAL as int]
}

proof fn lemma_sum_update(s: Seq<u64>, i: int, v: u64)
    requires
        0 <= i < s.len(),
    ensures
        seq_sum(s.update(i, v)) == seq_sum(s) - s[i] + v,
    decreases s.len(),
{
    let u = s.update(i, v);
    if i == s.len() - 1 {
        assert(u.drop_last() =~= s.drop_last());
    } else {
        assert(u.drop_last() =~= s.drop_last().update(i, v));
        lemma_sum_update(s.drop_last(), i, v);
    }
}

proof fn lemma_elem_le_sum(s: Seq<u64>, i: int)
    requires
        0 <= i < s.len(),
    ensures
        s[i] <= seq_sum(s),
        seq_sum(s) >= 0,
    decreases s.len(),
{
    lemma_sum_nonneg(s.drop_last());
    if i < s.len() - 1 {
        lemma_elem_le_sum(s.drop_last(), i);
    }
}

proof fn lemma_sum_nonneg(s: Seq<u64>)
    ensures
        seq_sum(s) >= 0,
    decreases s.len(),
{
    if s.len() > 0 {
        lemma_sum_nonneg(s.drop_last());
    }
}

proof fn lemma_sum_pointwise(a: Seq<u64>, b: Seq<u64>, c: Seq<u64>)
    requires
        a.len() == b.len(),
        b.len() == c.len(),
        forall|i: int| 0 <= i < c.len() ==> c[i] == a[i] + b[i],
    ensures
        seq_sum(c) == seq_sum(a) + seq_sum(b),
    decreases c.len(),
{
    if c.len() > 0 {
        lemma_sum_pointwise(a.drop_last(), b.drop_last(), c.drop_last());
    }
}

proof fn lemma_sum_zeros(s: Seq<u64>)
    requires
        forall|i: int| 0 <= i < s.len() ==> s[i] == 0,
    ensures
        seq_sum(s) == 0,
    decreases s.len(),
{
    if s.len() > 0 {
        lemma_sum_zeros(s.drop_last());
    }
}

/// A freshly prepared shard has a consistent (empty) histogram.
pub proof fn lemma_fresh_shard_consistent(pid: u32, now: u64)
    ensures
        histogram_consistent(fresh_shard(pid, now)),
{
    lemma_sum_zeros(shard_buckets(fresh_shard(pid, now)));
}

/// Recording a request keeps the histogram in step with the request
/// counter: when the buckets summed to the total before, they still do,
/// as long as the counter has not reached `u64::MAX`.
pub proof fn lemma_record_keeps_histogram(s: Seq<u64>, status_code: u16, us: u64, bucket: int, now: u64)
    requires
        s.len() == SHARD_LEN_U64,
        0 <= bucket < NUM_BUCKETS,
        histogram_consistent(s),
        s[I_TOTAL as int] < u64::MAX,
    ensures
        histogram_consistent(recorded(s, status_code, us, bucket, now)),
{
    let r = recorded(s, status_code, us, bucket, now);
    let hb = shard_buckets(s);
    lemma_elem_le_sum(hb, bucket);
    assert(hb[bucket] == s[I_BUCKETS_START + bucket]);
    let nb: u64 = (s[I_BUCKETS_START + bucket] + 1) as u64;
    assert(shard_buckets(r) =~= hb.update(bucket, nb));
    lemma_sum_update(hb, bucket, nb);
}

/// Merging consistent shards into a consistent merge keeps the merged
/// histogram in step with the merged request total.
pub proof fn lemma_merge_keeps_histogram(m: MergedView, s: Seq<u64>)
    requires
        m.buckets.len() == NUM_BUCKETS,
        s.len() == SHARD_LEN_U64,
        seq_sum(m.buckets) == m.total,
        histogram_consistent(s),
        merge_fits(m, s),
    ensures
        seq_sum(merge_view(m, s).buckets) == merge_view(m, s).total,
{
    let c = merge_view(m, s).buckets;
    lemma_sum_pointwise(m.buckets, shard_buckets(s), c);
}

/// The merge over no shard has a consistent (empty) histogram.
pub proof fn lemma_empty_merged_consistent()
    ensures
        seq_sum(empty_merged().buckets) == empty_merged().total,
{
    lemma_sum_zeros(empty_merged().buckets);
}

/// A shard file of `len` bytes is long enough to hold every slot.
pub fn shard_len_ok(len: u64) -> (r: bool)
    ensures
        r == (len as usize >= SHARD_BYTES),
{
    #[verifier::truncate]
    let n: usize = len as usize;
    n >= SHARD_BYTES
}

/// The process that owns shard `slots`, or `None` when the shard does not
/// carry this layout's version (such a shard is skipped).
pub fn shard_owner(slots: &[u64]) -> (r: Option<u32>)
    requires
        slots@.len() == SHARD_LEN_U64,
    ensures
        r == (if slots@[I_VERSION as int] != FORMAT_VERSION {
            None
        } else {
            Some(slots@[I_PID as int] as u32)
        }),
{
    if slots[I_VERSION] != FORMAT_VERSION {
        None
    } else {
        #[verifier::truncate]
        let pid: u32 = slots[I_PID] as u32;
        Some(pid)
    }
}

/// Reading of a liveness probe `kill(pid, 0)`: the process is alive when the
/// probe succeeded (`kill_ret == 0`) or failed only for lack of permission
/// (`errno` equal to `eperm`, the platform's `EPERM`).
pub fn alive_from_probe(kill_ret: i32, errno: Option<i32>, eperm: i32) -> (alive: bool)
    ensures
        alive == (kill_ret == 0 || errno == Some(eperm)),
{
    if kill_ret == 0 {
        return true;
    }
    match errno {
        Some(e) => e == eperm,
        None => false,
    }
}

/// File names of shards: `rpy-` followed by anything and ending in `.shard`.
pub open spec fn is_shard_file_name(name: Seq<char>) -> bool {
    has_prefix(name, "rpy-"@) && has_suffix(name, ".shard"@)
}

/// Whether a directory entry named `name` is a shard to merge.
pub fn is_shard_name(name: &str) -> (r: bool)
    ensures
        r == is_shard_file_name(name@),
{
    starts_with(name, "rpy-") && ends_with(name, ".shard")
}

/// The file name of the shard that process `pid` writes.
pub open spec fn shard_file_name_of(pid: u32) -> Seq<char> {
    "rpy-"@ + decimal(pid as nat) + ".shard"@
}

/// `rpy-<pid>.shard`.
pub fn shard_file_name(pid: u32) -> (name: String)
    ensures
        name@ == shard_file_name_of(pid),
{
    let mut name = String::from_str("rpy-");
    let digits = to_decimal(pid as u64);
    name.append(digits.as_str());
    name.append(".shard");
    name
}

/// Every worker's own shard file is one that the merge picks up.
pub proof fn lemma_own_shard_is_merged(pid: u32)
    ensures
        is_shard_file_name(shard_file_name_of(pid)),
{
    let name = shard_file_name_of(pid);
    let p = "rpy-"@;
    let q = ".shard"@;
    assert(name.subrange(0, p.len() as int) =~= p);
    assert(name.subrange(name.len() - q.len(), name.len() as int) =~= q);
}

/// Per-process state of the shared multi-worker mode; `W` is this worker's
/// writable shard.
pub enum MultiprocState<W> {
    /// The environment has not been consulted yet.
    Uninit,
    /// Shared aggregation is off.
    Disabled,
    /// Shared aggregation is on: shards live in `dir`.
    Enabled { dir: String, writer: W },
}

/// What enabling or disabling the shared mode asks of the caller.
pub enum DirPlan {
    /// Open (creating if needed) this worker's shard in `dir`; when `reset`
    /// holds, its counters start from zero, otherwise a shard this process
    /// already owns keeps its counters.
    Open { dir: String, reset: bool },
    /// Turn the shared mode off.
    Disable,
}

/// The directory to use for `dir`: `None` and blank strings disable the
/// shared mode, anything else is opened as it is (untrimmed).
pub open spec fn plan_for(dir: Option<&str>) -> Option<Seq<char>> {
    match dir {
        Some(d) => if is_blank(d@) { None } else { Some(d@) },
        None => None,
    }
}

fn plan(dir: Option<&str>, reset: bool) -> (p: DirPlan)
    ensures
        match p {
            DirPlan::Open { dir: d, reset: r } => plan_for(dir) == Some(d@) && r == reset,
            DirPlan::Disable => plan_for(dir) is None,
        },
{
    match dir {
        Some(d) => {
            if is_blank_str(d) {
                DirPlan::Disable
            } else {
                DirPlan::Open { dir: d.to_owned(), reset }
            }
        },
        None => DirPlan::Disable,
    }
}

/// Decides what setting the multiproc directory to `dir` does: a directory
/// that is not blank is to be opened with this process's shard reset;
/// `None` or a blank string disables the shared mode.
pub fn set_dir(dir: Option<&str>) -> (p: DirPlan)
    ensures
        match p {
            DirPlan::Open { dir: d, reset } => plan_for(dir) == Some(d@) && reset,
            DirPlan::Disable => plan_for(dir) is None,
        },
{
    plan(dir, true)
}

/// Decides what the directory named in the environment (`env`, read once
/// on first use) does: a directory that is not blank is opened, keeping the
/// counters of a shard this process already owns; a missing or blank value
/// disables the shared mode.
pub fn init_from_env(env: Option<&str>) -> (p: DirPlan)
    ensures
        match p {
            DirPlan::Open { dir: d, reset } => plan_for(env) == Some(d@) && !reset,
            DirPlan::Disable => plan_for(env) is None,
        },
{
    plan(env, false)
}

impl<W> MultiprocState<W> {
    /// The state after trying to open a shard in `dir`: enabled with the
    /// opened shard, or disabled when opening failed.
    pub fn opened(dir: String, writer: Option<W>) -> (s: Self)
        ensures
            match writer {
                Some(w) => s == MultiprocState::Enabled { dir, writer: w },
                None => s is Disabled,
            },
    {
        match writer {
            Some(w) => MultiprocState::Enabled { dir, writer: w },
            None => MultiprocState::Disabled,
        }
    }

    /// The environment still has to be read.
    pub fn needs_init(&self) -> (r: bool)
        ensures
            r == self is Uninit,
    {
        match self {
            MultiprocState::Uninit => true,
            _ => false,
        }
    }

    /// The active multiproc directory, or `None` when the mode is off.
    pub fn dir(&self) -> (r: Option<String>)
        ensures
            match self {
                MultiprocState::Enabled { dir, .. } => r == Some(*dir),
                _ => r is None,
            },
    {
        match self {
            MultiprocState::Enabled { dir, .. } => Some(dir.clone()),
            _ => None,
        }
    }

    /// Whether shared aggregation is active: exactly when there is a
    /// directory to report.
    pub fn enabled(&self) -> (r: bool)
        ensures
            r == self is Enabled,
            r == self.dir_spec() is Some,
    {
        let d = self.dir();
        d.is_some()
    }

    /// This worker's shard, to be written, exactly when the shared mode is
    /// on; while it is off (or not yet set up) there is nothing to write to.
    pub fn writer(&self) -> (r: Option<&W>)
        ensures
            match self {
                MultiprocState::Enabled { writer, .. } => r == Some(writer),
                _ => r is None,
            },
    {
        match self {
            MultiprocState::Enabled { writer, .. } => Some(writer),
            _ => None,
        }
    }

    /// The directory `dir` reports.
    pub open spec fn dir_spec(&self) -> Option<String> {
        match self {
            MultiprocState::Enabled { dir, .. } => Some(*dir),
            _ => None,
        }
    }
}

/// One request as a shard records it.
pub struct ShardSample {
    pub status_code: u16,
    pub duration_us: u64,
    pub bucket: int,
    pub now: u64,
}

/// The shard slots after recording each of `samples` in turn.
pub open spec fn recorded_all(s: Seq<u64>, samples: Seq<ShardSample>) -> Seq<u64>
    decreases samples.len(),
{
    if samples.len() == 0 {
        s
    } else {
        let x = samples.last();
        recorded(recorded_all(s, samples.drop_last()), x.status_code, x.duration_us, x.bucket, x.now)
    }
}

/// The status codes of `samples`, in order.
pub open spec fn sample_statuses(samples: Seq<ShardSample>) -> Seq<u16> {
    samples.map_values(|x: ShardSample| x.status_code)
}

/// A shard counts what it was given: starting from a fresh shard and
/// recording fewer than 2^64 requests, the request counter equals the number
/// of requests, the error counter equals the number of error statuses among
/// them (the same rule as the in-process store), the histogram accounts for
/// every request, and the header still names this layout and its owner.
pub proof fn lemma_shard_counts_recorded_requests(pid: u32, start: u64, samples: Seq<ShardSample>)
    requires
        samples.len() < u64::MAX,
        forall|i: int| 0 <= i < samples.len() ==> 0 <= #[trigger] samples[i].bucket < NUM_BUCKETS,
    ensures
        recorded_all(fresh_shard(pid, start), samples).len() == SHARD_LEN_U64,
        recorded_all(fresh_shard(pid, start), samples)[I_TOTAL as int] == samples.len(),
        recorded_all(fresh_shard(pid, start), samples)[I_ERRORS as int] == error_count(sample_statuses(samples)),
        histogram_consistent(recorded_all(fresh_shard(pid, start), samples)),
        recorded_all(fresh_shard(pid, start), samples)[I_VERSION as int] == FORMAT_VERSION,
        recorded_all(fresh_shard(pid, start), samples)[I_PID as int] == pid as u64,
    decreases samples.len(),
{
    if samples.len() == 0 {
        lemma_fresh_shard_consistent(pid, start);
        assert(sample_statuses(samples) =~= Seq::<u16>::empty());
    } else {
        let front = samples.drop_last();
        let x = samples.last();
        assert forall|i: int| 0 <= i < front.len() implies 0 <= #[trigger] front[i].bucket < NUM_BUCKETS by {
            assert(front[i] == samples[i]);
        }
        lemma_shard_counts_recorded_requests(pid, start, front);
        let p = recorded_all(fresh_shard(pid, start), front);
        crate::aggregator::lemma_error_count_bounded(sample_statuses(front));
        assert(sample_statuses(front) =~= sample_statuses(samples).drop_last());
        assert(samples[samples.len() - 1] == x);
        lemma_record_keeps_histogram(p, x.status_code, x.duration_us, x.bucket, x.now);
    }
}

/// What the directory walk does with one shard file.
#[derive(PartialEq, Eq, Structural, Clone, Copy, Debug)]
pub enum ShardAction {
    /// Leave it alone: too short, or of another layout.
    Skip,
    /// Its owner is dead: delete the file and count nothing of it.
    Prune,
    /// Its owner is alive: add its counters.
    Merge,
}

/// What the walk learned of one shard file: its length in bytes, its slots
/// (read only when the file is long enough), and whether the process its
/// header names is alive.
pub struct ShardReading {
    pub file_len: u64,
    pub slots: Seq<u64>,
    pub owner_alive: bool,
}

/// A file long enough to hold a shard was read in full.
pub open spec fn reading_ok(r: ShardReading) -> bool {
    (r.file_len as usize >= SHARD_BYTES) ==> r.slots.len() == SHARD_LEN_U64
}

/// The action for one reading: too short or another layout is skipped; a
/// shard of this layout whose owner is dead is pruned; the rest is merged.
pub open spec fn action_of(r: ShardReading) -> ShardAction {
    if !(r.file_len as usize >= SHARD_BYTES) {
        ShardAction::Skip
    } else if r.slots[I_VERSION as int] != FORMAT_VERSION {
        ShardAction::Skip
    } else if !r.owner_alive {
        ShardAction::Prune
    } else {
        ShardAction::Merge
    }
}

/// Decides what to do with a shard file of `file_len` bytes holding
/// `slots`, whose owner is alive when `owner_alive` holds.
pub fn shard_action(file_len: u64, slots: &[u64], owner_alive: bool) -> (a: ShardAction)
    requires
        reading_ok(ShardReading { file_len, slots: slots@, owner_alive }),
    ensures
        a == action_of(ShardReading { file_len, slots: slots@, owner_alive }),
{
    if !shard_len_ok(file_len) {
        ShardAction::Skip
    } else if shard_owner(slots).is_none() {
        ShardAction::Skip
    } else if !owner_alive {
        ShardAction::Prune
    } else {
        ShardAction::Merge
    }
}

/// The merged counters after handling one reading.
pub open spec fn merge_step(m: MergedView, r: ShardReading) -> MergedView {
    if action_of(r) is Merge {
        merge_view(m, r.slots)
    } else {
        m
    }
}

/// The merged counters after handling each of `rs` in turn.
pub open spec fn merge_readings(m: MergedView, rs: Seq<ShardReading>) -> MergedView
    decreases rs.len(),
{
    if rs.len() == 0 {
        m
    } else {
        merge_step(merge_readings(m, rs.drop_last()), rs.last())
    }
}

/// Every merge along `rs` stays clear of overflow.
pub open spec fn merges_fit(m: MergedView, rs: Seq<ShardReading>) -> bool
    decreases rs.len(),
{
    if rs.len() == 0 {
        true
    } else {
        &&& merges_fit(m, rs.drop_last())
        &&& (action_of(rs.last()) is Merge ==> merge_fits(merge_readings(m, rs.drop_last()), rs.last().slots))
    }
}

impl Merged {
    /// Handles one shard file: decides its action and, when it is merged,
    /// adds its counters. The caller deletes the file on `Prune`.
    pub fn absorb(&mut self, file_len: u64, slots: &[u64], owner_alive: bool) -> (a: ShardAction)
        requires
            reading_ok(ShardReading { file_len, slots: slots@, owner_alive }),
            action_of(ShardReading { file_len, slots: slots@, owner_alive }) is Merge
                ==> merge_fits(old(self)@, slots@),
        ensures
            a == action_of(ShardReading { file_len, slots: slots@, owner_alive }),
            final(self)@ == merge_step(old(self)@, ShardReading { file_len, slots: slots@, owner_alive }),
    {
        let a = shard_action(file_len, slots, owner_alive);
        match a {
            ShardAction::Merge => self.merge_shard(slots),
            _ => {},
        }
        a
    }
}

/// The reading is of a live shard of this layout.
pub open spec fn is_live(r: ShardReading) -> bool {
    action_of(r) is Merge
}

/// Sum of slot `k` over the live readings of `rs`.
pub open spec fn live_sum(rs: Seq<ShardReading>, k: int) -> int
    decreases rs.len(),
{
    if rs.len() == 0 {
        0
    } else {
        live_sum(rs.drop_last(), k) + if is_live(rs.last()) { rs.last().slots[k] as int } else { 0 }
    }
}

/// Largest slot `k` over the live readings of `rs` (0 when there is none).
pub open spec fn live_max(rs: Seq<ShardReading>, k: int) -> u64
    decreases rs.len(),
{
    if rs.len() == 0 {
        0
    } else if is_live(rs.last()) {
        max_u64(live_max(rs.drop_last(), k), rs.last().slots[k])
    } else {
        live_max(rs.drop_last(), k)
    }
}

/// Smallest recorded minimum latency over the live readings of `rs`,
/// ignoring shards that recorded nothing (`MIN_EMPTY` when there is none).
pub open spec fn live_min(rs: Seq<ShardReading>) -> u64
    decreases rs.len(),
{
    if rs.len() == 0 {
        MIN_EMPTY
    } else if is_live(rs.last()) && rs.last().slots[I_MIN_US as int] != MIN_EMPTY {
        min_u64(live_min(rs.drop_last()), rs.last().slots[I_MIN_US as int])
    } else {
        live_min(rs.drop_last())
    }
}

/// Every reading of `rs` that is long enough was read in full.
pub open spec fn readings_ok(rs: Seq<ShardReading>) -> bool {
    forall|i: int| 0 <= i < rs.len() ==> reading_ok(#[trigger] rs[i])
}

/// The exact sums over the live readings fit in the merged counters.
pub open spec fn live_sums_fit(m: MergedView, rs: Seq<ShardReading>) -> bool {
    &&& m.total + live_sum(rs, I_TOTAL as int) <= u64::MAX
    &&& m.errors + live_sum(rs, I_ERRORS as int) <= u64::MAX
    &&& forall|i: int| 0 <= i < NUM_BUCKETS ==> #[trigger] m.buckets[i] + live_sum(rs, I_BUCKETS_START + i) <= u64::MAX
}

/// `m` with the counters of every live reading of `rs` added in.
pub open spec fn merged_over(m: MergedView, rs: Seq<ShardReading>) -> MergedView {
    MergedView {
        total: (m.total + live_sum(rs, I_TOTAL as int)) as u64,
        errors: (m.errors + live_sum(rs, I_ERRORS as int)) as u64,
        sum_us: if m.sum_us + live_sum(rs, I_SUM_US as int) > u64::MAX {
            u64::MAX
        } else {
            (m.sum_us + live_sum(rs, I_SUM_US as int)) as u64
        },
        min_us: min_u64(m.min_us, live_min(rs)),
        max_us: max_u64(m.max_us, live_max(rs, I_MAX_US as int)),
        buckets: Seq::new(NUM_BUCKETS as nat, |i: int| (m.buckets[i] + live_sum(rs, I_BUCKETS_START + i)) as u64),
    }
}

proof fn lemma_live_sum_nonneg(rs: Seq<ShardReading>, k: int)
    ensures
        live_sum(rs, k) >= 0,
    decreases rs.len(),
{
    if rs.len() > 0 {
        lemma_live_sum_nonneg(rs.drop_last(), k);
    }
}

/// Walking the shard files: handling the readings `rs` one by one (as
/// `absorb` does) adds up exactly the live shards of this layout and
/// nothing else: request, error and bucket counts are their sums, the
/// latency sum their sum saturated at `u64::MAX`, the minimum the smallest
/// recorded one, the maximum the largest. When those sums fit, no step of
/// the walk overflows.
pub proof fn lemma_walk_merges_live_shards(m: MergedView, rs: Seq<ShardReading>)
    requires
        m.buckets.len() == NUM_BUCKETS,
        readings_ok(rs),
        live_sums_fit(m, rs),
    ensures
        merges_fit(m, rs),
        merge_readings(m, rs) == merged_over(m, rs),
    decreases rs.len(),
{
    if rs.len() == 0 {
        assert(merged_over(m, rs).buckets =~= m.buckets);
    } else {
        let front = rs.drop_last();
        let r = rs.last();
        assert forall|i: int| 0 <= i < front.len() implies reading_ok(#[trigger] front[i]) by {
            assert(front[i] == rs[i]);
        }
        assert(reading_ok(rs[rs.len() - 1]));
        lemma_live_sum_nonneg(front, I_TOTAL as int);
        lemma_live_sum_nonneg(front, I_ERRORS as int);
        lemma_live_sum_nonneg(front, I_SUM_US as int);
        assert forall|i: int| 0 <= i < NUM_BUCKETS implies #[trigger] m.buckets[i] + live_sum(front, I_BUCKETS_START + i) <= u64::MAX by {
            assert(m.buckets[i] + live_sum(rs, I_BUCKETS_START + i) <= u64::MAX);
            lemma_live_sum_nonneg(front, I_BUCKETS_START + i);
        }
        lemma_walk_merges_live_shards(m, front);
        let p = merged_over(m, front);
        if is_live(r) {
            lemma_live_sum_nonneg(front, I_BUCKETS_START as int);
            assert forall|i: int| 0 <= i < NUM_BUCKETS implies #[trigger] p.buckets[i] + shard_bucket(r.slots, i) <= u64::MAX by {
                assert(m.buckets[i] + live_sum(rs, I_BUCKETS_START + i) <= u64::MAX);
                lemma_live_sum_nonneg(front, I_BUCKETS_START + i);
            }
            assert(merge_fits(p, r.slots));
            let q = merge_view(p, r.slots);
            let f = merged_over(m, rs);
            assert forall|i: int| 0 <= i < NUM_BUCKETS implies q.buckets[i] == f.buckets[i] by {
                lemma_live_sum_nonneg(front, I_BUCKETS_START + i);
            }
            assert(q.buckets =~= f.buckets);
            assert(q.total == f.total);
            assert(q.errors == f.errors);
            assert(q.sum_us == f.sum_us);
            assert(q.min_us == f.min_us);
            assert(q.max_us == f.max_us);
        } else {
            let f = merged_over(m, rs);
            assert(p.buckets =~= f.buckets);
        }
    }
}

/// The shard file name carries the full process id: between the `rpy-`
/// prefix and the `.shard` suffix stand the decimal digits of `pid`, which
/// read back as `pid`.
pub proof fn lemma_shard_name_spells_pid(pid: u32)
    ensures
        ({
            let name = shard_file_name_of(pid);
            &&& name.len() >= 11
            &&& name.subrange(0, 4) == "rpy-"@
            &&& name.subrange(name.len() - 6, name.len() as int) == ".shard"@
            &&& decimal_value(name.subrange(4, name.len() - 6)) == pid as int
        }),
{
    reveal_strlit("rpy-");
    reveal_strlit(".shard");
    let name = shard_file_name_of(pid);
    let d = decimal(pid as nat);
    lemma_decimal_reads_back(pid as nat);
    assert(name.subrange(0, 4) =~= "rpy-"@);
    assert(name.subrange(name.len() - 6, name.len() as int) =~= ".shard"@);
    assert(name.subrange(4, name.len() - 6) =~= d);
}

/// Two different processes never share a shard file name.
pub proof fn lemma_shard_names_distinct(a: u32, b: u32)
    requires
        a != b,
    ensures
        shard_file_name_of(a) != shard_file_name_of(b),
{
    if shard_file_name_of(a) == shard_file_name_of(b) {
        lemma_shard_name_spells_pid(a);
        lemma_shard_name_spells_pid(b);
    }
}

/// The merge over no shard starts from zero: no requests, no errors, a zero
/// latency sum, no maximum, all buckets empty, and the minimum at
/// `u64::MAX` (meaning nothing recorded).
pub proof fn lemma_empty_merge_is_zero()
    ensures
        empty_merged().total == 0,
        empty_merged().errors == 0,
        empty_merged().sum_us == 0,
        empty_merged().max_us == 0,
        empty_merged().min_us == 0xffff_ffff_ffff_ffffu64,
        empty_merged().buckets.len() == 14,
        forall|i: int| 0 <= i < 14 ==> #[trigger] empty_merged().buckets[i] == 0,
{
}

/// Walking shard files from the empty merge yields exactly the totals of
/// the live shards: the request and error counts and each bucket are the
/// sums of those slots over the live shards, and the latency sum is their
/// sum, saturated at `u64::MAX`.
pub proof fn lemma_walk_from_empty(rs: Seq<ShardReading>)
    requires
        readings_ok(rs),
        live_sum(rs, I_TOTAL as int) <= u64::MAX,
        live_sum(rs, I_ERRORS as int) <= u64::MAX,
        forall|i: int| 0 <= i < NUM_BUCKETS ==> #[trigger] live_sum(rs, I_BUCKETS_START + i) <= u64::MAX,
    ensures
        merges_fit(empty_merged(), rs),
        merge_readings(empty_merged(), rs).total == live_sum(rs, I_TOTAL as int),
        merge_readings(empty_merged(), rs).errors == live_sum(rs, I_ERRORS as int),
        merge_readings(empty_merged(), rs).sum_us == (if live_sum(rs, I_SUM_US as int) > u64::MAX {
            u64::MAX as int
        } else {
            live_sum(rs, I_SUM_US as int)
        }),
        forall|i: int| 0 <= i < NUM_BUCKETS ==> #[trigger] merge_readings(empty_merged(), rs).buckets[i]
            == live_sum(rs, I_BUCKETS_START + i),
{
    let m = empty_merged();
    assert forall|i: int| 0 <= i < NUM_BUCKETS implies #[trigger] m.buckets[i] + live_sum(rs, I_BUCKETS_START + i) <= u64::MAX by {
        assert(live_sum(rs, I_BUCKETS_START + i) <= u64::MAX);
    }
    lemma_walk_merges_live_shards(m, rs);
    lemma_live_sum_nonneg(rs, I_TOTAL as int);
    lemma_live_sum_nonneg(rs, I_ERRORS as int);
    lemma_live_sum_nonneg(rs, I_SUM_US as int);
    assert forall|i: int| 0 <= i < NUM_BUCKETS implies #[trigger] merge_readings(empty_merged(), rs).buckets[i]
        == live_sum(rs, I_BUCKETS_START + i) by {
        lemma_live_sum_nonneg(rs, I_BUCKETS_START + i);
    }
}

/// 2^64, the modulus of the shard's wrapping counters.
pub open spec fn two_to_64() -> int {
    0x1_0000_0000_0000_0000
}

proof fn lemma_wrap_add_is_mod(a: u64, b: u64)
    ensures
        wrap_add(a, b) as int == (a + b) % two_to_64(),
{
    if a + b > u64::MAX {
        assert((a + b) % two_to_64() == a + b - two_to_64()) by {
            vstd::arithmetic::div_mod::lemma_fundamental_div_mod_converse(a + b, two_to_64(), 1, a + b - two_to_64());
        }
    } else {
        vstd::arithmetic::div_mod::lemma_small_mod((a + b) as nat, two_to_64() as nat);
    }
}

/// Recording a request of status `st`, latency `us` and bucket `b` counts
/// it once, counts it as an error exactly when `st >= 400`, adds its latency
/// to the sum whatever its status (all modulo 2^64, as atomic adds wrap),
/// lowers the minimum and raises the maximum to `us` where it lies beyond
/// them, counts it in bucket `b`, stamps the heartbeat, and leaves every
/// other slot (the header and the other buckets) unchanged.
pub proof fn lemma_record_counts_every_request(s: Seq<u64>, st: u16, us: u64, b: int, now: u64)
    requires
        s.len() == SHARD_LEN_U64,
        0 <= b < NUM_BUCKETS,
    ensures
        ({
            let r = recorded(s, st, us, b, now);
            &&& r.len() == s.len()
            &&& r[2] as int == (s[2] + 1) % two_to_64()
            &&& r[3] as int == (if st >= 400 { (s[3] + 1) % two_to_64() } else { s[3] as int })
            &&& r[4] as int == (s[4] + us) % two_to_64()
            &&& r[5] == (if us < s[5] { us } else { s[5] })
            &&& r[6] == (if us > s[6] { us } else { s[6] })
            &&& r[8 + b] as int == (s[8 + b] + 1) % two_to_64()
            &&& r[7] == now
            &&& r[0] == s[0]
            &&& r[1] == s[1]
            &&& forall|j: int| 8 <= j < 22 && j != 8 + b ==> #[trigger] r[j] == s[j]
        }),
{
    lemma_wrap_add_is_mod(s[2], 1);
    lemma_wrap_add_is_mod(s[3], 1);
    lemma_wrap_add_is_mod(s[4], us);
    lemma_wrap_add_is_mod(s[8 + b], 1);
}

/// Total latency of `samples`, in microseconds.
pub open spec fn samples_us_total(samples: Seq<ShardSample>) -> int
    decreases samples.len(),
{
    if samples.len() == 0 {
        0
    } else {
        samples_us_total(samples.drop_last()) + samples.last().duration_us
    }
}

/// From a fresh shard, the latency-sum slot holds the sum of every recorded
/// latency, whatever the statuses, modulo 2^64.
pub proof fn lemma_shard_sums_every_latency(pid: u32, start: u64, samples: Seq<ShardSample>)
    requires
        forall|i: int| 0 <= i < samples.len() ==> 0 <= #[trigger] samples[i].bucket < NUM_BUCKETS,
    ensures
        recorded_all(fresh_shard(pid, start), samples).len() == SHARD_LEN_U64,
        recorded_all(fresh_shard(pid, start), samples)[4] as int == samples_us_total(samples) % two_to_64(),
    decreases samples.len(),
{
    if samples.len() == 0 {
        vstd::arithmetic::div_mod::lemma_small_mod(0, two_to_64() as nat);
    } else {
        let front = samples.drop_last();
        let x = samples.last();
        assert forall|i: int| 0 <= i < front.len() implies 0 <= #[trigger] front[i].bucket < NUM_BUCKETS by {
            assert(front[i] == samples[i]);
        }
        assert(samples[samples.len() - 1] == x);
        lemma_shard_sums_every_latency(pid, start, front);
        let p = recorded_all(fresh_shard(pid, start), front);
        lemma_record_counts_every_request(p, x.status_code, x.duration_us, x.bucket, x.now);
        let t = samples_us_total(front);
        lemma_samples_total_nonneg(front);
        vstd::arithmetic::div_mod::lemma_add_mod_noop(t, x.duration_us as int, two_to_64());
        vstd::arithmetic::div_mod::lemma_small_mod(x.duration_us as nat, two_to_64() as nat);
    }
}

proof fn lemma_samples_total_nonneg(samples: Seq<ShardSample>)
    ensures
        samples_us_total(samples) >= 0,
    decreases samples.len(),
{
    if samples.len() > 0 {
        lemma_samples_total_nonneg(samples.drop_last());
    }
}

} // verus!
