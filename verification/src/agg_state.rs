//! Keyed windowed aggregation state.
//!
//! A mapping from partition key to per-key time-indexed value buckets.
//! The hot path inserts `(event_time, value)` pairs; a window scan folds
//! every value whose bucket time lies in `(window_start, event_time]`;
//! a background eviction pass removes buckets at or below a high-water
//! mark `max_observed_bucket_time - max_window_size`, and drops a key
//! entirely when its bucket map becomes empty.
//!
//! Eviction assumes event time is monotonically non-decreasing across the
//! whole key space (a global, not per-key, watermark); under out-of-order
//! arrival a late bucket may be evicted before a window that needs it.
//!
//! The keyed store is an owned, per-stage structure, injected at
//! construction: text keys and per-bucket value lists live as plain
//! values, so every operation carries an exact verified contract, and
//! each pipeline instance gets isolated state.  A process-shared
//! variant of the time-bucket map, for a hot path and a sweeper on
//! separate threads, lives in [`crate::shared_map`]; it is keyed by
//! integers, whose equality and hashing the verifier can take at face
//! value, where a text-keyed shared map would rest on derived string
//! hashing that nothing here checks.

use vstd::prelude::*;
use crate::accumulator::{sum_of, Accumulator, SumAccumulator};

verus! {

/// One time bucket: every value inserted at this event time, in arrival
/// order.
#[derive(Clone, Debug)]
pub struct TimeBucket {
    pub time: i64,
    pub values: Vec<i64>,
}

impl View for TimeBucket {
    type V = (int, Seq<i64>);

    open spec fn view(&self) -> (int, Seq<i64>) {
        (self.time as int, self.values@)
    }
}

/// The buckets of one partition key, in order of first insertion.
#[derive(Clone, Debug)]
pub struct KeyBuckets {
    pub key: String,
    pub buckets: Vec<TimeBucket>,
}

impl View for KeyBuckets {
    type V = (Seq<char>, Seq<(int, Seq<i64>)>);

    open spec fn view(&self) -> (Seq<char>, Seq<(int, Seq<i64>)>) {
        (self.key@, self.buckets@.map_values(|b: TimeBucket| b@))
    }
}

/// The index of the first bucket with time `t`, or `-1`.
pub open spec fn time_index(buckets: Seq<(int, Seq<i64>)>, t: int) -> int
    decreases buckets.len(),
{
    if buckets.len() == 0 {
        -1
    } else if buckets[0].0 == t {
        0
    } else {
        let rest = time_index(buckets.drop_first(), t);
        if rest == -1 {
            -1
        } else {
            rest + 1
        }
    }
}

/// The index of the first entry with key `key`, or `-1`.
pub open spec fn key_index(entries: Seq<(Seq<char>, Seq<(int, Seq<i64>)>)>, key: Seq<char>) -> int
    decreases entries.len(),
{
    if entries.len() == 0 {
        -1
    } else if entries[0].0 == key {
        0
    } else {
        let rest = key_index(entries.drop_first(), key);
        if rest == -1 {
            -1
        } else {
            rest + 1
        }
    }
}

/// The buckets stored under `key`, or the empty sequence.
pub open spec fn buckets_of(
    entries: Seq<(Seq<char>, Seq<(int, Seq<i64>)>)>,
    key: Seq<char>,
) -> Seq<(int, Seq<i64>)> {
    let ki = key_index(entries, key);
    if ki == -1 {
        Seq::empty()
    } else {
        entries[ki].1
    }
}

/// What one insert does to a bucket list: append to the bucket with the
/// same time, or open a new bucket at the end.
pub open spec fn insert_bucket(
    buckets: Seq<(int, Seq<i64>)>,
    t: int,
    value: i64,
) -> Seq<(int, Seq<i64>)> {
    let ti = time_index(buckets, t);
    if ti == -1 {
        buckets.push((t, seq![value]))
    } else {
        buckets.update(ti, (t, buckets[ti].1.push(value)))
    }
}

/// What one insert does to the whole state: update the key's buckets, or
/// open a new key at the end.
pub open spec fn insert_view(
    entries: Seq<(Seq<char>, Seq<(int, Seq<i64>)>)>,
    key: Seq<char>,
    t: int,
    value: i64,
) -> Seq<(Seq<char>, Seq<(int, Seq<i64>)>)> {
    let ki = key_index(entries, key);
    if ki == -1 {
        entries.push((key, seq![(t, seq![value])]))
    } else {
        entries.update(ki, (key, insert_bucket(entries[ki].1, t, value)))
    }
}

/// Every value in a bucket whose time lies in `(start, end]`, buckets in
/// stored order.
pub open spec fn window_values(
    buckets: Seq<(int, Seq<i64>)>,
    start: int,
    end: int,
) -> Seq<i64>
    decreases buckets.len(),
{
    if buckets.len() == 0 {
        Seq::empty()
    } else {
        let head = window_values(buckets.drop_last(), start, end);
        let last = buckets.last();
        if start < last.0 && last.0 <= end {
            head + last.1
        } else {
            head
        }
    }
}

/// The sum of the absolute values of a sequence: a bound on every partial
/// sum of any of its subsequences.
pub open spec fn sum_abs(values: Seq<i64>) -> int
    decreases values.len(),
{
    if values.len() == 0 {
        0
    } else {
        sum_abs(values.drop_last()) + (if values.last() < 0 {
            -(values.last() as int)
        } else {
            values.last() as int
        })
    }
}

/// Every partial sum is bounded by the sum of absolute values.
pub proof fn lemma_sum_within_abs(values: Seq<i64>)
    ensures
        -sum_abs(values) <= sum_of(values) <= sum_abs(values),
        sum_abs(values) >= 0,
    decreases values.len(),
{
    if values.len() > 0 {
        lemma_sum_within_abs(values.drop_last());
    }
}

/// `sum_abs` only grows as a sequence is extended.
pub proof fn lemma_sum_abs_prefix(values: Seq<i64>, n: int)
    requires
        0 <= n <= values.len(),
    ensures
        sum_abs(values.take(n)) <= sum_abs(values),
    decreases values.len() - n,
{
    if n < values.len() {
        lemma_sum_abs_prefix(values, n + 1);
        assert(values.take(n + 1).drop_last() =~= values.take(n));
        assert(sum_abs(values.take(n)) <= sum_abs(values.take(n + 1)));
    } else {
        assert(values.take(n) =~= values);
    }
}

/// The keyed aggregation state, plus the largest window size observed so
/// far, which fixes the eviction high-water mark.
#[derive(Clone, Debug)]
pub struct KeyedAggState {
    pub entries: Vec<KeyBuckets>,
    pub max_window_millis: i64,
}

impl View for KeyedAggState {
    type V = Seq<(Seq<char>, Seq<(int, Seq<i64>)>)>;

    open spec fn view(&self) -> Seq<(Seq<char>, Seq<(int, Seq<i64>)>)> {
        self.entries@.map_values(|e: KeyBuckets| e@)
    }
}

impl KeyedAggState {
    /// Well-formed: keys are unique, and bucket times are unique per key.
    pub open spec fn wf(&self) -> bool {
        &&& forall|i: int, j: int|
            0 <= i < j < self@.len() ==> self@[i].0 != self@[j].0
        &&& forall|i: int, a: int, b: int|
            0 <= i < self@.len() && 0 <= a < b < self@[i].1.len()
                ==> self@[i].1[a].0 != self@[i].1[b].0
    }

    /// An empty state; no window has been observed yet.
    pub fn new() -> (s: KeyedAggState)
        ensures
            s@.len() == 0,
            s.wf(),
            s.max_window_millis == i64::MIN,
    {
        KeyedAggState { entries: Vec::new(), max_window_millis: i64::MIN }
    }

    /// How many keys currently hold state.
    pub fn key_count(&self) -> (n: usize)
        ensures
            n == self@.len(),
    {
        self.entries.len()
    }

    /// Record a window size seen on the hot path; the eviction threshold
    /// uses the largest one seen so far.
    pub fn observe_window(&mut self, window_millis: i64)
        ensures
            final(self)@ == old(self)@,
            final(self).max_window_millis == if window_millis > old(self).max_window_millis {
                window_millis
            } else {
                old(self).max_window_millis
            },
    {
        if window_millis > self.max_window_millis {
            self.max_window_millis = window_millis;
        }
    }

    /// Where `key` is stored, if anywhere.
    #[verifier::loop_isolation(false)]
    pub fn find_key_index(&self, key: &String) -> (r: Option<usize>)
        ensures
            match r {
                Some(i) => i < self@.len() && key_index(self@, key@) == i as int
                    && self@[i as int].0 == key@,
                None => key_index(self@, key@) == -1,
            },
    {
        let mut i: usize = 0;
        let n = self.entries.len();
        while i < n
            invariant
                n == self.entries.len(),
                i <= n,
                forall|j: int| 0 <= j < i ==> self@[j].0 != key@,
            decreases n - i,
        {
            if self.entries[i].key.eq(key) {
                proof {
                    lemma_key_index_first(self@, key@, i as int);
                }
                return Some(i);
            }
            i = i + 1;
        }
        proof {
            lemma_key_index_absent(self@, key@);
        }
        None
    }

    /// Insert one `(event_time, value)` pair under `key`.
    pub fn insert(&mut self, key: &String, time: i64, value: i64)
        requires
            old(self).wf(),
        ensures
            final(self)@ == insert_view(old(self)@, key@, time as int, value),
            final(self).wf(),
            final(self).max_window_millis == old(self).max_window_millis,
    {
        proof {
            lemma_insert_view_wf(old(self)@, key@, time as int, value);
        }
        match self.find_key_index(key) {
            None => {
                let entry = KeyBuckets { key: key.clone(), buckets: vec_one_bucket(time, value) };
                self.entries.push(entry);
                proof {
                    assert(self@ =~~= insert_view(old(self)@, key@, time as int, value));
                }
            },
            Some(ki) => {
                let mut entry = self.entries.remove(ki);
                proof {
                    assert(entry@ == old(self)@[ki as int]);
                }
                match find_time_index(&entry.buckets, time) {
                    None => {
                        entry.buckets.push(TimeBucket { time, values: vec_one(value) });
                    },
                    Some(ti) => {
                        let mut bucket = entry.buckets.remove(ti);
                        bucket.values.push(value);
                        entry.buckets.insert(ti, bucket);
                    },
                }
                proof {
                    assert(entry@.1 =~~= insert_bucket(old(self)@[ki as int].1, time as int, value));
                }
                self.entries.insert(ki, entry);
                proof {
                    assert(self@ =~~= insert_view(old(self)@, key@, time as int, value));
                }
            },
        }
    }

    /// Fold every stored value of `key` whose bucket time lies in
    /// `(window_start, end_time]` through a fresh sum accumulator.
    ///
    /// The bound on the absolute values is a machine limit: it keeps every
    /// partial sum inside the accumulator's range.
    #[verifier::loop_isolation(false)]
    pub fn window_sum(&self, key: &String, window_start: i64, end_time: i64) -> (r: i128)
        requires
            sum_abs(window_values(buckets_of(self@, key@), window_start as int, end_time as int))
                <= i128::MAX,
        ensures
            r as int == sum_of(
                window_values(buckets_of(self@, key@), window_start as int, end_time as int),
            ),
    {
        let mut acc = SumAccumulator::new();
        let mut i: usize = 0;
        let n = self.entries.len();
        while i < n
            invariant
                n == self.entries.len(),
                i <= n,
                acc.local() == 0,
                forall|j: int| 0 <= j < i ==> self@[j].0 != key@,
        decreases n - i,
    {
            if self.entries[i].key.eq(key) {
                proof {
                    lemma_key_index_first(self@, key@, i as int);
                }
                let ghost bs = self@[i as int].1;
                let ghost start = window_start as int;
                let ghost end = end_time as int;
                let entry = &self.entries[i];
                let bn = entry.buckets.len();
                let mut b: usize = 0;
                while b < bn
                    invariant
                        bn == entry.buckets.len(),
                        b <= bn,
                        bs == entry@.1,
                        bs.len() == bn,
                        sum_abs(window_values(bs, start, end)) <= i128::MAX,
                        acc.local() == sum_of(window_values(bs.take(b as int), start, end)),
                    decreases bn - b,
                {
                    proof {
                        lemma_window_values_take(bs, start, end, b as int);
                    }
                    let bucket = &entry.buckets[b];
                    if window_start < bucket.time && bucket.time <= end_time {
                        let ghost vs = bucket@.1;
                        let vn = bucket.values.len();
                        let mut k: usize = 0;
                        while k < vn
                            invariant
                                vn == bucket.values.len(),
                                k <= vn,
                                vs == bucket@.1,
                                sum_abs(window_values(bs, start, end)) <= i128::MAX,
                                window_values(bs.take(b as int + 1), start, end)
                                    == window_values(bs.take(b as int), start, end) + vs,
                                acc.local() == sum_of(
                                    window_values(bs.take(b as int), start, end) + vs.take(k as int),
                                ),
                            decreases vn - k,
                        {
                            proof {
                                lemma_window_partial_in_range(bs, start, end, b as int, vs, k as int);
                            }
                            let v = bucket.values[k];
                            acc.add(v);
                            proof {
                                let head = window_values(bs.take(b as int), start, end);
                                assert(head + vs.take(k as int + 1)
                                    =~= (head + vs.take(k as int)).push(v));
                                crate::accumulator::lemma_sum_of_push(head + vs.take(k as int), v);
                            }
                            k = k + 1;
                        }
                        proof {
                            assert(vs.take(vn as int) =~= vs);
                        }
                    } else {
                        proof {
                            assert(window_values(bs.take(b as int + 1), start, end)
                                == window_values(bs.take(b as int), start, end));
                        }
                    }
                    b = b + 1;
                }
                proof {
                    assert(bs.take(bn as int) =~= bs);
                }
                return acc.get_local_value();
            }
            i = i + 1;
        }
        proof {
            lemma_key_index_absent(self@, key@);
        }
        acc.get_local_value()
    }
}

/// The buckets that survive eviction at threshold `th`: exactly those
/// whose time lies strictly above it.
pub open spec fn keep_buckets(buckets: Seq<(int, Seq<i64>)>, th: int) -> Seq<(int, Seq<i64>)>
    decreases buckets.len(),
{
    if buckets.len() == 0 {
        Seq::empty()
    } else {
        let head = keep_buckets(buckets.drop_last(), th);
        if buckets.last().0 > th {
            head.push(buckets.last())
        } else {
            head
        }
    }
}

/// The whole state after one eviction pass at threshold `th`: every key's
/// surviving buckets, with keys whose bucket map became empty removed.
pub open spec fn evict_view(
    entries: Seq<(Seq<char>, Seq<(int, Seq<i64>)>)>,
    th: int,
) -> Seq<(Seq<char>, Seq<(int, Seq<i64>)>)>
    decreases entries.len(),
{
    if entries.len() == 0 {
        Seq::empty()
    } else {
        let head = evict_view(entries.drop_last(), th);
        let kept = keep_buckets(entries.last().1, th);
        if kept.len() > 0 {
            head.push((entries.last().0, kept))
        } else {
            head
        }
    }
}

/// The largest bucket time of one key, or `i64::MIN` with no buckets.
pub open spec fn max_time_of(buckets: Seq<(int, Seq<i64>)>) -> int
    decreases buckets.len(),
{
    if buckets.len() == 0 {
        i64::MIN as int
    } else {
        let head = max_time_of(buckets.drop_last());
        if buckets.last().0 > head {
            buckets.last().0
        } else {
            head
        }
    }
}

/// The largest bucket time anywhere in the state, or `i64::MIN`.
pub open spec fn max_time(entries: Seq<(Seq<char>, Seq<(int, Seq<i64>)>)>) -> int
    decreases entries.len(),
{
    if entries.len() == 0 {
        i64::MIN as int
    } else {
        let head = max_time(entries.drop_last());
        let last = max_time_of(entries.last().1);
        if last > head {
            last
        } else {
            head
        }
    }
}

impl KeyedAggState {
    /// The eviction high-water mark: the largest observed bucket time
    /// minus the largest observed window size.
    pub open spec fn eviction_threshold(&self) -> int {
        max_time(self@) - self.max_window_millis
    }

    /// The largest bucket time currently stored, or `i64::MIN`.
    #[verifier::loop_isolation(false)]
    pub fn peak_time(&self) -> (p: i64)
        ensures
            p as int == max_time(self@),
    {
        let mut peak: i64 = i64::MIN;
        let n = self.entries.len();
        let mut i: usize = 0;
        while i < n
            invariant
                n == self.entries.len(),
                i <= n,
                peak as int == max_time(self@.take(i as int)),
            decreases n - i,
        {
            proof {
                lemma_max_time_take(self@, i as int);
            }
            let entry = &self.entries[i];
            let bn = entry.buckets.len();
            let mut b: usize = 0;
            while b < bn
                invariant
                    bn == entry.buckets.len(),
                    b <= bn,
                    peak as int == if max_time_of(entry@.1.take(b as int))
                        > max_time(self@.take(i as int)) {
                        max_time_of(entry@.1.take(b as int))
                    } else {
                        max_time(self@.take(i as int))
                    },
                decreases bn - b,
            {
                proof {
                    lemma_max_time_of_take(entry@.1, b as int);
                }
                if entry.buckets[b].time > peak {
                    peak = entry.buckets[b].time;
                }
                b = b + 1;
            }
            proof {
                assert(entry@.1.take(bn as int) =~= entry@.1);
            }
            i = i + 1;
        }
        proof {
            assert(self@.take(n as int) =~= self@);
        }
        peak
    }

    /// One background eviction pass, in two phases: first compute the
    /// high-water mark from everything currently stored, then remove
    /// every bucket at or below it, and every key left without buckets.
    pub fn evict_pass(&mut self)
        requires
            old(self).wf(),
        ensures
            final(self)@ == evict_view(old(self)@, old(self).eviction_threshold()),
            final(self).wf(),
            final(self).max_window_millis == old(self).max_window_millis,
    {
        let peak = self.peak_time();
        let threshold: i128 = peak as i128 - self.max_window_millis as i128;
        self.evict_below(threshold);
    }

    /// Remove every bucket at or below the given threshold, and every
    /// key left without buckets.
    #[verifier::loop_isolation(false)]
    pub fn evict_below(&mut self, threshold: i128)
        requires
            old(self).wf(),
        ensures
            final(self)@ == evict_view(old(self)@, threshold as int),
            final(self).wf(),
            final(self).max_window_millis == old(self).max_window_millis,
    {
        let n = self.entries.len();
        let ghost th = threshold as int;
        let mut kept_entries: Vec<KeyBuckets> = Vec::new();
        let mut i: usize = 0;
        while i < n
            invariant
                n == self.entries.len(),
                i <= n,
                threshold == th,
                kept_entries@.map_values(|e: KeyBuckets| e@)
                    == evict_view(self@.take(i as int), th),
            decreases n - i,
        {
            proof {
                lemma_evict_view_take(self@, th, i as int);
            }
            let entry = &self.entries[i];
            let bn = entry.buckets.len();
            let mut kept: Vec<TimeBucket> = Vec::new();
            let mut b: usize = 0;
            while b < bn
                invariant
                    bn == entry.buckets.len(),
                    b <= bn,
                    kept@.map_values(|x: TimeBucket| x@)
                        == keep_buckets(entry@.1.take(b as int), th),
                decreases bn - b,
            {
                proof {
                    lemma_keep_buckets_take(entry@.1, th, b as int);
                }
                if entry.buckets[b].time as i128 > threshold {
                    kept.push(copy_bucket(&entry.buckets[b]));
                    proof {
                        assert(kept@.map_values(|x: TimeBucket| x@)
                            =~= keep_buckets(entry@.1.take(b as int + 1), th));
                    }
                } else {
                    proof {
                        assert(kept@.map_values(|x: TimeBucket| x@)
                            =~= keep_buckets(entry@.1.take(b as int + 1), th));
                    }
                }
                b = b + 1;
            }
            proof {
                assert(entry@.1.take(bn as int) =~= entry@.1);
            }
            if kept.len() > 0 {
                let kept_entry = KeyBuckets { key: entry.key.clone(), buckets: kept };
                kept_entries.push(kept_entry);
                proof {
                    assert(kept_entries@.map_values(|e: KeyBuckets| e@)
                        =~~= evict_view(self@.take(i as int + 1), th));
                }
            } else {
                proof {
                    assert(kept_entries@.map_values(|e: KeyBuckets| e@)
                        =~~= evict_view(self@.take(i as int + 1), th));
                }
            }
            i = i + 1;
        }
        proof {
            assert(self@.take(n as int) =~= self@);
        }
        self.entries = kept_entries;
        proof {
            lemma_evict_view_wf(old(self)@, th);
        }
    }
}

/// `max_time` over one more entry.
pub proof fn lemma_max_time_take(entries: Seq<(Seq<char>, Seq<(int, Seq<i64>)>)>, i: int)
    requires
        0 <= i < entries.len(),
    ensures
        max_time(entries.take(i + 1)) == if max_time_of(entries[i].1) > max_time(entries.take(i)) {
            max_time_of(entries[i].1)
        } else {
            max_time(entries.take(i))
        },
{
    assert(entries.take(i + 1).drop_last() =~= entries.take(i));
    assert(entries.take(i + 1).last() == entries[i]);
}

/// `max_time_of` over one more bucket.
pub proof fn lemma_max_time_of_take(buckets: Seq<(int, Seq<i64>)>, b: int)
    requires
        0 <= b < buckets.len(),
    ensures
        max_time_of(buckets.take(b + 1)) == if buckets[b].0 > max_time_of(buckets.take(b)) {
            buckets[b].0
        } else {
            max_time_of(buckets.take(b))
        },
{
    assert(buckets.take(b + 1).drop_last() =~= buckets.take(b));
    assert(buckets.take(b + 1).last() == buckets[b]);
}

/// `keep_buckets` over one more bucket.
pub proof fn lemma_keep_buckets_take(buckets: Seq<(int, Seq<i64>)>, th: int, b: int)
    requires
        0 <= b < buckets.len(),
    ensures
        keep_buckets(buckets.take(b + 1), th) == if buckets[b].0 > th {
            keep_buckets(buckets.take(b), th).push(buckets[b])
        } else {
            keep_buckets(buckets.take(b), th)
        },
{
    assert(buckets.take(b + 1).drop_last() =~= buckets.take(b));
    assert(buckets.take(b + 1).last() == buckets[b]);
}

/// `evict_view` over one more entry.
pub proof fn lemma_evict_view_take(
    entries: Seq<(Seq<char>, Seq<(int, Seq<i64>)>)>,
    th: int,
    i: int,
)
    requires
        0 <= i < entries.len(),
    ensures
        evict_view(entries.take(i + 1), th) == if keep_buckets(entries[i].1, th).len() > 0 {
            evict_view(entries.take(i), th).push((entries[i].0, keep_buckets(entries[i].1, th)))
        } else {
            evict_view(entries.take(i), th)
        },
{
    assert(entries.take(i + 1).drop_last() =~= entries.take(i));
    assert(entries.take(i + 1).last() == entries[i]);
}

/// The keys surviving eviction are a subsequence of the old keys, so key
/// uniqueness and per-key time uniqueness carry over.
pub proof fn lemma_evict_view_wf(entries: Seq<(Seq<char>, Seq<(int, Seq<i64>)>)>, th: int)
    requires
        forall|i: int, j: int| 0 <= i < j < entries.len() ==> entries[i].0 != entries[j].0,
        forall|i: int, a: int, b: int|
            0 <= i < entries.len() && 0 <= a < b < entries[i].1.len()
                ==> entries[i].1[a].0 != entries[i].1[b].0,
    ensures
        forall|i: int, j: int|
            0 <= i < j < evict_view(entries, th).len()
                ==> evict_view(entries, th)[i].0 != evict_view(entries, th)[j].0,
        forall|i: int, a: int, b: int|
            0 <= i < evict_view(entries, th).len()
                && 0 <= a < b < evict_view(entries, th)[i].1.len()
                ==> evict_view(entries, th)[i].1[a].0 != evict_view(entries, th)[i].1[b].0,
    decreases entries.len(),
{
    if entries.len() > 0 {
        lemma_evict_view_wf(entries.drop_last(), th);
        lemma_evict_view_keys(entries.drop_last(), th);
        let ev = evict_view(entries, th);
        let head = evict_view(entries.drop_last(), th);
        let last = entries.last();
        lemma_keep_buckets_sub(last.1, th);
        assert forall|i: int, j: int| 0 <= i < j < ev.len() implies ev[i].0 != ev[j].0 by {
            if j >= head.len() {
                let x = choose|x: int|
                    0 <= x < entries.drop_last().len() && entries.drop_last()[x].0 == head[i].0;
                assert(entries[x].0 == ev[i].0);
                assert(entries[x].0 != last.0);
            }
        }
        assert forall|i: int, a: int, b: int|
            0 <= i < ev.len() && 0 <= a < b < ev[i].1.len() implies ev[i].1[a].0
            != ev[i].1[b].0 by {
            if i >= head.len() {
                let kept = keep_buckets(last.1, th);
                assert(ev[i].1 == kept);
                let (x, y) = choose|x: int, y: int|
                    0 <= x < y < last.1.len() && last.1[x] == kept[a] && last.1[y] == kept[b];
                assert(entries[entries.len() - 1].1[x].0 != entries[entries.len() - 1].1[y].0);
            }
        }
    }
}

/// Every key of the evicted state is a key of the old state.
pub proof fn lemma_evict_view_keys(entries: Seq<(Seq<char>, Seq<(int, Seq<i64>)>)>, th: int)
    ensures
        forall|i: int|
            0 <= i < evict_view(entries, th).len()
                ==> exists|j: int|
                    0 <= j < entries.len() && entries[j].0 == #[trigger] evict_view(
                        entries,
                        th,
                    )[i].0,
    decreases entries.len(),
{
    if entries.len() > 0 {
        lemma_evict_view_keys(entries.drop_last(), th);
        assert forall|i: int| 0 <= i < evict_view(entries, th).len() implies exists|j: int|
            0 <= j < entries.len() && entries[j].0 == #[trigger] evict_view(entries, th)[i].0 by {
            let ev = evict_view(entries, th);
            let head = evict_view(entries.drop_last(), th);
            if i < head.len() {
                let j = choose|j: int|
                    0 <= j < entries.drop_last().len() && entries.drop_last()[j].0 == head[i].0;
                assert(entries[j].0 == ev[i].0);
            } else {
                assert(entries[entries.len() - 1].0 == ev[i].0);
            }
        }
    }
}

/// Every surviving bucket of one key was among that key's buckets, at a
/// time strictly above the threshold.
pub proof fn lemma_keep_buckets_sub(buckets: Seq<(int, Seq<i64>)>, th: int)
    ensures
        forall|a: int|
            0 <= a < keep_buckets(buckets, th).len()
                ==> #[trigger] keep_buckets(buckets, th)[a].0 > th && exists|x: int|
                    0 <= x < buckets.len() && buckets[x] == keep_buckets(buckets, th)[a],
        forall|a: int, b: int|
            0 <= a < b < keep_buckets(buckets, th).len()
                ==> exists|x: int, y: int|
                    0 <= x < y < buckets.len()
                        && buckets[x] == #[trigger] keep_buckets(buckets, th)[a]
                        && buckets[y] == #[trigger] keep_buckets(buckets, th)[b],
    decreases buckets.len(),
{
    if buckets.len() > 0 {
        lemma_keep_buckets_sub(buckets.drop_last(), th);
        let kept = keep_buckets(buckets, th);
        let head = keep_buckets(buckets.drop_last(), th);
        assert forall|a: int| 0 <= a < kept.len() implies #[trigger] kept[a].0 > th
            && exists|x: int| 0 <= x < buckets.len() && buckets[x] == kept[a] by {
            if a < head.len() {
                let x = choose|x: int|
                    0 <= x < buckets.drop_last().len() && buckets.drop_last()[x] == head[a];
                assert(buckets[x] == kept[a]);
            } else {
                assert(buckets[buckets.len() - 1] == kept[a]);
            }
        }
        assert forall|a: int, b: int| 0 <= a < b < kept.len() implies exists|x: int, y: int|
            0 <= x < y < buckets.len() && buckets[x] == #[trigger] kept[a] && buckets[y]
                == #[trigger] kept[b] by {
            if b < head.len() {
                let (x, y) = choose|x: int, y: int|
                    0 <= x < y < buckets.drop_last().len() && buckets.drop_last()[x] == head[a]
                        && buckets.drop_last()[y] == head[b];
                assert(buckets[x] == kept[a] && buckets[y] == kept[b]);
            } else {
                let x = choose|x: int|
                    0 <= x < buckets.drop_last().len() && buckets.drop_last()[x] == head[a];
                assert(buckets[x] == kept[a] && buckets[buckets.len() - 1] == kept[b]);
            }
        }
    }
}

/// Every bucket surviving an eviction pass lies strictly above the
/// threshold, and no surviving key is left without buckets.
pub proof fn lemma_evict_times(entries: Seq<(Seq<char>, Seq<(int, Seq<i64>)>)>, th: int)
    ensures
        forall|i: int, a: int|
            0 <= i < evict_view(entries, th).len() && 0 <= a < evict_view(entries, th)[i].1.len()
                ==> #[trigger] evict_view(entries, th)[i].1[a].0 > th,
        forall|i: int|
            0 <= i < evict_view(entries, th).len()
                ==> #[trigger] evict_view(entries, th)[i].1.len() > 0,
    decreases entries.len(),
{
    if entries.len() > 0 {
        lemma_evict_times(entries.drop_last(), th);
        lemma_keep_buckets_sub(entries.last().1, th);
        let ev = evict_view(entries, th);
        let head = evict_view(entries.drop_last(), th);
        let kept = keep_buckets(entries.last().1, th);
        assert forall|i: int, a: int|
            0 <= i < ev.len() && 0 <= a < ev[i].1.len() implies #[trigger] ev[i].1[a].0 > th by {
            if i >= head.len() {
                assert(ev[i].1 == kept);
                assert(kept[a].0 > th);
            }
        }
        assert forall|i: int| 0 <= i < ev.len() implies #[trigger] ev[i].1.len() > 0 by {
            if i >= head.len() {
                assert(ev[i].1 == kept);
            }
        }
    }
}

/// A bucket list whose every time lies above the threshold survives
/// eviction unchanged.
pub proof fn lemma_keep_buckets_noop(buckets: Seq<(int, Seq<i64>)>, th: int)
    requires
        forall|a: int| 0 <= a < buckets.len() ==> buckets[a].0 > th,
    ensures
        keep_buckets(buckets, th) == buckets,
    decreases buckets.len(),
{
    if buckets.len() > 0 {
        lemma_keep_buckets_noop(buckets.drop_last(), th);
        assert(keep_buckets(buckets, th) =~= buckets);
    }
}

/// A state whose every bucket time lies above the threshold, and whose
/// every key holds at least one bucket, survives eviction unchanged.
pub proof fn lemma_evict_view_noop(entries: Seq<(Seq<char>, Seq<(int, Seq<i64>)>)>, th: int)
    requires
        forall|i: int, a: int|
            0 <= i < entries.len() && 0 <= a < entries[i].1.len()
                ==> #[trigger] entries[i].1[a].0 > th,
        forall|i: int| 0 <= i < entries.len() ==> #[trigger] entries[i].1.len() > 0,
    ensures
        evict_view(entries, th) == entries,
    decreases entries.len(),
{
    if entries.len() > 0 {
        assert forall|i: int, a: int|
            0 <= i < entries.drop_last().len() && 0 <= a < entries.drop_last()[i].1.len() implies
            #[trigger] entries.drop_last()[i].1[a].0 > th by {
            assert(entries.drop_last()[i] == entries[i]);
        }
        assert forall|i: int| 0 <= i < entries.drop_last().len() implies #[trigger] entries
            .drop_last()[i].1.len() > 0 by {
            assert(entries.drop_last()[i] == entries[i]);
        }
        lemma_evict_view_noop(entries.drop_last(), th);
        assert(entries[entries.len() - 1] == entries.last());
        lemma_keep_buckets_noop(entries.last().1, th);
        assert(evict_view(entries, th) =~= entries);
    }
}

/// The largest time of a key's surviving buckets never exceeds its old
/// largest time.
pub proof fn lemma_max_time_of_keep(buckets: Seq<(int, Seq<i64>)>, th: int)
    ensures
        max_time_of(keep_buckets(buckets, th)) <= max_time_of(buckets),
    decreases buckets.len(),
{
    if buckets.len() > 0 {
        lemma_max_time_of_keep(buckets.drop_last(), th);
        let kept = keep_buckets(buckets, th);
        if buckets.last().0 > th {
            assert(kept.drop_last() =~= keep_buckets(buckets.drop_last(), th));
            assert(kept.last() == buckets.last());
        }
    }
}

/// The largest observed time never grows through eviction.
pub proof fn lemma_max_time_evict(entries: Seq<(Seq<char>, Seq<(int, Seq<i64>)>)>, th: int)
    ensures
        max_time(evict_view(entries, th)) <= max_time(entries),
    decreases entries.len(),
{
    if entries.len() > 0 {
        lemma_max_time_evict(entries.drop_last(), th);
        lemma_max_time_of_keep(entries.last().1, th);
        let kept = keep_buckets(entries.last().1, th);
        if kept.len() > 0 {
            let ev = evict_view(entries, th);
            assert(ev.drop_last() =~= evict_view(entries.drop_last(), th));
            assert(ev.last() == (entries.last().0, kept));
        }
    }
}

/// Eviction is idempotent: running the pass twice in a row with no new
/// inserts removes nothing on the second pass.  The threshold of each
/// pass is recomputed as the largest stored time minus the largest
/// observed window size, exactly as `evict_pass` computes it.
pub proof fn lemma_evict_idempotent(
    entries: Seq<(Seq<char>, Seq<(int, Seq<i64>)>)>,
    max_window: int,
)
    ensures
        evict_view(
            evict_view(entries, max_time(entries) - max_window),
            max_time(evict_view(entries, max_time(entries) - max_window)) - max_window,
        ) == evict_view(entries, max_time(entries) - max_window),
{
    let th1 = max_time(entries) - max_window;
    let v1 = evict_view(entries, th1);
    let th2 = max_time(v1) - max_window;
    lemma_max_time_evict(entries, th1);
    lemma_evict_times(entries, th1);
    assert forall|i: int, a: int| 0 <= i < v1.len() && 0 <= a < v1[i].1.len() implies
        #[trigger] v1[i].1[a].0 > th2 by {
        assert(v1[i].1[a].0 > th1);
    }
    lemma_evict_view_noop(v1, th2);
}

/// Every key whose buckets do not all expire survives eviction with
/// exactly its surviving buckets: a bucket above the threshold is never
/// removed.
pub proof fn lemma_evict_membership(entries: Seq<(Seq<char>, Seq<(int, Seq<i64>)>)>, th: int)
    ensures
        forall|i: int|
            0 <= i < entries.len() && keep_buckets(#[trigger] entries[i].1, th).len() > 0
                ==> exists|j: int|
                    0 <= j < evict_view(entries, th).len() && evict_view(entries, th)[j]
                        == (entries[i].0, keep_buckets(entries[i].1, th)),
    decreases entries.len(),
{
    if entries.len() > 0 {
        lemma_evict_membership(entries.drop_last(), th);
        let ev = evict_view(entries, th);
        let head = evict_view(entries.drop_last(), th);
        assert forall|i: int|
            0 <= i < entries.len() && keep_buckets(#[trigger] entries[i].1, th).len() > 0 implies
            exists|j: int|
                0 <= j < ev.len() && ev[j] == (entries[i].0, keep_buckets(entries[i].1, th)) by {
            if i < entries.len() - 1 {
                assert(entries.drop_last()[i] == entries[i]);
                let j = choose|j: int|
                    0 <= j < head.len() && head[j] == (
                        entries.drop_last()[i].0,
                        keep_buckets(entries.drop_last()[i].1, th),
                    );
                assert(ev[j] == (entries[i].0, keep_buckets(entries[i].1, th)));
            } else {
                assert(entries[i] == entries.last());
                assert(ev[ev.len() - 1] == (entries[i].0, keep_buckets(entries[i].1, th)));
            }
        }
    }
}

/// The state after inserting a whole session of `(time, value)` pairs
/// under one key, starting from the empty state.
pub open spec fn apply_inserts(key: Seq<char>, ins: Seq<(i64, i64)>) -> Seq<
    (Seq<char>, Seq<(int, Seq<i64>)>),
>
    decreases ins.len(),
{
    if ins.len() == 0 {
        Seq::empty()
    } else {
        insert_view(
            apply_inserts(key, ins.drop_last()),
            key,
            ins.last().0 as int,
            ins.last().1,
        )
    }
}

/// The inserted values whose time lies in `(start, end]`, in insertion
/// order.
pub open spec fn selected_values(ins: Seq<(i64, i64)>, start: int, end: int) -> Seq<i64>
    decreases ins.len(),
{
    if ins.len() == 0 {
        Seq::empty()
    } else {
        let head = selected_values(ins.drop_last(), start, end);
        if start < ins.last().0 && ins.last().0 <= end {
            head.push(ins.last().1)
        } else {
            head
        }
    }
}

/// The shape of a single-key state built by a session of inserts with
/// non-decreasing event times: one entry, its bucket times strictly
/// increasing, the last bucket at the last inserted time.
pub proof fn lemma_apply_inserts_shape(key: Seq<char>, ins: Seq<(i64, i64)>)
    requires
        forall|i: int, j: int| 0 <= i < j < ins.len() ==> (#[trigger] ins[i]).0 <= (#[trigger] ins[j]).0,
        ins.len() > 0,
    ensures
        apply_inserts(key, ins).len() == 1,
        apply_inserts(key, ins)[0].0 == key,
        apply_inserts(key, ins)[0].1.len() > 0,
        apply_inserts(key, ins)[0].1.last().0 == ins.last().0 as int,
        forall|a: int, b: int|
            0 <= a < b < apply_inserts(key, ins)[0].1.len()
                ==> #[trigger] apply_inserts(key, ins)[0].1[a].0
                    < #[trigger] apply_inserts(key, ins)[0].1[b].0,
        forall|a: int|
            0 <= a < apply_inserts(key, ins)[0].1.len()
                ==> #[trigger] apply_inserts(key, ins)[0].1[a].0 <= ins.last().0 as int,
    decreases ins.len(),
{
    let t = ins.last().0 as int;
    let v = ins.last().1;
    if ins.len() == 1 {
        assert(apply_inserts(key, ins.drop_last()) =~= Seq::empty());
        assert(apply_inserts(key, ins)
            =~= Seq::empty().push((key, seq![(t, seq![v])])));
    } else {
        assert forall|i: int, j: int| 0 <= i < j < ins.drop_last().len() implies
            (#[trigger] ins.drop_last()[i]).0 <= (#[trigger] ins.drop_last()[j]).0 by {
            assert(ins.drop_last()[i] == ins[i] && ins.drop_last()[j] == ins[j]);
        }
        lemma_apply_inserts_shape(key, ins.drop_last());
        let st = apply_inserts(key, ins.drop_last());
        let bs = st[0].1;
        let t_prev = ins.drop_last().last().0 as int;
        assert(ins.drop_last()[ins.len() - 2] == ins[ins.len() - 2]);
        assert(ins[ins.len() - 2].0 <= ins[ins.len() - 1].0);
        assert(key_index(st, key) == 0);
        if t > t_prev {
            assert forall|a: int| 0 <= a < bs.len() implies bs[a].0 != t by {
                assert(bs[a].0 <= t_prev);
            }
            lemma_time_index_absent(bs, t);
            assert(apply_inserts(key, ins)[0].1 == bs.push((t, seq![v])));
        } else {
            assert(t == t_prev);
            assert(bs[bs.len() - 1].0 == t);
            assert forall|a: int| 0 <= a < bs.len() - 1 implies bs[a].0 != t by {
                assert(bs[a].0 < bs[bs.len() - 1].0);
            }
            lemma_time_index_first(bs, t, bs.len() - 1);
            assert(apply_inserts(key, ins)[0].1
                == bs.update(bs.len() - 1, (t, bs[bs.len() - 1].1.push(v))));
        }
    }
}

/// A window scan over a session of inserts with non-decreasing event
/// times returns exactly the inserted values whose time lies in
/// `(start, end]`, in insertion order; with `lemma_sum_of_append`, the
/// sum of two partial scans equals the scan of their union.
pub proof fn lemma_window_scan_exact(
    key: Seq<char>,
    ins: Seq<(i64, i64)>,
    start: int,
    end: int,
)
    requires
        forall|i: int, j: int| 0 <= i < j < ins.len() ==> (#[trigger] ins[i]).0 <= (#[trigger] ins[j]).0,
    ensures
        window_values(buckets_of(apply_inserts(key, ins), key), start, end)
            == selected_values(ins, start, end),
    decreases ins.len(),
{
    if ins.len() == 0 {
    } else {
        assert forall|i: int, j: int| 0 <= i < j < ins.drop_last().len() implies
            (#[trigger] ins.drop_last()[i]).0 <= (#[trigger] ins.drop_last()[j]).0 by {
            assert(ins.drop_last()[i] == ins[i] && ins.drop_last()[j] == ins[j]);
        }
        lemma_window_scan_exact(key, ins.drop_last(), start, end);
        let t = ins.last().0 as int;
        let v = ins.last().1;
        if ins.len() == 1 {
            assert(apply_inserts(key, ins.drop_last()) =~= Seq::empty());
            let st = apply_inserts(key, ins);
            assert(st =~= Seq::empty().push((key, seq![(t, seq![v])])));
            assert(key_index(st, key) == 0);
            let bs = st[0].1;
            assert(bs =~= seq![(t, seq![v])]);
            assert(bs.drop_last() =~= Seq::<(int, Seq<i64>)>::empty());
            if start < t && t <= end {
                assert(window_values(bs, start, end) =~= seq![v]);
                assert(selected_values(ins, start, end) =~= seq![v]);
            }
        } else {
            lemma_apply_inserts_shape(key, ins.drop_last());
            let st = apply_inserts(key, ins.drop_last());
            let bs = st[0].1;
            let t_prev = ins.drop_last().last().0 as int;
            assert(ins.drop_last()[ins.len() - 2] == ins[ins.len() - 2]);
            assert(ins[ins.len() - 2].0 <= ins[ins.len() - 1].0);
            assert(key_index(st, key) == 0);
            assert(buckets_of(st, key) == bs);
            let st2 = apply_inserts(key, ins);
            assert(key_index(st2, key) == 0);
            let bs2 = st2[0].1;
            if t > t_prev {
                assert forall|a: int| 0 <= a < bs.len() implies bs[a].0 != t by {
                    assert(bs[a].0 <= t_prev);
                }
                lemma_time_index_absent(bs, t);
                assert(bs2 == bs.push((t, seq![v])));
                assert(bs2.drop_last() =~= bs);
                if start < t && t <= end {
                    assert(window_values(bs2, start, end)
                        =~= window_values(bs, start, end).push(v));
                }
            } else {
                assert(t == t_prev);
                assert(bs[bs.len() - 1].0 == t);
                assert forall|a: int| 0 <= a < bs.len() - 1 implies bs[a].0 != t by {
                    assert(bs[a].0 < bs[bs.len() - 1].0);
                }
                lemma_time_index_first(bs, t, bs.len() - 1);
                let vals = bs[bs.len() - 1].1;
                assert(bs2 == bs.update(bs.len() - 1, (t, vals.push(v))));
                assert(bs2.drop_last() =~= bs.drop_last());
                assert(bs.last() == (t, vals));
                assert(bs2.last() == (t, vals.push(v)));
                if start < t && t <= end {
                    assert(window_values(bs2, start, end)
                        == window_values(bs.drop_last(), start, end) + vals.push(v));
                    assert(window_values(bs, start, end)
                        == window_values(bs.drop_last(), start, end) + vals);
                    assert(window_values(bs.drop_last(), start, end) + vals.push(v)
                        =~= (window_values(bs.drop_last(), start, end) + vals).push(v));
                } else {
                    assert(window_values(bs2, start, end)
                        == window_values(bs.drop_last(), start, end));
                    assert(window_values(bs, start, end)
                        == window_values(bs.drop_last(), start, end));
                }
            }
        }
    }
}

/// Appending a value grows the absolute sum by its magnitude.
proof fn lemma_sum_abs_push(values: Seq<i64>, v: i64)
    ensures
        sum_abs(values.push(v)) == sum_abs(values) + (if v < 0 {
            -(v as int)
        } else {
            v as int
        }),
{
    assert(values.push(v).drop_last() =~= values);
    assert(values.push(v).last() == v);
}

/// Inside an in-range bucket, the window's absolute sum dominates every
/// partial absolute sum.
proof fn lemma_window_partial_abs(
    buckets: Seq<(int, Seq<i64>)>,
    start: int,
    end: int,
    b: int,
    vs: Seq<i64>,
    k: int,
)
    requires
        0 <= b < buckets.len(),
        0 <= k < vs.len(),
        buckets[b].1 == vs,
        start < buckets[b].0 <= end,
    ensures
        sum_abs(window_values(buckets, start, end)) >= sum_abs(
            (window_values(buckets.take(b), start, end) + vs.take(k)).push(vs[k]),
        ),
{
    let head = window_values(buckets.take(b), start, end);
    let with_next = (head + vs.take(k)).push(vs[k]);
    lemma_window_values_take(buckets, start, end, b);
    let upto = window_values(buckets.take(b + 1), start, end);
    assert(upto == head + vs);
    assert(with_next =~= upto.take(head.len() + k + 1));
    lemma_window_prefix_abs(buckets, start, end, b + 1);
    lemma_sum_abs_prefix(upto, head.len() + k + 1);
}

/// Sum the in-window values of one bucket list, guarding every step.
/// Succeeds exactly when the absolute values inside the window sum to
/// at most `i64::MAX`, which keeps every partial fold in range.
#[verifier::loop_isolation(false)]
fn sum_window_buckets(buckets: &Vec<TimeBucket>, window_start: i128, end_time: i128) -> (r: Option<
    i64,
>)
    ensures
        ({
            let wv = window_values(
                buckets@.map_values(|x: TimeBucket| x@),
                window_start as int,
                end_time as int,
            );
            &&& (r is Some <==> sum_abs(wv) <= i64::MAX)
            &&& (r is Some ==> r->0 as int == sum_of(wv))
        }),
{
    let ghost bs = buckets@.map_values(|x: TimeBucket| x@);
    let ghost start = window_start as int;
    let ghost end = end_time as int;
    let mut acc: i128 = 0;
    let mut abs_acc: u64 = 0;
    let bn = buckets.len();
    let mut b: usize = 0;
    while b < bn
        invariant
            bn == buckets@.len(),
            b <= bn,
            bs.len() == bn,
            abs_acc <= i64::MAX,
            abs_acc as int == sum_abs(window_values(bs.take(b as int), start, end)),
            acc as int == sum_of(window_values(bs.take(b as int), start, end)),
        decreases bn - b,
    {
        proof {
            lemma_window_values_take(bs, start, end, b as int);
        }
        let bucket = &buckets[b];
        if window_start < bucket.time as i128 && bucket.time as i128 <= end_time {
            let ghost vs = bucket@.1;
            let vn = bucket.values.len();
            let mut k: usize = 0;
            while k < vn
                invariant
                    vn == bucket.values.len(),
                    k <= vn,
                    vs == bucket@.1,
                    abs_acc <= i64::MAX,
                    window_values(bs.take(b as int + 1), start, end)
                        == window_values(bs.take(b as int), start, end) + vs,
                    abs_acc as int == sum_abs(
                        window_values(bs.take(b as int), start, end) + vs.take(k as int),
                    ),
                    acc as int == sum_of(
                        window_values(bs.take(b as int), start, end) + vs.take(k as int),
                    ),
                decreases vn - k,
            {
                let v = bucket.values[k];
                let magnitude: u64 = if v < 0 {
                    (-(v as i128)) as u64
                } else {
                    v as u64
                };
                let ghost prefix = window_values(bs.take(b as int), start, end) + vs.take(k as int);
                proof {
                    assert(window_values(bs.take(b as int), start, end) + vs.take(k as int + 1)
                        =~= prefix.push(v));
                    lemma_sum_abs_push(prefix, v);
                    crate::accumulator::lemma_sum_of_push(prefix, v);
                }
                if magnitude > i64::MAX as u64 - abs_acc {
                    proof {
                        lemma_window_partial_abs(bs, start, end, b as int, vs, k as int);
                        lemma_window_prefix_abs(bs, start, end, bn as int);
                        assert(bs.take(bn as int) =~= bs);
                    }
                    return None;
                }
                abs_acc = abs_acc + magnitude;
                proof {
                    lemma_sum_within_abs(prefix.push(v));
                }
                acc = acc + v as i128;
                k = k + 1;
            }
            proof {
                assert(vs.take(vn as int) =~= vs);
            }
        } else {
            proof {
                assert(window_values(bs.take(b as int + 1), start, end)
                    == window_values(bs.take(b as int), start, end));
            }
        }
        b = b + 1;
    }
    proof {
        assert(bs.take(bn as int) =~= bs);
        lemma_sum_within_abs(window_values(bs, start, end));
    }
    Some(acc as i64)
}

impl KeyedAggState {
    /// Sum the values of `key` inside `(window_start, end_time]`,
    /// guarding every step of the fold; `None` reports that the window's
    /// absolute values exceed the machine range.
    pub fn window_sum_checked(&self, key: &String, window_start: i128, end_time: i128) -> (r:
        Option<i64>)
        ensures
            ({
                let wv = window_values(
                    buckets_of(self@, key@),
                    window_start as int,
                    end_time as int,
                );
                &&& (r is Some <==> sum_abs(wv) <= i64::MAX)
                &&& (r is Some ==> r->0 as int == sum_of(wv))
            }),
    {
        match self.find_key_index(key) {
            None => Some(0),
            Some(ki) => {
                proof {
                    assert(self.entries@[ki as int]@ == self@[ki as int]);
                }
                sum_window_buckets(&self.entries[ki].buckets, window_start, end_time)
            },
        }
    }
}

/// How many buckets the whole state holds, over all keys.
pub open spec fn total_buckets(entries: Seq<(Seq<char>, Seq<(int, Seq<i64>)>)>) -> int
    decreases entries.len(),
{
    if entries.len() == 0 {
        0
    } else {
        total_buckets(entries.drop_last()) + entries.last().1.len()
    }
}

/// `total_buckets` over one more entry.
pub proof fn lemma_total_buckets_take(entries: Seq<(Seq<char>, Seq<(int, Seq<i64>)>)>, i: int)
    requires
        0 <= i < entries.len(),
    ensures
        total_buckets(entries.take(i + 1)) == total_buckets(entries.take(i))
            + entries[i].1.len(),
{
    assert(entries.take(i + 1).drop_last() =~= entries.take(i));
    assert(entries.take(i + 1).last() == entries[i]);
}

impl KeyedAggState {
    /// Count every bucket currently stored, over all keys.
    #[verifier::loop_isolation(false)]
    pub fn count_buckets(&self) -> (n: u128)
        ensures
            n as int == total_buckets(self@),
    {
        let mut count: u128 = 0;
        let n = self.entries.len();
        let mut i: usize = 0;
        while i < n
            invariant
                n == self.entries.len(),
                i <= n,
                count as int == total_buckets(self@.take(i as int)),
                count as int <= (i as int) * 0xffff_ffff_ffff_ffff,
            decreases n - i,
        {
            proof {
                lemma_total_buckets_take(self@, i as int);
            }
            let more = self.entries[i].buckets.len();
            proof {
                assert(count as int + more as int <= (i as int + 1) * 0xffff_ffff_ffff_ffff)
                    by (nonlinear_arith)
                    requires
                        count as int <= (i as int) * 0xffff_ffff_ffff_ffff,
                        more as int <= 0xffff_ffff_ffff_ffff,
                        0 <= i as int,
                ;
                assert((i as int + 1) * 0xffff_ffff_ffff_ffff < u128::MAX) by (nonlinear_arith)
                    requires
                        i as int + 1 <= 0x1_0000_0000_0000_0000,
                ;
            }
            count = count + more as u128;
            i = i + 1;
        }
        proof {
            assert(self@.take(n as int) =~= self@);
        }
        count
    }
}

/// Inserting keeps bucket times unique.
pub proof fn lemma_insert_bucket_wf(buckets: Seq<(int, Seq<i64>)>, t: int, value: i64)
    requires
        forall|a: int, b: int| 0 <= a < b < buckets.len() ==> buckets[a].0 != buckets[b].0,
    ensures
        forall|a: int, b: int|
            0 <= a < b < insert_bucket(buckets, t, value).len()
                ==> insert_bucket(buckets, t, value)[a].0 != insert_bucket(buckets, t, value)[b].0,
{
    lemma_time_index_properties(buckets, t);
    if time_index(buckets, t) == -1 {
        lemma_time_index_not_found(buckets, t);
    }
}

/// Eviction keeps bucket times unique.
pub proof fn lemma_keep_buckets_wf(buckets: Seq<(int, Seq<i64>)>, th: int)
    requires
        forall|a: int, b: int| 0 <= a < b < buckets.len() ==> buckets[a].0 != buckets[b].0,
    ensures
        forall|a: int, b: int|
            0 <= a < b < keep_buckets(buckets, th).len()
                ==> keep_buckets(buckets, th)[a].0 != keep_buckets(buckets, th)[b].0,
{
    lemma_keep_buckets_sub(buckets, th);
    let kept = keep_buckets(buckets, th);
    assert forall|a: int, b: int| 0 <= a < b < kept.len() implies kept[a].0 != kept[b].0 by {
        let (x, y) = choose|x: int, y: int|
            0 <= x < y < buckets.len() && buckets[x] == kept[a] && buckets[y] == kept[b];
        assert(buckets[x].0 != buckets[y].0);
    }
}

/// A single time-indexed value map: the state of the unkeyed alarm
/// stage, whose buckets are keyed by event time alone.
#[derive(Clone, Debug)]
pub struct TimeSeries {
    pub buckets: Vec<TimeBucket>,
}

impl View for TimeSeries {
    type V = Seq<(int, Seq<i64>)>;

    open spec fn view(&self) -> Seq<(int, Seq<i64>)> {
        self.buckets@.map_values(|b: TimeBucket| b@)
    }
}

impl TimeSeries {
    /// Well-formed: bucket times are unique.
    pub open spec fn wf(&self) -> bool {
        forall|a: int, b: int| 0 <= a < b < self@.len() ==> self@[a].0 != self@[b].0
    }

    pub fn new() -> (s: TimeSeries)
        ensures
            s@.len() == 0,
            s.wf(),
    {
        TimeSeries { buckets: Vec::new() }
    }

    pub fn bucket_count(&self) -> (n: usize)
        ensures
            n == self@.len(),
    {
        self.buckets.len()
    }

    /// Insert one `(event_time, value)` pair.
    pub fn insert(&mut self, time: i64, value: i64)
        requires
            old(self).wf(),
        ensures
            final(self)@ == insert_bucket(old(self)@, time as int, value),
            final(self).wf(),
    {
        proof {
            lemma_insert_bucket_wf(old(self)@, time as int, value);
        }
        match find_time_index(&self.buckets, time) {
            None => {
                self.buckets.push(TimeBucket { time, values: vec_one(value) });
                proof {
                    assert(self@ =~~= insert_bucket(old(self)@, time as int, value));
                }
            },
            Some(ti) => {
                let mut bucket = self.buckets.remove(ti);
                bucket.values.push(value);
                self.buckets.insert(ti, bucket);
                proof {
                    assert(self@ =~~= insert_bucket(old(self)@, time as int, value));
                }
            },
        }
    }

    /// Sum the values inside `(window_start, end_time]`, guarding every
    /// step of the fold.
    pub fn window_sum_checked(&self, window_start: i128, end_time: i128) -> (r: Option<i64>)
        ensures
            ({
                let wv = window_values(self@, window_start as int, end_time as int);
                &&& (r is Some <==> sum_abs(wv) <= i64::MAX)
                &&& (r is Some ==> r->0 as int == sum_of(wv))
            }),
    {
        sum_window_buckets(&self.buckets, window_start, end_time)
    }

    /// Remove every bucket at or below the given threshold.
    #[verifier::loop_isolation(false)]
    pub fn evict_below(&mut self, threshold: i128)
        requires
            old(self).wf(),
        ensures
            final(self)@ == keep_buckets(old(self)@, threshold as int),
            final(self).wf(),
    {
        let ghost th = threshold as int;
        let bn = self.buckets.len();
        let mut kept: Vec<TimeBucket> = Vec::new();
        let mut b: usize = 0;
        while b < bn
            invariant
                bn == self.buckets@.len(),
                b <= bn,
                kept@.map_values(|x: TimeBucket| x@) == keep_buckets(self@.take(b as int), th),
            decreases bn - b,
        {
            proof {
                lemma_keep_buckets_take(self@, th, b as int);
            }
            if self.buckets[b].time as i128 > threshold {
                kept.push(copy_bucket(&self.buckets[b]));
                proof {
                    assert(kept@.map_values(|x: TimeBucket| x@)
                        =~= keep_buckets(self@.take(b as int + 1), th));
                }
            } else {
                proof {
                    assert(kept@.map_values(|x: TimeBucket| x@)
                        =~= keep_buckets(self@.take(b as int + 1), th));
                }
            }
            b = b + 1;
        }
        proof {
            assert(self@.take(bn as int) =~= self@);
            lemma_keep_buckets_wf(self@, th);
        }
        self.buckets = kept;
    }
}

/// Where a bucket with time `time` is stored, if anywhere.
#[verifier::loop_isolation(false)]
pub fn find_time_index(buckets: &Vec<TimeBucket>, time: i64) -> (r: Option<usize>)
    ensures
        match r {
            Some(i) => i < buckets@.len()
                && time_index(buckets@.map_values(|b: TimeBucket| b@), time as int) == i as int
                && buckets@[i as int].time as int == time as int,
            None => time_index(buckets@.map_values(|b: TimeBucket| b@), time as int) == -1,
        },
{
    let ghost bs = buckets@.map_values(|b: TimeBucket| b@);
    let mut i: usize = 0;
    let n = buckets.len();
    while i < n
        invariant
            n == buckets@.len(),
            i <= n,
            forall|j: int| 0 <= j < i ==> bs[j].0 != time as int,
        decreases n - i,
    {
        if buckets[i].time == time {
            proof {
                lemma_time_index_first(bs, time as int, i as int);
            }
            return Some(i);
        }
        i = i + 1;
    }
    proof {
        lemma_time_index_absent(bs, time as int);
    }
    None
}

/// A deep copy of a value vector, field for field.
fn copy_values(src: &Vec<i64>) -> (r: Vec<i64>)
    ensures
        r@ == src@,
{
    let mut r: Vec<i64> = Vec::new();
    let n = src.len();
    let mut i: usize = 0;
    while i < n
        invariant
            n == src@.len(),
            i <= n,
            r@ == src@.take(i as int),
        decreases n - i,
    {
        r.push(src[i]);
        proof {
            assert(r@ =~= src@.take(i as int + 1));
        }
        i = i + 1;
    }
    proof {
        assert(src@.take(n as int) =~= src@);
    }
    r
}

/// A deep copy of one time bucket.
fn copy_bucket(src: &TimeBucket) -> (r: TimeBucket)
    ensures
        r@ == src@,
{
    TimeBucket { time: src.time, values: copy_values(&src.values) }
}

/// A vector holding exactly one value.
fn vec_one(value: i64) -> (v: Vec<i64>)
    ensures
        v@ =~= seq![value],
{
    let mut v: Vec<i64> = Vec::new();
    v.push(value);
    v
}

/// A bucket vector holding exactly one fresh bucket.
fn vec_one_bucket(time: i64, value: i64) -> (v: Vec<TimeBucket>)
    ensures
        v@.map_values(|b: TimeBucket| b@) =~= seq![(time as int, seq![value])],
{
    let mut v: Vec<TimeBucket> = Vec::new();
    v.push(TimeBucket { time, values: vec_one(value) });
    v
}

/// If no prefix entry holds `key` and entry `i` does, then `i` is the
/// first index.
pub proof fn lemma_key_index_first(
    entries: Seq<(Seq<char>, Seq<(int, Seq<i64>)>)>,
    key: Seq<char>,
    i: int,
)
    requires
        0 <= i < entries.len(),
        entries[i].0 == key,
        forall|j: int| 0 <= j < i ==> entries[j].0 != key,
    ensures
        key_index(entries, key) == i,
    decreases i,
{
    if i > 0 {
        assert forall|j: int| 0 <= j < entries.len() - 1 implies #[trigger] entries.drop_first()[j]
            == entries[j + 1] by {}
        lemma_key_index_first(entries.drop_first(), key, i - 1);
    }
}

/// If no entry holds `key`, the index is `-1`; and the index, when not
/// `-1`, points at `key`.
pub proof fn lemma_key_index_properties(
    entries: Seq<(Seq<char>, Seq<(int, Seq<i64>)>)>,
    key: Seq<char>,
)
    ensures
        (forall|j: int| 0 <= j < entries.len() ==> entries[j].0 != key)
            ==> key_index(entries, key) == -1,
        key_index(entries, key) != -1 ==> {
            &&& 0 <= key_index(entries, key) < entries.len()
            &&& entries[key_index(entries, key)].0 == key
        },
    decreases entries.len(),
{
    if entries.len() > 0 {
        assert forall|j: int| 0 <= j < entries.len() - 1 implies #[trigger] entries.drop_first()[j]
            == entries[j + 1] by {}
        lemma_key_index_properties(entries.drop_first(), key);
    }
}

/// The bucket-index analogue of `lemma_key_index_first`.
pub proof fn lemma_time_index_first(buckets: Seq<(int, Seq<i64>)>, t: int, i: int)
    requires
        0 <= i < buckets.len(),
        buckets[i].0 == t,
        forall|j: int| 0 <= j < i ==> buckets[j].0 != t,
    ensures
        time_index(buckets, t) == i,
    decreases i,
{
    if i > 0 {
        assert forall|j: int| 0 <= j < buckets.len() - 1 implies #[trigger] buckets.drop_first()[j]
            == buckets[j + 1] by {}
        lemma_time_index_first(buckets.drop_first(), t, i - 1);
    }
}

/// The bucket-index analogue of `lemma_key_index_properties`.
pub proof fn lemma_time_index_properties(buckets: Seq<(int, Seq<i64>)>, t: int)
    ensures
        (forall|j: int| 0 <= j < buckets.len() ==> buckets[j].0 != t)
            ==> time_index(buckets, t) == -1,
        time_index(buckets, t) != -1 ==> {
            &&& 0 <= time_index(buckets, t) < buckets.len()
            &&& buckets[time_index(buckets, t)].0 == t
        },
    decreases buckets.len(),
{
    if buckets.len() > 0 {
        assert forall|j: int| 0 <= j < buckets.len() - 1 implies #[trigger] buckets.drop_first()[j]
            == buckets[j + 1] by {}
        lemma_time_index_properties(buckets.drop_first(), t);
    }
}

/// Inserting preserves key uniqueness and per-key time uniqueness.
pub proof fn lemma_insert_view_wf(
    entries: Seq<(Seq<char>, Seq<(int, Seq<i64>)>)>,
    key: Seq<char>,
    t: int,
    value: i64,
)
    requires
        forall|i: int, j: int| 0 <= i < j < entries.len() ==> entries[i].0 != entries[j].0,
        forall|i: int, a: int, b: int|
            0 <= i < entries.len() && 0 <= a < b < entries[i].1.len()
                ==> entries[i].1[a].0 != entries[i].1[b].0,
    ensures
        forall|i: int, j: int|
            0 <= i < j < insert_view(entries, key, t, value).len()
                ==> insert_view(entries, key, t, value)[i].0
                    != insert_view(entries, key, t, value)[j].0,
        forall|i: int, a: int, b: int|
            0 <= i < insert_view(entries, key, t, value).len()
                && 0 <= a < b < insert_view(entries, key, t, value)[i].1.len()
                ==> insert_view(entries, key, t, value)[i].1[a].0
                    != insert_view(entries, key, t, value)[i].1[b].0,
{
    lemma_key_index_properties(entries, key);
    let ki = key_index(entries, key);
    if ki == -1 {
        lemma_key_index_not_found(entries, key);
    } else {
        let bs = entries[ki].1;
        lemma_time_index_properties(bs, t);
        let ti = time_index(bs, t);
        if ti == -1 {
            lemma_time_index_not_found(bs, t);
        }
    }
}

/// When the key index is `-1`, no entry holds the key.
pub proof fn lemma_key_index_not_found(
    entries: Seq<(Seq<char>, Seq<(int, Seq<i64>)>)>,
    key: Seq<char>,
)
    requires
        key_index(entries, key) == -1,
    ensures
        forall|j: int| 0 <= j < entries.len() ==> entries[j].0 != key,
    decreases entries.len(),
{
    if entries.len() > 0 {
        lemma_key_index_range(entries.drop_first(), key);
        assert(entries[0].0 != key);
        assert(key_index(entries.drop_first(), key) == -1);
        lemma_key_index_not_found(entries.drop_first(), key);
        assert forall|j: int| 0 <= j < entries.len() implies entries[j].0 != key by {
            if j > 0 {
                assert(entries.drop_first()[j - 1] == entries[j]);
            }
        }
    }
}

/// The key index is `-1` or a position inside the sequence.
pub proof fn lemma_key_index_range(
    entries: Seq<(Seq<char>, Seq<(int, Seq<i64>)>)>,
    key: Seq<char>,
)
    ensures
        -1 <= key_index(entries, key) < entries.len(),
    decreases entries.len(),
{
    if entries.len() > 0 {
        lemma_key_index_range(entries.drop_first(), key);
    }
}

/// The time index is `-1` or a position inside the sequence.
pub proof fn lemma_time_index_range(buckets: Seq<(int, Seq<i64>)>, t: int)
    ensures
        -1 <= time_index(buckets, t) < buckets.len(),
    decreases buckets.len(),
{
    if buckets.len() > 0 {
        lemma_time_index_range(buckets.drop_first(), t);
    }
}

/// When no entry holds the key, the index is `-1`.
pub proof fn lemma_key_index_absent(
    entries: Seq<(Seq<char>, Seq<(int, Seq<i64>)>)>,
    key: Seq<char>,
)
    requires
        forall|j: int| 0 <= j < entries.len() ==> entries[j].0 != key,
    ensures
        key_index(entries, key) == -1,
    decreases entries.len(),
{
    if entries.len() > 0 {
        assert forall|j: int| 0 <= j < entries.len() - 1 implies entries.drop_first()[j].0
            != key by {
            assert(entries.drop_first()[j] == entries[j + 1]);
        }
        lemma_key_index_absent(entries.drop_first(), key);
    }
}

/// When no bucket holds the time, the index is `-1`.
pub proof fn lemma_time_index_absent(buckets: Seq<(int, Seq<i64>)>, t: int)
    requires
        forall|j: int| 0 <= j < buckets.len() ==> buckets[j].0 != t,
    ensures
        time_index(buckets, t) == -1,
    decreases buckets.len(),
{
    if buckets.len() > 0 {
        assert forall|j: int| 0 <= j < buckets.len() - 1 implies buckets.drop_first()[j].0
            != t by {
            assert(buckets.drop_first()[j] == buckets[j + 1]);
        }
        lemma_time_index_absent(buckets.drop_first(), t);
    }
}

/// When the time index is `-1`, no bucket holds the time.
pub proof fn lemma_time_index_not_found(buckets: Seq<(int, Seq<i64>)>, t: int)
    requires
        time_index(buckets, t) == -1,
    ensures
        forall|j: int| 0 <= j < buckets.len() ==> buckets[j].0 != t,
    decreases buckets.len(),
{
    if buckets.len() > 0 {
        lemma_time_index_range(buckets.drop_first(), t);
        assert(buckets[0].0 != t);
        assert(time_index(buckets.drop_first(), t) == -1);
        lemma_time_index_not_found(buckets.drop_first(), t);
        assert forall|j: int| 0 <= j < buckets.len() implies buckets[j].0 != t by {
            if j > 0 {
                assert(buckets.drop_first()[j - 1] == buckets[j]);
            }
        }
    }
}

/// Taking one more bucket extends the window values by that bucket's
/// contribution.
pub proof fn lemma_window_values_take(
    buckets: Seq<(int, Seq<i64>)>,
    start: int,
    end: int,
    b: int,
)
    requires
        0 <= b < buckets.len(),
    ensures
        window_values(buckets.take(b + 1), start, end) == if start < buckets[b].0
            && buckets[b].0 <= end {
            window_values(buckets.take(b), start, end) + buckets[b].1
        } else {
            window_values(buckets.take(b), start, end)
        },
{
    assert(buckets.take(b + 1).drop_last() =~= buckets.take(b));
    assert(buckets.take(b + 1).last() == buckets[b]);
}

/// Inside an in-range bucket, every partial fold stays within the bound
/// given by the whole window's absolute sum.
pub proof fn lemma_window_partial_in_range(
    buckets: Seq<(int, Seq<i64>)>,
    start: int,
    end: int,
    b: int,
    vs: Seq<i64>,
    k: int,
)
    requires
        0 <= b < buckets.len(),
        0 <= k < vs.len(),
        buckets[b].1 == vs,
        start < buckets[b].0 <= end,
        sum_abs(window_values(buckets, start, end)) <= i128::MAX,
    ensures
        -(i128::MAX as int) <= sum_of(
            window_values(buckets.take(b), start, end) + vs.take(k),
        ) + vs[k] <= i128::MAX,
{
    let prefix = window_values(buckets.take(b), start, end) + vs.take(k);
    let with_next = prefix.push(vs[k]);
    lemma_window_values_take(buckets, start, end, b);
    let upto = window_values(buckets.take(b + 1), start, end);
    assert(upto == window_values(buckets.take(b), start, end) + vs);
    assert(with_next =~= upto.take(window_values(buckets.take(b), start, end).len() + k + 1));
    lemma_window_prefix_abs(buckets, start, end, b + 1);
    lemma_sum_abs_prefix(upto, window_values(buckets.take(b), start, end).len() + k + 1);
    lemma_sum_within_abs(with_next);
    crate::accumulator::lemma_sum_of_push(prefix, vs[k]);
}

/// The window values of a prefix of the buckets have an absolute sum no
/// larger than those of all buckets.
pub proof fn lemma_window_prefix_abs(
    buckets: Seq<(int, Seq<i64>)>,
    start: int,
    end: int,
    n: int,
)
    requires
        0 <= n <= buckets.len(),
    ensures
        sum_abs(window_values(buckets.take(n), start, end))
            <= sum_abs(window_values(buckets, start, end)),
    decreases buckets.len() - n,
{
    if n < buckets.len() {
        lemma_window_prefix_abs(buckets, start, end, n + 1);
        lemma_window_values_take(buckets, start, end, n);
        if start < buckets[n].0 && buckets[n].0 <= end {
            let head = window_values(buckets.take(n), start, end);
            let ext = head + buckets[n].1;
            lemma_sum_abs_prefix(ext, head.len() as int);
            assert(ext.take(head.len() as int) =~= head);
        }
    } else {
        assert(buckets.take(n) =~= buckets);
    }
}

} // verus!
