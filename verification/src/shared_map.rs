//! The process-shared time-bucket map: the variant of the aggregation
//! state for deployments where the chain thread inserts while the
//! background eviction task sweeps concurrently.  The map is a sharded
//! concurrent map of an outside crate; what this library states about
//! it is pinned to one name for its contents, and everything computed
//! from it runs through verified functions over an extracted snapshot.
//!
//! A snapshot's iteration order is the map's own and is never pinned:
//! the contracts speak only of which entries exist, and the windowed
//! sum is proven order-independent.

use vstd::prelude::*;
use crate::accumulator::{sum_of, lemma_sum_of_push};
use crate::errors::StreamError;

verus! {

#[verifier::external_type_specification]
#[verifier::external_body]
#[verifier::reject_recursive_types(K)]
#[verifier::reject_recursive_types(V)]
#[verifier::reject_recursive_types(S)]
pub struct ExDashMap<K, V, S>(dashmap::DashMap<K, V, S>);

/// The process-shared map type: event time to inserted values.
pub type SharedTimeMap = dashmap::DashMap<i64, Vec<i64>>;

/// What the shared map holds: every value inserted at each event time,
/// in arrival order per time.
pub uninterp spec fn shared_contents(m: SharedTimeMap) -> Map<int, Seq<i64>>;

/// Relies on dashmap::DashMap::new; what the fresh map holds is pinned
/// by the clearing pass that follows it.
#[verifier::external_body]
fn shared_alloc() -> SharedTimeMap {
    dashmap::DashMap::new()
}

/// Relies on dashmap::DashMap::clear: every entry leaves the map.
#[verifier::external_body]
fn shared_clear(m: &mut SharedTimeMap)
    ensures
        shared_contents(*final(m)) == shared_contents(*old(m)).remove_keys(
            shared_contents(*old(m)).dom(),
        ),
{
    m.clear();
}

/// A shared map that holds nothing.
pub fn shared_new() -> (r: SharedTimeMap)
    ensures
        shared_contents(r) == Map::<int, Seq<i64>>::empty(),
{
    let mut m = shared_alloc();
    shared_clear(&mut m);
    proof {
        assert(shared_contents(m) =~= Map::<int, Seq<i64>>::empty());
    }
    m
}

/// Relies on dashmap::DashMap::entry with Entry::or_insert, then
/// Vec::push: the value joins the end of the key's list, which is
/// created empty when the key is absent.
#[verifier::external_body]
pub fn shared_push(m: &mut SharedTimeMap, t: i64, v: i64)
    ensures
        shared_contents(*final(m)) == shared_contents(*old(m)).insert(
            t as int,
            if shared_contents(*old(m)).dom().contains(t as int) {
                shared_contents(*old(m))[t as int].push(v)
            } else {
                seq![v]
            },
        ),
{
    m.entry(t).or_insert(Vec::new()).push(v);
}

/// Relies on dashmap::DashMap::iter: every stored entry appears exactly
/// once; the order is the map's own and nothing is promised of it.
#[verifier::external_body]
pub fn shared_snapshot(m: &SharedTimeMap) -> (r: Vec<(i64, Vec<i64>)>)
    ensures
        forall|i: int|
            0 <= i < r@.len() ==> shared_contents(*m).dom().contains(
                (#[trigger] r@[i]).0 as int,
            ) && shared_contents(*m)[r@[i].0 as int] == r@[i].1@,
        forall|t: int|
            shared_contents(*m).dom().contains(t) ==> exists|i: int|
                0 <= i < r@.len() && (#[trigger] r@[i]).0 as int == t,
        forall|i: int, j: int| 0 <= i < j < r@.len() ==> r@[i].0 != r@[j].0,
{
    let mut out: Vec<(i64, Vec<i64>)> = Vec::new();
    for entry in m.iter() {
        out.push((*entry.key(), entry.value().clone()));
    }
    out
}

/// Relies on dashmap::DashMap::remove: the key and its list leave the
/// map.
#[verifier::external_body]
pub fn shared_remove(m: &mut SharedTimeMap, t: i64)
    ensures
        shared_contents(*final(m)) == shared_contents(*old(m)).remove(t as int),
{
    m.remove(&t);
}

/// Relies on dashmap::DashMap::len: how many keys hold entries.
#[verifier::external_body]
pub fn shared_len(m: &SharedTimeMap) -> (n: usize)
    ensures
        n == shared_contents(*m).dom().len(),
{
    m.len()
}

/// The in-window values of one snapshot, in snapshot order.
pub open spec fn snapshot_window(
    entries: Seq<(i64, Vec<i64>)>,
    start: int,
    end: int,
) -> Seq<i64>
    decreases entries.len(),
{
    if entries.len() == 0 {
        Seq::empty()
    } else {
        let head = snapshot_window(entries.drop_last(), start, end);
        if start < entries.last().0 && entries.last().0 <= end {
            head + entries.last().1@
        } else {
            head
        }
    }
}

/// Sum the in-window values of an extracted snapshot, guarding every
/// step of the fold; `None` reports that the window's absolute values
/// exceed the machine range.  Whatever order the snapshot came in, the
/// sum covers exactly its in-window values.
#[verifier::loop_isolation(false)]
pub fn snapshot_window_sum(entries: &Vec<(i64, Vec<i64>)>, window_start: i128, end_time: i128)
    -> (r: Option<i64>)
    ensures
        ({
            let wv = snapshot_window(entries@, window_start as int, end_time as int);
            &&& (r is Some <==> crate::agg_state::sum_abs(wv) <= i64::MAX)
            &&& (r is Some ==> r->0 as int == sum_of(wv))
        }),
{
    let ghost es = entries@;
    let ghost start = window_start as int;
    let ghost end = end_time as int;
    let mut acc: i128 = 0;
    let mut abs_acc: u64 = 0;
    let n = entries.len();
    let mut i: usize = 0;
    while i < n
        invariant
            n == entries@.len(),
            i <= n,
            abs_acc <= i64::MAX,
            abs_acc as int == crate::agg_state::sum_abs(snapshot_window(es.take(i as int), start, end)),
            acc as int == sum_of(snapshot_window(es.take(i as int), start, end)),
        decreases n - i,
    {
        proof {
            assert(es.take(i as int + 1).drop_last() =~= es.take(i as int));
            assert(es.take(i as int + 1).last() == es[i as int]);
        }
        let t = entries[i].0;
        if window_start < t as i128 && t as i128 <= end_time {
            let values = &entries[i].1;
            let ghost vs = values@;
            let vn = values.len();
            let mut k: usize = 0;
            while k < vn
                invariant
                    vn == values@.len(),
                    k <= vn,
                    vs == values@,
                    abs_acc <= i64::MAX,
                    snapshot_window(es.take(i as int + 1), start, end)
                        == snapshot_window(es.take(i as int), start, end) + vs,
                    abs_acc as int == crate::agg_state::sum_abs(
                        snapshot_window(es.take(i as int), start, end) + vs.take(k as int),
                    ),
                    acc as int == sum_of(
                        snapshot_window(es.take(i as int), start, end) + vs.take(k as int),
                    ),
                decreases vn - k,
            {
                let v = values[k];
                let magnitude: u64 = if v < 0 {
                    (-(v as i128)) as u64
                } else {
                    v as u64
                };
                let ghost prefix = snapshot_window(es.take(i as int), start, end) + vs.take(
                    k as int,
                );
                proof {
                    assert(snapshot_window(es.take(i as int), start, end) + vs.take(k as int + 1)
                        =~= prefix.push(v));
                    lemma_snapshot_abs_push(prefix, v);
                    lemma_sum_of_push(prefix, v);
                }
                if magnitude > i64::MAX as u64 - abs_acc {
                    proof {
                        lemma_snapshot_partial_abs(es, start, end, i as int, vs, k as int);
                        lemma_snapshot_prefix_abs(es, start, end, n as int);
                        assert(es.take(n as int) =~= es);
                    }
                    return None;
                }
                abs_acc = abs_acc + magnitude;
                proof {
                    crate::agg_state::lemma_sum_within_abs(prefix.push(v));
                }
                acc = acc + v as i128;
                k = k + 1;
            }
            proof {
                assert(vs.take(vn as int) =~= vs);
            }
        } else {
            proof {
                assert(snapshot_window(es.take(i as int + 1), start, end)
                    == snapshot_window(es.take(i as int), start, end));
            }
        }
        i = i + 1;
    }
    proof {
        assert(es.take(n as int) =~= es);
        crate::agg_state::lemma_sum_within_abs(snapshot_window(es, start, end));
    }
    Some(acc as i64)
}

/// Appending a value grows the absolute sum by its magnitude.
proof fn lemma_snapshot_abs_push(values: Seq<i64>, v: i64)
    ensures
        crate::agg_state::sum_abs(values.push(v)) == crate::agg_state::sum_abs(values) + (
        if v < 0 {
            -(v as int)
        } else {
            v as int
        }),
{
    assert(values.push(v).drop_last() =~= values);
    assert(values.push(v).last() == v);
}

/// The window of a snapshot prefix has an absolute sum no larger than
/// that of the whole snapshot.
proof fn lemma_snapshot_prefix_abs(entries: Seq<(i64, Vec<i64>)>, start: int, end: int, n: int)
    requires
        0 <= n <= entries.len(),
    ensures
        crate::agg_state::sum_abs(snapshot_window(entries.take(n), start, end))
            <= crate::agg_state::sum_abs(snapshot_window(entries, start, end)),
    decreases entries.len() - n,
{
    if n < entries.len() {
        lemma_snapshot_prefix_abs(entries, start, end, n + 1);
        assert(entries.take(n + 1).drop_last() =~= entries.take(n));
        assert(entries.take(n + 1).last() == entries[n]);
        if start < entries[n].0 && entries[n].0 <= end {
            let head = snapshot_window(entries.take(n), start, end);
            let ext = head + entries[n].1@;
            crate::agg_state::lemma_sum_abs_prefix(ext, head.len() as int);
            assert(ext.take(head.len() as int) =~= head);
        }
    } else {
        assert(entries.take(n) =~= entries);
    }
}

/// Inside an in-range snapshot entry, the whole window's absolute sum
/// dominates every partial absolute sum.
proof fn lemma_snapshot_partial_abs(
    entries: Seq<(i64, Vec<i64>)>,
    start: int,
    end: int,
    i: int,
    vs: Seq<i64>,
    k: int,
)
    requires
        0 <= i < entries.len(),
        0 <= k < vs.len(),
        entries[i].1@ == vs,
        start < entries[i].0 <= end,
    ensures
        crate::agg_state::sum_abs(snapshot_window(entries, start, end))
            >= crate::agg_state::sum_abs(
            (snapshot_window(entries.take(i), start, end) + vs.take(k)).push(vs[k]),
        ),
{
    let head = snapshot_window(entries.take(i), start, end);
    let with_next = (head + vs.take(k)).push(vs[k]);
    assert(entries.take(i + 1).drop_last() =~= entries.take(i));
    assert(entries.take(i + 1).last() == entries[i]);
    let upto = snapshot_window(entries.take(i + 1), start, end);
    assert(upto == head + vs);
    assert(with_next =~= upto.take(head.len() + k + 1));
    lemma_snapshot_prefix_abs(entries, start, end, i + 1);
    crate::agg_state::lemma_sum_abs_prefix(upto, head.len() + k + 1);
}

/// Remove from the shared map every bucket at or below the threshold:
/// afterwards its contents are exactly the old entries whose time lies
/// strictly above it.  This is the decoupled second phase of the
/// background sweep, safe to run while the hot path keeps inserting
/// fresher buckets.
#[verifier::loop_isolation(false)]
pub fn shared_evict_below(m: &mut SharedTimeMap, threshold: i128) -> (removed:
    usize)
    ensures
        shared_contents(*final(m)).dom() =~= shared_contents(*old(m)).dom().filter(
            |t: int| t > threshold as int,
        ),
        forall|t: int|
            shared_contents(*final(m)).dom().contains(t) ==> shared_contents(*final(m))[t]
                == shared_contents(*old(m))[t],
{
    let ghost original = shared_contents(*m);
    let snapshot = shared_snapshot(m);
    let mut stale: Vec<i64> = Vec::new();
    let n = snapshot.len();
    let mut i: usize = 0;
    while i < n
        invariant
            n == snapshot@.len(),
            i <= n,
            forall|j: int|
                0 <= j < stale@.len() ==> exists|x: int|
                    0 <= x < i && snapshot@[x].0 == #[trigger] stale@[j],
            forall|j: int| 0 <= j < stale@.len() ==> #[trigger] stale@[j] as i128 <= threshold,
            forall|x: int|
                0 <= x < i && snapshot@[x].0 as i128 <= threshold ==> exists|j: int|
                    0 <= j < stale@.len() && #[trigger] stale@[j] == snapshot@[x].0,
        decreases n - i,
    {
        let ghost prev = stale@;
        if snapshot[i].0 as i128 <= threshold {
            stale.push(snapshot[i].0);
        }
        proof {
            assert forall|x: int|
                0 <= x < i + 1 && snapshot@[x].0 as i128 <= threshold implies exists|j: int|
                0 <= j < stale@.len() && #[trigger] stale@[j] == snapshot@[x].0 by {
                if x < i {
                    let j = choose|j: int| 0 <= j < prev.len() && prev[j] == snapshot@[x].0;
                    assert(stale@[j] == snapshot@[x].0);
                } else {
                    assert(stale@[stale@.len() - 1] == snapshot@[x].0);
                }
            }
        }
        i = i + 1;
    }
    let mut r: usize = 0;
    let ghost sn = stale@;
    while r < stale.len()
        invariant
            r <= stale@.len(),
            sn == stale@,
            shared_contents(*m) == original.remove_keys(
                Set::new(|t: int| exists|j: int| 0 <= j < r && sn[j] as int == t),
            ),
        decreases stale@.len() - r,
    {
        let ghost before = shared_contents(*m);
        shared_remove(m, stale[r]);
        proof {
            let prev = Set::new(|t: int| exists|j: int| 0 <= j < r && sn[j] as int == t);
            let next = Set::new(|t: int| exists|j: int| 0 <= j < r + 1 && sn[j] as int == t);
            assert(shared_contents(*m) =~= original.remove_keys(next)) by {
                assert forall|t: int|
                    shared_contents(*m).dom().contains(t)
                        <==> original.remove_keys(next).dom().contains(t) by {
                    if next.contains(t) {
                        let j = choose|j: int| 0 <= j < r + 1 && sn[j] as int == t;
                        if j < r {
                            assert(prev.contains(t));
                        }
                    }
                    if prev.contains(t) {
                        let j = choose|j: int| 0 <= j < r && sn[j] as int == t;
                        assert(next.contains(t));
                    }
                }
            }
        }
        r = r + 1;
    }
    proof {
        let removed_keys = Set::new(
            |t: int| exists|j: int| 0 <= j < sn.len() && sn[j] as int == t,
        );
        assert(shared_contents(*m) == original.remove_keys(removed_keys));
        assert forall|t: int|
            shared_contents(*m).dom().contains(t) <==> (original.dom().contains(t) && t
                > threshold as int) by {
            if original.dom().contains(t) && t > threshold as int {
                if removed_keys.contains(t) {
                    let j = choose|j: int| 0 <= j < sn.len() && sn[j] as int == t;
                }
            }
            if original.dom().contains(t) && t <= threshold as int {
                let i0 = choose|i0: int|
                    0 <= i0 < snapshot@.len() && (#[trigger] snapshot@[i0]).0 as int == t;
                let j = choose|j: int|
                    0 <= j < sn.len() && #[trigger] sn[j] == snapshot@[i0].0;
                assert(removed_keys.contains(t));
            }
        }
        assert(shared_contents(*m).dom() =~= original.dom().filter(
            |t: int| t > threshold as int,
        ));
    }
    stale.len()
}

/// A guard for callers that must reject a batch before folding it: the
/// shared windowed sum, from one snapshot, or an error when the
/// window's absolute values leave the machine range.
pub fn shared_window_sum(m: &SharedTimeMap, window_start: i128, end_time: i128)
    -> (r: Result<i64, StreamError>)
    ensures
        r is Err ==> r == Err::<i64, StreamError>(StreamError::AggregateOverflow),
{
    let snapshot = shared_snapshot(m);
    match snapshot_window_sum(&snapshot, window_start, end_time) {
        Some(v) => Ok(v),
        None => Err(StreamError::AggregateOverflow),
    }
}

} // verus!
