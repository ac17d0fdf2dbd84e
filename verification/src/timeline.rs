//! Ordering of timeline records and their state at a query time.

use vstd::hash_map::StringHashMap;
use vstd::prelude::*;

use crate::path_order::{self, PathOrder};
use crate::vtec::VtecAction;
use crate::warning::{StateView, TimelineRecordState, WarningLifecycleStatus};

verus! {

// ---------------------------------------------------------------------------
// Order
// ---------------------------------------------------------------------------

/// What records are ordered by: issue time (unknown first), the components of
/// the source path, message, segment and VTEC line.
pub open spec fn sort_key(s: StateView) -> (Option<int>, Seq<Seq<char>>, int, int, int) {
    (
        s.issued_at,
        path_order::components(s.record.source_path),
        s.record.message_index,
        s.record.segment_index,
        s.record.vtec_index,
    )
}

/// Whether an issue time comes before another, an unknown one before all.
pub open spec fn opt_before(a: Option<int>, b: Option<int>) -> bool {
    match (a, b) {
        (None, Some(_)) => true,
        (Some(x), Some(y)) => x < y,
        _ => false,
    }
}

/// Whether a record comes before another or has the same key.
pub open spec fn key_le(a: StateView, b: StateView) -> bool {
    let x = sort_key(a);
    let y = sort_key(b);
    if x.0 != y.0 {
        opt_before(x.0, y.0)
    } else if x.1 != y.1 {
        path_order::parts_before(x.1, y.1)
    } else if x.2 != y.2 {
        x.2 < y.2
    } else if x.3 != y.3 {
        x.3 < y.3
    } else {
        x.4 <= y.4
    }
}

fn state_le(a: &TimelineRecordState, b: &TimelineRecordState) -> (r: bool)
    ensures
        r == key_le(a.deep_view(), b.deep_view()),
{
    match (a.issued_at, b.issued_at) {
        (None, Some(_)) => {
            return true;
        },
        (Some(_), None) => {
            return false;
        },
        (Some(x), Some(y)) => {
            if x != y {
                return x < y;
            }
        },
        (None, None) => {},
    }
    match path_order::order_paths(a.record.source_path.as_str(), b.record.source_path.as_str()) {
        PathOrder::Before => {
            return true;
        },
        PathOrder::After => {
            return false;
        },
        PathOrder::Same => {},
    }
    if a.record.message_index != b.record.message_index {
        return a.record.message_index < b.record.message_index;
    }
    if a.record.segment_index != b.record.segment_index {
        return a.record.segment_index < b.record.segment_index;
    }
    a.record.vtec_index <= b.record.vtec_index
}

/// `s` with `x` put behind the last record that does not come after it.
pub open spec fn insert_sorted(s: Seq<StateView>, x: StateView) -> Seq<StateView>
    decreases s.len(),
{
    if s.len() == 0 || key_le(s.last(), x) {
        s.push(x)
    } else {
        insert_sorted(s.drop_last(), x).push(s.last())
    }
}

/// The records in order; records with the same key keep their order.
pub open spec fn sorted(s: Seq<StateView>) -> Seq<StateView>
    decreases s.len(),
{
    if s.len() == 0 {
        Seq::empty()
    } else {
        insert_sorted(sorted(s.drop_last()), s.last())
    }
}

/// Whether no record comes after a later one.
pub open spec fn in_order(s: Seq<StateView>) -> bool {
    forall|i: int, j: int|
        #![trigger s[i], s[j]]
        0 <= i < j < s.len() ==> key_le(s[i], s[j])
}

proof fn lemma_key_le_total(a: StateView, b: StateView)
    ensures
        key_le(a, b) || key_le(b, a),
        key_le(a, a),
{
    path_order::parts_before_is_total(sort_key(a).1, sort_key(b).1);
}

proof fn lemma_key_le_transitive(a: StateView, b: StateView, c: StateView)
    requires
        key_le(a, b),
        key_le(b, c),
    ensures
        key_le(a, c),
{
    let x = sort_key(a).1;
    let y = sort_key(b).1;
    let z = sort_key(c).1;
    if path_order::parts_before(x, y) && path_order::parts_before(y, z) {
        path_order::parts_before_is_transitive(x, y, z);
        path_order::parts_before_is_irreflexive(x);
    }
}

proof fn lemma_insert_in_order(s: Seq<StateView>, x: StateView)
    requires
        in_order(s),
    ensures
        in_order(insert_sorted(s, x)),
        insert_sorted(s, x).len() == s.len() + 1,
        forall|i: int|
            0 <= i < insert_sorted(s, x).len() ==> (#[trigger] insert_sorted(s, x)[i] == x
                || s.contains(insert_sorted(s, x)[i])),
    decreases s.len(),
{
    let r = insert_sorted(s, x);
    if s.len() == 0 || key_le(s.last(), x) {
        assert forall|i: int, j: int| #![trigger r[i], r[j]] 0 <= i < j < r.len() implies key_le(
            r[i],
            r[j],
        ) by {
            if j == s.len() {
                if i < s.len() - 1 {
                    assert(key_le(s[i], s[s.len() - 1]));
                    lemma_key_le_transitive(s[i], s.last(), x);
                }
            } else {
                assert(key_le(s[i], s[j]));
            }
        }
    } else {
        let front = s.drop_last();
        assert forall|i: int, j: int|
            #![trigger front[i], front[j]]
            0 <= i < j < front.len() implies key_le(front[i], front[j]) by {
            assert(key_le(s[i], s[j]));
        }
        lemma_insert_in_order(front, x);
        let inner = insert_sorted(front, x);
        lemma_key_le_total(s.last(), x);
        assert forall|i: int| 0 <= i < inner.len() implies key_le(inner[i], s.last()) by {
            if inner[i] != x {
                assert(front.contains(inner[i]));
                let k = front.index_of(inner[i]);
                assert(key_le(s[k], s[s.len() - 1]));
            }
        }
        assert forall|i: int, j: int| #![trigger r[i], r[j]] 0 <= i < j < r.len() implies key_le(
            r[i],
            r[j],
        ) by {
            if j < inner.len() {
                assert(key_le(inner[i], inner[j]));
            } else {
                assert(r[i] == inner[i]);
            }
        }
        assert forall|i: int| 0 <= i < r.len() implies (#[trigger] r[i] == x || s.contains(r[i])) by {
            if i < inner.len() {
                assert(r[i] == inner[i]);
                if inner[i] != x {
                    let k = front.index_of(inner[i]);
                    assert(s[k] == inner[i]);
                }
            } else {
                assert(s[s.len() - 1] == r[i]);
            }
        }
    }
}

/// Sorted records are in order.
pub proof fn sorted_is_in_order(s: Seq<StateView>)
    ensures
        in_order(sorted(s)),
        sorted(s).len() == s.len(),
    decreases s.len(),
{
    if s.len() > 0 {
        sorted_is_in_order(s.drop_last());
        lemma_insert_in_order(sorted(s.drop_last()), s.last());
    }
}

proof fn lemma_insert_multiset(s: Seq<StateView>, x: StateView)
    ensures
        insert_sorted(s, x).to_multiset() == s.to_multiset().insert(x),
    decreases s.len(),
{
    broadcast use vstd::seq_lib::group_to_multiset_ensures;

    if s.len() == 0 || key_le(s.last(), x) {
        assert(s.push(x).to_multiset() =~= s.to_multiset().insert(x));
    } else {
        lemma_insert_multiset(s.drop_last(), x);
        let inner = insert_sorted(s.drop_last(), x);
        assert(inner.push(s.last()).to_multiset() =~= inner.to_multiset().insert(s.last()));
        assert(s.drop_last().push(s.last()) =~= s);
        assert(s.to_multiset() =~= s.drop_last().to_multiset().insert(s.last()));
        assert(insert_sorted(s, x).to_multiset() =~= s.to_multiset().insert(x));
    }
}

/// Sorting neither loses nor adds a record.
pub proof fn sorted_keeps_records(s: Seq<StateView>)
    ensures
        sorted(s).to_multiset() == s.to_multiset(),
    decreases s.len(),
{
    broadcast use vstd::seq_lib::group_to_multiset_ensures;

    if s.len() > 0 {
        sorted_keeps_records(s.drop_last());
        lemma_insert_multiset(sorted(s.drop_last()), s.last());
        assert(s.drop_last().push(s.last()) =~= s);
        assert(s.to_multiset() =~= s.drop_last().to_multiset().insert(s.last()));
    } else {
        assert(sorted(s) =~= s);
    }
}

/// The records with the key of `k`, in order of appearance.
pub open spec fn with_key(s: Seq<StateView>, k: StateView) -> Seq<StateView>
    decreases s.len(),
{
    if s.len() == 0 {
        Seq::empty()
    } else if sort_key(s.last()) == sort_key(k) {
        with_key(s.drop_last(), k).push(s.last())
    } else {
        with_key(s.drop_last(), k)
    }
}

proof fn lemma_with_key_push(s: Seq<StateView>, x: StateView, k: StateView)
    ensures
        with_key(s.push(x), k) == (if sort_key(x) == sort_key(k) {
            with_key(s, k).push(x)
        } else {
            with_key(s, k)
        }),
{
    assert(s.push(x).drop_last() =~= s);
}

proof fn lemma_insert_stable(s: Seq<StateView>, x: StateView, k: StateView)
    ensures
        with_key(insert_sorted(s, x), k) == with_key(s.push(x), k),
    decreases s.len(),
{
    if s.len() > 0 && !key_le(s.last(), x) {
        let front = s.drop_last();
        lemma_insert_stable(front, x, k);
        lemma_with_key_push(insert_sorted(front, x), s.last(), k);
        lemma_with_key_push(s, x, k);
        lemma_with_key_push(front, x, k);
        assert(sort_key(s.last()) != sort_key(x));
    }
}

/// Records with the same key keep their order.
pub proof fn sorted_is_stable(s: Seq<StateView>, k: StateView)
    ensures
        with_key(sorted(s), k) == with_key(s, k),
    decreases s.len(),
{
    if s.len() > 0 {
        sorted_is_stable(s.drop_last(), k);
        lemma_insert_stable(sorted(s.drop_last()), s.last(), k);
        lemma_with_key_push(sorted(s.drop_last()), s.last(), k);
        lemma_with_key_push(s.drop_last(), s.last(), k);
        assert(s.drop_last().push(s.last()) =~= s);
    }
}

proof fn lemma_insert_at(s: Seq<StateView>, x: StateView, n: int)
    requires
        0 <= n <= s.len(),
        n > 0 ==> key_le(s[n - 1], x),
        forall|i: int| n <= i < s.len() ==> !key_le(#[trigger] s[i], x),
    ensures
        insert_sorted(s, x) == s.insert(n, x),
    decreases s.len() - n,
{
    if n == s.len() {
        assert(s.insert(n, x) =~= s.push(x));
    } else {
        assert(!key_le(s[s.len() - 1], x));
        let front = s.drop_last();
        assert forall|i: int| n <= i < front.len() implies !key_le(#[trigger] front[i], x) by {
            assert(front[i] == s[i]);
        }
        lemma_insert_at(front, x, n);
        assert(front.insert(n, x).push(s.last()) =~= s.insert(n, x));
    }
}

/// Puts the records in order.
pub fn sort_states(states: Vec<TimelineRecordState>) -> (r: Vec<TimelineRecordState>)
    ensures
        r.deep_view() == sorted(states.deep_view()),
{
    let ghost all = states.deep_view();
    let ghost input = states@;
    let mut rest = states;
    let mut out: Vec<TimelineRecordState> = Vec::new();
    let mut reversed: Vec<TimelineRecordState> = Vec::new();
    while rest.len() > 0
        invariant
            input.len() >= rest@.len(),
            rest@ == input.take(rest@.len() as int),
            reversed@ == input.skip(rest@.len() as int).reverse(),
        decreases rest.len(),
    {
        let ghost n = rest@.len() as int;
        if let Some(x) = rest.pop() {
            reversed.push(x);
            assert(rest@ =~= input.take(n - 1));
            assert(input.skip(n - 1).reverse() =~= input.skip(n).reverse().push(x));
        }
    }
    assert(input.skip(0) =~= input);
    assert(out.deep_view() =~= sorted(all.take(0)));
    while reversed.len() > 0
        invariant
            out@.len() + reversed@.len() == input.len(),
            all.len() == input.len(),
            forall|i: int| 0 <= i < input.len() ==> all[i] == (#[trigger] input[i]).deep_view(),
            reversed@ == input.skip(out@.len() as int).reverse(),
            out.deep_view() == sorted(all.take(out@.len() as int)),
        decreases reversed.len(),
    {
        let ghost n = out@.len() as int;
        let ghost before = out.deep_view();
        if let Some(x) = reversed.pop() {
            assert(x == input[n]);
            assert(reversed@ =~= input.skip(n + 1).reverse());
            let mut k: usize = out.len();
            while k > 0 && !state_le(&out[k - 1], &x)
                invariant
                    k <= out@.len(),
                    before == out.deep_view(),
                    forall|i: int|
                        k <= i < before.len() ==> !key_le(#[trigger] before[i], x.deep_view()),
                decreases k,
            {
                assert(before[k - 1] == out@[k - 1].deep_view());
                k -= 1;
            }
            proof {
                if k > 0 {
                    assert(before[k - 1] == out@[k - 1].deep_view());
                }
                lemma_insert_at(before, x.deep_view(), k as int);
            }
            out.insert(k, x);
            assert(out.deep_view() =~= before.insert(k as int, x.deep_view()));
            assert(all.take(n + 1).drop_last() =~= all.take(n));
        }
    }
    assert(all.take(all.len() as int) =~= all);
    out
}

// ---------------------------------------------------------------------------
// Lifecycle
// ---------------------------------------------------------------------------

/// Whether a record was issued after the query time.
pub open spec fn is_future(s: StateView, query: int) -> bool {
    s.issued_at matches Some(n) && n > query
}

/// Among the first `n` records, the last of an event that was not issued
/// after the query time.
pub open spec fn latest(states: Seq<StateView>, event: Seq<char>, query: int, n: int) -> Option<int>
    decreases n,
{
    if n <= 0 {
        None
    } else {
        let before = latest(states, event, query, n - 1);
        let s = states[n - 1];
        if is_future(s, query) || s.record.event_id != event {
            before
        } else {
            match before {
                None => Some(n - 1),
                Some(k) => if key_le(states[k], s) {
                    Some(n - 1)
                } else {
                    Some(k)
                },
            }
        }
    }
}

/// The state of the last record of an event.
pub open spec fn current_status(s: StateView, query: int) -> WarningLifecycleStatus {
    if s.action == VtecAction::Cancel {
        WarningLifecycleStatus::Canceled
    } else if s.action == VtecAction::Expire {
        WarningLifecycleStatus::Expired
    } else if s.valid_start matches Some(start) && query < start {
        WarningLifecycleStatus::Pending
    } else if s.valid_end matches Some(end) && query >= end {
        WarningLifecycleStatus::Expired
    } else {
        WarningLifecycleStatus::Active
    }
}

/// The state of record `i`.
pub open spec fn status_of(states: Seq<StateView>, i: int, query: int) -> WarningLifecycleStatus {
    if is_future(states[i], query) {
        WarningLifecycleStatus::Future
    } else if latest(states, states[i].record.event_id, query, states.len() as int) != Some(i) {
        WarningLifecycleStatus::Superseded
    } else {
        current_status(states[i], query)
    }
}

/// The records with their states.
pub open spec fn with_statuses(states: Seq<StateView>, query: int) -> Seq<StateView> {
    Seq::new(
        states.len(),
        |i: int|
            StateView {
                record: crate::warning::RecordView {
                    lifecycle_status: Some(status_of(states, i, query)),
                    ..states[i].record
                },
                ..states[i]
            },
    )
}

proof fn lemma_latest(states: Seq<StateView>, event: Seq<char>, query: int, n: int)
    requires
        0 <= n <= states.len(),
    ensures
        match latest(states, event, query, n) {
            Some(k) => 0 <= k < n && !is_future(states[k], query) && states[k].record.event_id
                == event,
            None => forall|i: int|
                0 <= i < n ==> is_future(states[i], query) || (
                #[trigger] states[i]).record.event_id != event,
        },
    decreases n,
{
    if n > 0 {
        lemma_latest(states, event, query, n - 1);
    }
}

/// Of the records of an event that were issued by the query time exactly one
/// is not superseded.
pub proof fn one_record_is_current(states: Seq<StateView>, query: int, i: int)
    requires
        0 <= i < states.len(),
        !is_future(states[i], query),
    ensures
        exists|k: int|
            0 <= k < states.len() && !is_future(states[k], query) && (
            #[trigger] states[k]).record.event_id == states[i].record.event_id && status_of(
                states,
                k,
                query,
            ) != WarningLifecycleStatus::Superseded,
        forall|j: int, k: int|
            #![trigger states[j], states[k]]
            0 <= j < states.len() && 0 <= k < states.len() && j != k && !is_future(
                states[j],
                query,
            ) && !is_future(states[k], query) && states[j].record.event_id
                == states[k].record.event_id ==> status_of(states, j, query)
                == WarningLifecycleStatus::Superseded || status_of(states, k, query)
                == WarningLifecycleStatus::Superseded,
{
    let event = states[i].record.event_id;
    lemma_latest(states, event, query, states.len() as int);
    let k = latest(states, event, query, states.len() as int);
    assert(k is Some);
    let w = k->0;
    assert(states[w].record.event_id == event);
    assert(status_of(states, w, query) != WarningLifecycleStatus::Superseded);
}

/// In ordered records the current one of an event is the last of those that
/// were issued by the query time.
pub proof fn current_record_is_last(states: Seq<StateView>, query: int, i: int, j: int)
    requires
        in_order(states),
        0 <= i < j < states.len(),
        !is_future(states[i], query),
        !is_future(states[j], query),
        states[i].record.event_id == states[j].record.event_id,
    ensures
        status_of(states, i, query) == WarningLifecycleStatus::Superseded,
{
    lemma_latest_is_last(states, states[i].record.event_id, query, states.len() as int, j);
}

proof fn lemma_latest_is_last(
    states: Seq<StateView>,
    event: Seq<char>,
    query: int,
    n: int,
    j: int,
)
    requires
        in_order(states),
        0 <= j < n <= states.len(),
        !is_future(states[j], query),
        states[j].record.event_id == event,
    ensures
        latest(states, event, query, n) matches Some(k) && j <= k < n,
    decreases n,
{
    lemma_latest(states, event, query, n - 1);
    if j < n - 1 {
        lemma_latest_is_last(states, event, query, n - 1, j);
    }
    if let Some(k) = latest(states, event, query, n - 1) {
        assert(key_le(states[k], states[n - 1]));
    }
}

/// Whether a record was issued after the query time.
pub fn issued_after(s: &TimelineRecordState, query: i128) -> (r: bool)
    ensures
        r == is_future(s.deep_view(), query as int),
{
    match s.issued_at {
        Some(n) => n > query,
        None => false,
    }
}

/// The state of the last record of an event.
pub fn latest_record_status(s: &TimelineRecordState, query: i128) -> (r: WarningLifecycleStatus)
    ensures
        r == current_status(s.deep_view(), query as int),
{
    match s.action {
        VtecAction::Cancel => {
            return WarningLifecycleStatus::Canceled;
        },
        VtecAction::Expire => {
            return WarningLifecycleStatus::Expired;
        },
        _ => {},
    }
    if let Some(start) = s.valid_start {
        if query < start {
            return WarningLifecycleStatus::Pending;
        }
    }
    if let Some(end) = s.valid_end {
        if query >= end {
            return WarningLifecycleStatus::Expired;
        }
    }
    WarningLifecycleStatus::Active
}

/// The value at a key, if there is one.
spec fn entry(map: Map<Seq<char>, usize>, key: Seq<char>) -> Option<int> {
    if map.contains_key(key) {
        Some(map[key] as int)
    } else {
        None
    }
}

fn latest_by_event(states: &Vec<TimelineRecordState>, query: i128) -> (r: StringHashMap<usize>)
    ensures
        forall|event: Seq<char>| #[trigger]
            entry(r@, event) == latest(
                states.deep_view(),
                event,
                query as int,
                states@.len() as int,
            ),
{
    let ghost all = states.deep_view();
    let mut map: StringHashMap<usize> = StringHashMap::new();
    let mut i: usize = 0;
    while i < states.len()
        invariant
            i <= states@.len(),
            all == states.deep_view(),
            forall|event: Seq<char>| #[trigger]
                entry(map@, event) == latest(all, event, query as int, i as int),
        decreases states.len() - i,
    {
        let state = &states[i];
        let ghost before = map@;
        let ghost e = state.record.event_id@;
        assert(all[i as int] == state.deep_view());
        if !issued_after(state, query) {
            proof {
                lemma_latest(all, e, query as int, i as int);
                assert(entry(before, e) == latest(all, e, query as int, i as int));
            }
            let replace: bool = match map.get(state.record.event_id.as_str()) {
                Some(k) => {
                    assert(all[*k as int] == states@[*k as int].deep_view());
                    state_le(&states[*k], state)
                },
                None => true,
            };
            if replace {
                map.insert(state.record.event_id.clone(), i);
            }
        }
        proof {
            assert forall|event: Seq<char>| #[trigger]
                entry(map@, event) == latest(all, event, query as int, i + 1) by {
                assert(entry(before, event) == latest(all, event, query as int, i as int));
            }
        }
        i += 1;
    }
    map
}

/// Gives every record its state at the query time.
pub fn apply_lifecycle_statuses(states: &mut Vec<TimelineRecordState>, query: i128)
    ensures
        final(states).deep_view() == with_statuses(old(states).deep_view(), query as int),
{
    let ghost all = states.deep_view();
    let map = latest_by_event(states, query);
    let n: usize = states.len();
    let mut i: usize = 0;
    while i < n
        invariant
            i <= n,
            n == states@.len(),
            all.len() == n,
            forall|event: Seq<char>| #[trigger]
                entry(map@, event) == latest(all, event, query as int, n as int),
            forall|k: int|
                i <= k < n ==> (#[trigger] states@[k]).deep_view() == all[k],
            forall|k: int|
                0 <= k < i ==> (#[trigger] states@[k]).deep_view() == with_statuses(
                    all,
                    query as int,
                )[k],
        decreases n - i,
    {
        let ghost e = all[i as int].record.event_id;
        assert(states@[i as int].deep_view() == all[i as int]);
        let status = if issued_after(&states[i], query) {
            WarningLifecycleStatus::Future
        } else {
            proof {
                lemma_latest(all, e, query as int, n as int);
                assert(entry(map@, e) == latest(all, e, query as int, n as int));
            }
            let current: bool = match map.get(states[i].record.event_id.as_str()) {
                Some(k) => *k == i,
                None => false,
            };
            if current {
                latest_record_status(&states[i], query)
            } else {
                WarningLifecycleStatus::Superseded
            }
        };
        assert(status == status_of(all, i as int, query as int));
        let ghost before = states@;
        states[i].record.lifecycle_status = Some(status);
        proof {
            assert(states@[i as int].deep_view() == with_statuses(all, query as int)[i as int]);
            assert forall|k: int| 0 <= k < n && k != i implies #[trigger] states@[k]
                == before[k] by {}
        }
        i += 1;
    }
    assert(states.deep_view() =~= with_statuses(all, query as int));
}

} // verus!
