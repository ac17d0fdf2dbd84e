//! What timelines promise: which record of an event counts, in what state it
//! is at a query time, and which warnings are in effect.

use vstd::prelude::*;

use crate::active;
use crate::active::ActiveRecordView;
use crate::path_order;
use crate::text;
use crate::timeline;
use crate::vtec::VtecAction;
use crate::warning::{RecordView, StateView, WarningLifecycleStatus};

verus! {

// ---------------------------------------------------------------------------
// Which record counts
// ---------------------------------------------------------------------------

/// Whether a record was known at the query time: it was not issued after it.
pub open spec fn known(s: StateView, query: int) -> bool {
    s.issued_at matches Some(n) ==> n <= query
}

/// Whether record `i` is the newest of its event among the records that were
/// known: it was known itself, no record behind it in the list is at least as
/// new, and none before it is newer.
pub open spec fn is_newest(states: Seq<StateView>, i: int, query: int) -> bool {
    &&& known(states[i], query)
    &&& forall|j: int|
        0 <= j < states.len() && j != i && known(#[trigger] states[j], query)
            && states[j].record.event_id == states[i].record.event_id ==> if j < i {
            timeline::key_le(states[j], states[i])
        } else {
            !timeline::key_le(states[i], states[j])
        }
}

proof fn lemma_le_total(a: StateView, b: StateView)
    ensures
        timeline::key_le(a, b) || timeline::key_le(b, a),
        timeline::key_le(a, a),
{
    path_order::parts_before_is_total(
        path_order::components(a.record.source_path),
        path_order::components(b.record.source_path),
    );
}

proof fn lemma_le_transitive(a: StateView, b: StateView, c: StateView)
    requires
        timeline::key_le(a, b),
        timeline::key_le(b, c),
    ensures
        timeline::key_le(a, c),
{
    let x = path_order::components(a.record.source_path);
    let y = path_order::components(b.record.source_path);
    let z = path_order::components(c.record.source_path);
    if path_order::parts_before(x, y) && path_order::parts_before(y, z) {
        path_order::parts_before_is_transitive(x, y, z);
        path_order::parts_before_is_irreflexive(x);
    }
}

/// Whether record `k` is the newest of an event among the first `n` records.
spec fn newest_among(
    states: Seq<StateView>,
    event: Seq<char>,
    query: int,
    n: int,
    k: int,
) -> bool {
    &&& 0 <= k < n
    &&& known(states[k], query)
    &&& states[k].record.event_id == event
    &&& forall|j: int|
        0 <= j < n && j != k && known(#[trigger] states[j], query) && states[j].record.event_id
            == event ==> if j < k {
            timeline::key_le(states[j], states[k])
        } else {
            !timeline::key_le(states[k], states[j])
        }
}

proof fn lemma_latest_is_newest(states: Seq<StateView>, event: Seq<char>, query: int, n: int)
    requires
        0 <= n <= states.len(),
    ensures
        match timeline::latest(states, event, query, n) {
            Some(k) => newest_among(states, event, query, n, k),
            None => forall|i: int|
                0 <= i < n ==> !known(#[trigger] states[i], query) || states[i].record.event_id
                    != event,
        },
    decreases n,
{
    if n > 0 {
        lemma_latest_is_newest(states, event, query, n - 1);
        let s = states[n - 1];
        if known(s, query) && s.record.event_id == event {
            if let Some(k) = timeline::latest(states, event, query, n - 1) {
                if timeline::key_le(states[k], s) {
                    assert forall|j: int|
                        0 <= j < n && j != n - 1 && known(#[trigger] states[j], query)
                            && states[j].record.event_id == event implies timeline::key_le(
                        states[j],
                        s,
                    ) by {
                        if j < k {
                            lemma_le_transitive(states[j], states[k], s);
                        } else if j > k {
                            lemma_le_total(states[k], states[j]);
                            lemma_le_transitive(states[j], states[k], s);
                        }
                    }
                    assert(newest_among(states, event, query, n, n - 1));
                } else {
                    assert(newest_among(states, event, query, n, k));
                }
            } else {
                assert(newest_among(states, event, query, n, n - 1));
            }
        } else {
            if let Some(k) = timeline::latest(states, event, query, n - 1) {
                assert(newest_among(states, event, query, n, k));
            }
        }
    }
}

proof fn lemma_newest(states: Seq<StateView>, i: int, query: int)
    requires
        0 <= i < states.len(),
        known(states[i], query),
    ensures
        (timeline::latest(states, states[i].record.event_id, query, states.len() as int) == Some(i))
            == is_newest(states, i, query),
{
    let event = states[i].record.event_id;
    let n = states.len() as int;
    lemma_latest_is_newest(states, event, query, n);
    assert(known(states[i], query));
    let k = timeline::latest(states, event, query, n)->0;
    assert(newest_among(states, event, query, n, k));
    if k == i {
        assert(is_newest(states, i, query));
    } else if is_newest(states, i, query) {
        assert(known(states[k], query));
        lemma_le_total(states[i], states[k]);
        assert(false);
    }
}

/// Records are newer by their issue time first; among records of one issue
/// time, by the order of their paths; then by their place in the input.
pub proof fn newer_goes_by_issue_time_first(a: StateView, b: StateView)
    ensures
        (a.issued_at matches Some(x) && b.issued_at matches Some(y) && x < y) ==> timeline::key_le(
            a,
            b,
        ) && !timeline::key_le(b, a),
        a.issued_at is None && b.issued_at is Some ==> timeline::key_le(a, b) && !timeline::key_le(
            b,
            a,
        ),
        a.issued_at == b.issued_at && path_order::path_before(
            a.record.source_path,
            b.record.source_path,
        ) ==> timeline::key_le(a, b) && !timeline::key_le(b, a),
        a.issued_at == b.issued_at && a.record.source_path == b.record.source_path
            && a.record.message_index < b.record.message_index ==> timeline::key_le(a, b)
            && !timeline::key_le(b, a),
        a.issued_at == b.issued_at && a.record.source_path == b.record.source_path
            && a.record.message_index == b.record.message_index && a.record.segment_index
            < b.record.segment_index ==> timeline::key_le(a, b) && !timeline::key_le(b, a),
        a.issued_at == b.issued_at && a.record.source_path == b.record.source_path
            && a.record.message_index == b.record.message_index && a.record.segment_index
            == b.record.segment_index ==> (timeline::key_le(a, b) <==> a.record.vtec_index
            <= b.record.vtec_index),
{
    let x = path_order::components(a.record.source_path);
    let y = path_order::components(b.record.source_path);
    if path_order::parts_before(x, y) {
        if x == y {
            path_order::parts_before_is_irreflexive(x);
        }
        if path_order::parts_before(y, x) {
            path_order::parts_before_is_transitive(x, y, x);
            path_order::parts_before_is_irreflexive(x);
        }
    }
}

// ---------------------------------------------------------------------------
// States
// ---------------------------------------------------------------------------

/// Whether a query time lies before the time of a record.
pub open spec fn before_its_time(s: StateView, query: int) -> bool {
    s.valid_start matches Some(start) && query < start
}

/// Whether a query time lies behind the time of a record.
pub open spec fn behind_its_time(s: StateView, query: int) -> bool {
    s.valid_end matches Some(end) && end <= query
}

/// Whether a record calls its event off.
pub open spec fn calls_off(s: StateView) -> bool {
    s.action == VtecAction::Cancel || s.action == VtecAction::Expire
}

/// A record that was issued later is a future record; one that is not the
/// newest of its event is superseded. The newest is canceled or expired where
/// it says so. Any other newest record, whatever its action, is pending before
/// its time, expired behind it, and active in between.
pub proof fn states_follow_from_action_and_time(states: Seq<StateView>, i: int, query: int)
    requires
        0 <= i < states.len(),
    ensures
        ({
            let s = states[i];
            let status = timeline::status_of(states, i, query);
            let newest = is_newest(states, i, query);
            &&& status == WarningLifecycleStatus::Future <==> !known(s, query)
            &&& status == WarningLifecycleStatus::Superseded <==> known(s, query) && !newest
            &&& status == WarningLifecycleStatus::Canceled <==> newest && s.action
                == VtecAction::Cancel
            &&& status == WarningLifecycleStatus::Pending <==> newest && !calls_off(s)
                && before_its_time(s, query)
            &&& status == WarningLifecycleStatus::Active <==> newest && !calls_off(s)
                && !before_its_time(s, query) && !behind_its_time(s, query)
            &&& status == WarningLifecycleStatus::Expired <==> newest && (s.action
                == VtecAction::Expire || (!calls_off(s) && !before_its_time(s, query)
                && behind_its_time(s, query)))
        }),
{
    if known(states[i], query) {
        lemma_newest(states, i, query);
    }
}

/// Giving records their states changes nothing else of them, and leaves none
/// out.
pub proof fn states_are_added_to_the_records(states: Seq<StateView>, query: int, i: int)
    requires
        0 <= i < states.len(),
    ensures
        ({
            let r = timeline::with_statuses(states, query);
            &&& r.len() == states.len()
            &&& r[i].record.lifecycle_status == Some(timeline::status_of(states, i, query))
            &&& r[i].issued_at == states[i].issued_at
            &&& r[i].valid_start == states[i].valid_start
            &&& r[i].valid_end == states[i].valid_end
            &&& r[i].action == states[i].action
            &&& (RecordView { lifecycle_status: states[i].record.lifecycle_status, ..r[i].record })
                == states[i].record
        }),
{
}

// ---------------------------------------------------------------------------
// Warnings in effect
// ---------------------------------------------------------------------------

/// Whether two records are of the same warning: one event, in the same areas
/// and of the same family.
pub open spec fn same_warning(a: RecordView, b: RecordView) -> bool {
    a.event_id == b.event_id && a.ugcs == b.ugcs && a.event_family == b.event_family
}

/// Whether a record is free of the mark that parts a key.
pub open spec fn plain_record(r: RecordView) -> bool {
    active::plain(r.event_id) && active::plain(text::join(r.ugcs, ","@))
}

proof fn lemma_part(a: Seq<char>, x: Seq<char>, b: Seq<char>, y: Seq<char>)
    requires
        active::plain(a),
        active::plain(b),
        a + "|"@ + x == b + "|"@ + y,
    ensures
        a == b,
        x == y,
{
    reveal_strlit("|");
    let s = a + "|"@ + x;
    assert(s[a.len() as int] == '|');
    assert((b + "|"@ + y)[b.len() as int] == '|');
    if a.len() < b.len() {
        assert((b + "|"@ + y)[a.len() as int] == b[a.len() as int]);
    } else if b.len() < a.len() {
        assert(s[b.len() as int] == a[b.len() as int]);
    }
    assert(a =~= s.take(a.len() as int));
    assert(b =~= (b + "|"@ + y).take(b.len() as int));
    assert(x =~= s.skip(a.len() as int + 1));
    assert(y =~= (b + "|"@ + y).skip(b.len() as int + 1));
}

/// Records of the same warning have the same key; where the key is the same,
/// so are the event, the list of areas and the family.
pub proof fn keys_name_warnings(a: RecordView, b: RecordView)
    requires
        plain_record(a),
        plain_record(b),
    ensures
        same_warning(a, b) ==> active::active_key(a) == active::active_key(b),
        active::active_key(a) == active::active_key(b) ==> a.event_id == b.event_id && text::join(
            a.ugcs,
            ","@,
        ) == text::join(b.ugcs, ","@) && a.event_family == b.event_family,
{
    if active::active_key(a) == active::active_key(b) {
        let u = text::join(a.ugcs, ","@);
        let v = text::join(b.ugcs, ","@);
        let x = u + "|"@ + a.event_family;
        let y = v + "|"@ + b.event_family;
        assert(active::active_key(a) =~= a.event_id + "|"@ + x);
        assert(active::active_key(b) =~= b.event_id + "|"@ + y);
        lemma_part(a.event_id, x, b.event_id, y);
        lemma_part(u, a.event_family, v, b.event_family);
    }
}

/// Whether record `i` is the last of its key among the records that were known
/// at the reference time.
pub open spec fn is_last_of_key(states: Seq<StateView>, i: int, reference: int) -> bool {
    &&& known(states[i], reference)
    &&& forall|j: int|
        i < j < states.len() && known(#[trigger] states[j], reference) ==> active::active_key(
            states[j].record,
        ) != active::active_key(states[i].record)
}

proof fn lemma_last_with_key(states: Seq<StateView>, key: Seq<char>, reference: int, n: int)
    requires
        0 <= n <= states.len(),
    ensures
        match active::last_with_key(states, key, reference, n) {
            Some(k) => 0 <= k < n && known(states[k], reference) && active::active_key(
                states[k].record,
            ) == key && forall|j: int|
                k < j < n && known(#[trigger] states[j], reference) ==> active::active_key(
                    states[j].record,
                ) != key,
            None => forall|j: int|
                0 <= j < n && known(#[trigger] states[j], reference) ==> active::active_key(
                    states[j].record,
                ) != key,
        },
    decreases n,
{
    if n > 0 {
        lemma_last_with_key(states, key, reference, n - 1);
    }
}

/// A record is a warning in effect exactly where it is the last of its key
/// that was known, does not call its event off, and the reference lies neither
/// before nor behind its time.
pub proof fn in_effect_means_known_and_within_its_time(
    states: Seq<StateView>,
    i: int,
    reference: int,
)
    requires
        0 <= i < states.len(),
    ensures
        active::is_active(states, i, reference) <==> is_last_of_key(states, i, reference)
            && !calls_off(states[i]) && !before_its_time(states[i], reference) && !behind_its_time(
            states[i],
            reference,
        ),
{
    let key = active::active_key(states[i].record);
    lemma_last_with_key(states, key, reference, states.len() as int);
    if known(states[i], reference) {
        let k = active::last_with_key(states, key, reference, states.len() as int)->0;
        if k != i && is_last_of_key(states, i, reference) {
            assert(known(states[k], reference));
            if k < i {
                assert(active::active_key(states[i].record) != key);
            }
        }
    }
}

/// The warnings in effect are listed in the order of their records, each once
/// and none left out: the list is that of the records at the positions that
/// are handed back.
pub proof fn every_warning_in_effect_is_listed(states: Seq<StateView>, reference: int, n: int) -> (w:
    Seq<int>)
    requires
        0 <= n <= states.len(),
    ensures
        w.len() == active::active_among(states, reference, n).len(),
        forall|k: int|
            0 <= k < w.len() ==> 0 <= #[trigger] w[k] < n && active::is_active(
                states,
                w[k],
                reference,
            ) && listed_as(
                states[w[k]].record,
                active::active_among(states, reference, n)[k],
            ),
        forall|k: int, l: int| #![trigger w[k], w[l]] 0 <= k < l < w.len() ==> w[k] < w[l],
        forall|i: int|
            0 <= i < n && #[trigger] active::is_active(states, i, reference) ==> w.contains(i),
    decreases n,
{
    if n == 0 {
        Seq::empty()
    } else {
        let before = every_warning_in_effect_is_listed(states, reference, n - 1);
        if active::is_active(states, n - 1, reference) {
            let w = before.push(n - 1);
            assert forall|i: int|
                0 <= i < n && #[trigger] active::is_active(states, i, reference) implies w.contains(
                i,
            ) by {
                if i < n - 1 {
                    let k = before.index_of(i);
                    assert(w[k] == i);
                } else {
                    assert(w[before.len() as int] == i);
                }
            }
            w
        } else {
            before
        }
    }
}

/// Whether a warning in effect shows what its record holds.
pub open spec fn listed_as(r: RecordView, a: ActiveRecordView) -> bool {
    &&& a.key == active::active_key(r)
    &&& a.source_path == r.source_path
    &&& a.heading == r.heading
    &&& a.issued_at == r.issued_at
    &&& a.office == r.office
    &&& a.awips_id == r.awips_id
    &&& a.product_family == r.product_family
    &&& a.event_family == r.event_family
    &&& a.action == r.action
    &&& a.vtec == r.vtec
    &&& a.ugcs == r.ugcs
    &&& a.headline == r.headline
}

} // verus!
