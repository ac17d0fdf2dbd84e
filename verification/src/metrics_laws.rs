//! What intervals, overlaps and lead times promise.

use vstd::prelude::*;

use crate::clock;
use crate::lead_time;
use crate::metrics;
use crate::warning::RecordView;

verus! {

// ---------------------------------------------------------------------------
// Intervals
// ---------------------------------------------------------------------------

/// Whether a record starts at an instant: at its valid start where that can be
/// read, else at its issue time, else at that of its wrapper.
pub open spec fn starts_at(r: RecordView, s: int) -> bool {
    if clock::read_instant(r.valid_start) is Some {
        clock::read_instant(r.valid_start) == Some(s)
    } else if clock::read_instant(r.issued_at) is Some {
        clock::read_instant(r.issued_at) == Some(s)
    } else {
        clock::read_instant(r.wrapper_issued_at) == Some(s)
    }
}

/// Whether a record is to end at an instant: at its valid end where that can
/// be read, else where it expires.
pub open spec fn is_to_end_at(r: RecordView, e: int) -> bool {
    if clock::read_instant(r.valid_end) is Some {
        clock::read_instant(r.valid_end) == Some(e)
    } else {
        clock::read_instant(r.expires_at) == Some(e)
    }
}

/// Whether a record is canceled at an instant.
pub open spec fn is_canceled_at(r: RecordView, c: int) -> bool {
    clock::read_instant(r.canceled_at) == Some(c)
}

/// Whether a record ends at an instant: it is to end or is canceled there, and
/// neither happens before.
pub open spec fn ends_at(r: RecordView, e: int) -> bool {
    &&& is_to_end_at(r, e) || is_canceled_at(r, e)
    &&& forall|x: int| #[trigger] is_to_end_at(r, x) ==> e <= x
    &&& forall|x: int| #[trigger] is_canceled_at(r, x) ==> e <= x
}

/// A record has an interval exactly where it starts somewhere and ends
/// somewhere behind that; the interval runs from the one to the other. So the
/// valid start counts wherever there is one, whatever the issue time.
pub proof fn intervals_run_from_start_to_end(r: RecordView, s: int, e: int)
    ensures
        metrics::interval_of(r) == Some((s, e)) <==> starts_at(r, s) && ends_at(r, e) && s < e,
{
    if metrics::interval_of(r) == Some((s, e)) {
        assert forall|x: int| #[trigger] is_to_end_at(r, x) implies e <= x by {}
        assert forall|x: int| #[trigger] is_canceled_at(r, x) implies e <= x by {}
    }
    if starts_at(r, s) && ends_at(r, e) && s < e {
        if clock::read_instant(r.canceled_at) is Some {
            assert(is_canceled_at(r, clock::read_instant(r.canceled_at)->0));
        }
        if clock::read_instant(r.valid_end) is Some {
            assert(is_to_end_at(r, clock::read_instant(r.valid_end)->0));
        } else if clock::read_instant(r.expires_at) is Some {
            assert(is_to_end_at(r, clock::read_instant(r.expires_at)->0));
        }
    }
}

/// A record without an interval has no start, no end, or an end that is not
/// behind its start.
pub proof fn only_such_records_have_no_interval(r: RecordView)
    requires
        metrics::interval_of(r) is None,
    ensures
        forall|s: int, e: int| #[trigger]
            starts_at(r, s) && #[trigger] ends_at(r, e) ==> e <= s,
{
    assert forall|s: int, e: int| #[trigger] starts_at(r, s) && #[trigger] ends_at(r, e) implies e
        <= s by {
        intervals_run_from_start_to_end(r, s, e);
    }
}

/// The duration of an interval is the number of whole seconds in it.
pub proof fn durations_are_whole_seconds(a: (int, int))
    requires
        a.0 <= a.1,
    ensures
        metrics::duration_of(a) * 1_000_000_000 <= a.1 - a.0,
        a.1 - a.0 < (metrics::duration_of(a) + 1) * 1_000_000_000,
{
}

/// The overlap of two intervals is the number of whole seconds from the later
/// start to the earlier end: nothing where they do not meet, and all of an
/// interval that lies in the other.
pub proof fn overlaps_run_from_later_start_to_earlier_end(a: (int, int), b: (int, int))
    requires
        a.0 < a.1,
        b.0 < b.1,
    ensures
        a.1 <= b.0 || b.1 <= a.0 ==> metrics::overlap_of(a, b) == 0,
        b.0 <= a.0 && a.1 <= b.1 ==> metrics::overlap_of(a, b) == metrics::duration_of(a),
        a.0 <= b.0 && b.1 <= a.1 ==> metrics::overlap_of(a, b) == metrics::duration_of(b),
        a.0 <= b.0 <= a.1 <= b.1 ==> metrics::overlap_of(a, b) == metrics::duration_of(
            (b.0, a.1),
        ),
        b.0 <= a.0 <= b.1 <= a.1 ==> metrics::overlap_of(a, b) == metrics::duration_of(
            (a.0, b.1),
        ),
{
}

/// The metrics of two warnings hold the keys, events, intervals and durations
/// of each, and what both have in common.
pub proof fn metrics_speak_of_both_warnings(left: RecordView, right: RecordView)
    ensures
        ({
            let m = metrics::metrics_of(left, right);
            let a = metrics::interval_of(left);
            let b = metrics::interval_of(right);
            &&& m.left.record_key == left.record_key && m.right.record_key == right.record_key
            &&& m.left.event_id == left.event_id && m.right.event_id == right.event_id
            &&& a matches Some(x) ==> m.left.interval_start == clock::written(Some(x.0))
                && m.left.interval_end == clock::written(Some(x.1)) && m.left.duration == Some(
                metrics::duration_of(x),
            )
            &&& b matches Some(y) ==> m.right.interval_start == clock::written(Some(y.0))
                && m.right.interval_end == clock::written(Some(y.1)) && m.right.duration == Some(
                metrics::duration_of(y),
            )
            &&& a is None ==> m.left.interval_start is None && m.left.interval_end is None
                && m.left.duration is None
            &&& b is None ==> m.right.interval_start is None && m.right.interval_end is None
                && m.right.duration is None
            &&& m.time_overlap is Some <==> a is Some && b is Some
            &&& a is Some && b is Some ==> m.time_overlap == Some(metrics::overlap_of(a->0, b->0))
                && m.time_union == Some(
                metrics::duration_of(a->0) + metrics::duration_of(b->0) - metrics::overlap_of(
                    a->0,
                    b->0,
                ),
            )
            &&& m.time_ratio matches Some((n, d)) ==> m.time_overlap == Some(n) && m.time_union
                == Some(d)
            &&& m.time_union is Some && m.time_union->0 > 0 ==> m.time_ratio is Some
        }),
{
}

// ---------------------------------------------------------------------------
// Lead time
// ---------------------------------------------------------------------------

/// Whether record `i` warns the point of the event: it covers the point, and
/// the event lies in its interval, the start included and the end not.
pub open spec fn warned_by(
    records: Seq<RecordView>,
    covers: Seq<bool>,
    event: int,
    i: int,
) -> bool {
    covers[i] && exists|s: int, e: int| #[trigger]
        starts_at(records[i], s) && #[trigger] ends_at(records[i], e) && s <= event < e
}

proof fn lemma_warned_by(records: Seq<RecordView>, covers: Seq<bool>, event: int, i: int)
    ensures
        lead_time::warns_event(records, covers, event, i) == warned_by(records, covers, event, i),
{
    if lead_time::warns_event(records, covers, event, i) {
        let span = metrics::interval_of(records[i])->0;
        intervals_run_from_start_to_end(records[i], span.0, span.1);
        assert(starts_at(records[i], span.0) && ends_at(records[i], span.1));
    }
    if warned_by(records, covers, event, i) {
        let (s, e) = choose|s: int, e: int| #[trigger]
            starts_at(records[i], s) && #[trigger] ends_at(records[i], e) && s <= event < e;
        intervals_run_from_start_to_end(records[i], s, e);
    }
}

proof fn lemma_counts(records: Seq<RecordView>, covers: Seq<bool>, event: int, n: int)
    requires
        0 <= n,
    ensures
        0 <= lead_time::event_warnings(records, covers, event, n) <= lead_time::point_warnings(
            records,
            covers,
            n,
        ) <= n,
        lead_time::false_alarm_seconds(records, covers, event, n) >= 0,
    decreases n,
{
    if n > 0 {
        lemma_counts(records, covers, event, n - 1);
        if let Some(span) = metrics::interval_of(records[n - 1]) {
            durations_are_whole_seconds(span);
        }
    }
}

proof fn lemma_first_warning(records: Seq<RecordView>, covers: Seq<bool>, event: int, n: int)
    requires
        0 <= n,
    ensures
        match lead_time::first_warning(records, covers, event, n) {
            Some(k) => 0 <= k < n && warned_by(records, covers, event, k) && forall|i: int|
                0 <= i < n && #[trigger] warned_by(records, covers, event, i)
                    ==> lead_time::start_of(records[k]) <= lead_time::start_of(records[i]) && (i < k
                    ==> lead_time::start_of(records[k]) < lead_time::start_of(records[i])),
            None => forall|i: int|
                0 <= i < n ==> !#[trigger] warned_by(records, covers, event, i),
        },
        lead_time::first_warning(records, covers, event, n) is None
            <==> lead_time::event_warnings(records, covers, event, n) == 0,
    decreases n,
{
    if n > 0 {
        lemma_first_warning(records, covers, event, n - 1);
        lemma_counts(records, covers, event, n - 1);
        lemma_warned_by(records, covers, event, n - 1);
    }
}

/// An event is missed exactly where no record that covers the point holds it
/// in its interval. Else the record that counts is the one that started
/// earliest, and of several the first in the list.
pub proof fn events_are_warned_by_the_earliest_record(
    records: Seq<RecordView>,
    covers: Seq<bool>,
    event: int,
)
    ensures
        ({
            let n = records.len() as int;
            match lead_time::first_warning(records, covers, event, n) {
                Some(k) => 0 <= k < n && warned_by(records, covers, event, k) && starts_at(
                    records[k],
                    lead_time::start_of(records[k]),
                ) && forall|i: int, s: int|
                    0 <= i < n && #[trigger] warned_by(records, covers, event, i)
                        && #[trigger] starts_at(records[i], s) ==> lead_time::start_of(records[k])
                        <= s && (i < k ==> lead_time::start_of(records[k]) < s),
                None => lead_time::event_warnings(records, covers, event, n) == 0 && forall|i: int|
                    0 <= i < n ==> !#[trigger] warned_by(records, covers, event, i),
            }
        }),
{
    let n = records.len() as int;
    lemma_first_warning(records, covers, event, n);
    if let Some(k) = lead_time::first_warning(records, covers, event, n) {
        lemma_warned_by(records, covers, event, k);
        let span = metrics::interval_of(records[k])->0;
        intervals_run_from_start_to_end(records[k], span.0, span.1);
        assert forall|i: int, s: int|
            0 <= i < n && #[trigger] warned_by(records, covers, event, i) && #[trigger] starts_at(
                records[i],
                s,
            ) implies lead_time::start_of(records[k]) <= s && (i < k ==> lead_time::start_of(
            records[k],
        ) < s) by {
            lemma_warned_by(records, covers, event, i);
            let other = metrics::interval_of(records[i])->0;
            intervals_run_from_start_to_end(records[i], other.0, other.1);
        }
    }
}

/// Whether record `i` warns the point at some time.
pub open spec fn warns_at_some_time(records: Seq<RecordView>, covers: Seq<bool>, i: int) -> bool {
    covers[i] && metrics::interval_of(records[i]) is Some
}

/// The first `n` numbers that are picked.
pub open spec fn picked(n: int, p: spec_fn(int) -> bool) -> Seq<int> {
    Seq::new(n as nat, |i: int| i).filter(p)
}

proof fn lemma_picked(n: int, p: spec_fn(int) -> bool)
    requires
        0 < n,
    ensures
        picked(n, p) == (if p(n - 1) {
            picked(n - 1, p).push(n - 1)
        } else {
            picked(n - 1, p)
        }),
{
    reveal(Seq::filter);
    let all = Seq::new(n as nat, |i: int| i);
    assert(all.drop_last() =~= Seq::new((n - 1) as nat, |i: int| i));
}

proof fn lemma_counts_are_picked(records: Seq<RecordView>, covers: Seq<bool>, event: int, n: int)
    requires
        0 <= n,
    ensures
        lead_time::point_warnings(records, covers, n) == picked(
            n,
            |i: int| warns_at_some_time(records, covers, i),
        ).len(),
        lead_time::event_warnings(records, covers, event, n) == picked(
            n,
            |i: int| warned_by(records, covers, event, i),
        ).len(),
    decreases n,
{
    let p = |i: int| warns_at_some_time(records, covers, i);
    let q = |i: int| warned_by(records, covers, event, i);
    if n > 0 {
        lemma_counts_are_picked(records, covers, event, n - 1);
        lemma_warned_by(records, covers, event, n - 1);
        lemma_picked(n, p);
        lemma_picked(n, q);
    } else {
        reveal(Seq::filter);
    }
}

/// The point is counted as warned once for every record that covers it and has
/// an interval, and the event once for every record that covers the point and
/// holds it.
pub proof fn warnings_are_counted_once(records: Seq<RecordView>, covers: Seq<bool>, event: int)
    ensures
        ({
            let n = records.len() as int;
            &&& lead_time::point_warnings(records, covers, n) == picked(
                n,
                |i: int| warns_at_some_time(records, covers, i),
            ).len()
            &&& lead_time::event_warnings(records, covers, event, n) == picked(
                n,
                |i: int| warned_by(records, covers, event, i),
            ).len()
        }),
{
    lemma_counts_are_picked(records, covers, event, records.len() as int);
}

/// The false alarm of records is that of those before and that of the last:
/// nothing where the last does not warn the point or holds the event, else the
/// whole of its interval.
pub proof fn false_alarms_add_up(
    records: Seq<RecordView>,
    covers: Seq<bool>,
    event: int,
    n: int,
    s: int,
    e: int,
)
    requires
        0 < n <= records.len(),
    ensures
        ({
            let before = lead_time::false_alarm_seconds(records, covers, event, n - 1);
            let all = lead_time::false_alarm_seconds(records, covers, event, n);
            &&& !covers[n - 1] ==> all == before
            &&& warned_by(records, covers, event, n - 1) ==> all == before
            &&& metrics::interval_of(records[n - 1]) is None ==> all == before
            &&& covers[n - 1] && starts_at(records[n - 1], s) && ends_at(records[n - 1], e) && s < e
                && !(s <= event < e) ==> all == before + metrics::duration_of((s, e))
        }),
{
    lemma_warned_by(records, covers, event, n - 1);
    intervals_run_from_start_to_end(records[n - 1], s, e);
}

/// Without records there is no false alarm.
pub proof fn no_records_no_false_alarm(records: Seq<RecordView>, covers: Seq<bool>, event: int)
    ensures
        lead_time::false_alarm_seconds(records, covers, event, 0) == 0,
{
}

} // verus!
