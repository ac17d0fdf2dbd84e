//! How far ahead of an event a place was warned.

use vstd::prelude::*;

use crate::clock;
use crate::issue_time;
use crate::metrics;
use crate::metrics::WarningInterval;
use crate::report;
use crate::warning::{RecordView, WarningTimelineRecord};

verus! {

/// What lead-time metrics leave out.
pub open spec fn metric_limitations() -> Seq<Seq<char>> {
    seq![
        "Lead time runs from the start of the earliest warning interval that holds the event time at the point."@,
        "Only records with a polygon that covers the point and a bounded time interval are counted."@,
        "False-alarm duration sums the intervals at the point that do not hold the event time; intervals that overlap are each counted."@,
    ]
}

/// What lead-time metrics leave out.
pub fn lead_time_event_metric_limitations() -> (r: Vec<&'static str>)
    ensures
        r@.len() == metric_limitations().len(),
        forall|i: int| 0 <= i < r@.len() ==> (#[trigger] r@[i])@ == metric_limitations()[i],
{
    let mut v: Vec<&'static str> = Vec::new();
    v.push(
        "Lead time runs from the start of the earliest warning interval that holds the event time at the point.",
    );
    v.push(
        "Only records with a polygon that covers the point and a bounded time interval are counted.",
    );
    v.push(
        "False-alarm duration sums the intervals at the point that do not hold the event time; intervals that overlap are each counted.",
    );
    v
}

/// The flag of metrics over records of which some have no polygon.
pub const NO_POLYGON_FLAG: &'static str = "records-without-polygon";

/// The flag of metrics over records of which some have no time interval.
pub const NO_INTERVAL_FLAG: &'static str = "records-without-interval";

/// Whether one of the first `n` records has no polygon.
pub open spec fn lacks_polygon(records: Seq<RecordView>, n: int) -> bool {
    exists|i: int| 0 <= i < n && (#[trigger] records[i]).polygon is None
}

/// Whether one of the first `n` records has no time interval.
pub open spec fn lacks_interval(records: Seq<RecordView>, n: int) -> bool {
    exists|i: int| 0 <= i < n && metrics::interval_of(#[trigger] records[i]) is None
}

/// What makes the metrics of the records less sure.
pub open spec fn quality_flags(records: Seq<RecordView>) -> Seq<Seq<char>> {
    (if lacks_polygon(records, records.len() as int) {
        seq![NO_POLYGON_FLAG@]
    } else {
        Seq::empty()
    }) + (if lacks_interval(records, records.len() as int) {
        seq![NO_INTERVAL_FLAG@]
    } else {
        Seq::empty()
    })
}

/// The lead time of an event at a point, over the records that cover the
/// point.
#[derive(Debug, Clone, PartialEq, Eq)]
pub struct LeadTimeMetrics {
    pub missed_event: bool,
    pub lead_time_seconds: Option<i64>,
    pub first_valid_warning_record_key: Option<String>,
    pub first_valid_warning_event_id: Option<String>,
    pub point_warning_records: usize,
    pub event_warning_records: usize,
    pub false_alarm_duration_seconds: i128,
    pub quality_flags: Vec<&'static str>,
}

/// Whether record `i` covers the point for some time.
pub open spec fn warns_point(records: Seq<RecordView>, covers: Seq<bool>, i: int) -> bool {
    covers[i] && metrics::interval_of(records[i]) is Some
}

/// Whether record `i` covers the point at the time of the event.
pub open spec fn warns_event(
    records: Seq<RecordView>,
    covers: Seq<bool>,
    event: int,
    i: int,
) -> bool {
    covers[i] && (metrics::interval_of(records[i]) matches Some(span) && span.0 <= event < span.1)
}

/// How many of the first `n` records cover the point.
pub open spec fn point_warnings(records: Seq<RecordView>, covers: Seq<bool>, n: int) -> int
    decreases n,
{
    if n <= 0 {
        0
    } else {
        point_warnings(records, covers, n - 1) + if warns_point(records, covers, n - 1) {
            1int
        } else {
            0
        }
    }
}

/// How many of the first `n` records cover the point at the time of the
/// event.
pub open spec fn event_warnings(
    records: Seq<RecordView>,
    covers: Seq<bool>,
    event: int,
    n: int,
) -> int
    decreases n,
{
    if n <= 0 {
        0
    } else {
        event_warnings(records, covers, event, n - 1) + if warns_event(
            records,
            covers,
            event,
            n - 1,
        ) {
            1int
        } else {
            0
        }
    }
}

/// How long the first `n` records warn the point without the event, in
/// seconds.
pub open spec fn false_alarm_seconds(
    records: Seq<RecordView>,
    covers: Seq<bool>,
    event: int,
    n: int,
) -> int
    decreases n,
{
    if n <= 0 {
        0
    } else {
        let before = false_alarm_seconds(records, covers, event, n - 1);
        if warns_point(records, covers, n - 1) && !warns_event(records, covers, event, n - 1) {
            before + metrics::duration_of(metrics::interval_of(records[n - 1])->0)
        } else {
            before
        }
    }
}

/// When the span of a record starts.
pub open spec fn start_of(r: RecordView) -> int {
    (metrics::interval_of(r)->0).0
}

/// Of the first `n` records the one that warned of the event first: the one
/// with the earliest start, and of several the first.
pub open spec fn first_warning(
    records: Seq<RecordView>,
    covers: Seq<bool>,
    event: int,
    n: int,
) -> Option<int>
    decreases n,
{
    if n <= 0 {
        None
    } else {
        let before = first_warning(records, covers, event, n - 1);
        if !warns_event(records, covers, event, n - 1) {
            before
        } else {
            match before {
                Some(k) => if start_of(records[n - 1]) < start_of(records[k]) {
                    Some(n - 1)
                } else {
                    before
                },
                None => Some(n - 1),
            }
        }
    }
}

proof fn lemma_first(records: Seq<RecordView>, covers: Seq<bool>, event: int, n: int)
    ensures
        match first_warning(records, covers, event, n) {
            Some(k) => 0 <= k < n && warns_event(records, covers, event, k) && forall|i: int|
                0 <= i < n && #[trigger] warns_event(records, covers, event, i) ==> start_of(
                    records[k],
                ) <= start_of(records[i]),
            None => forall|i: int|
                0 <= i < n ==> !#[trigger] warns_event(records, covers, event, i),
        },
        event_warnings(records, covers, event, n) >= 0,
        first_warning(records, covers, event, n) is None <==> event_warnings(
            records,
            covers,
            event,
            n,
        ) == 0,
    decreases n,
{
    if n > 0 {
        lemma_first(records, covers, event, n - 1);
    }
}

/// The lead time is that of the record which warned of the event earliest: no
/// other record that covers the point at the time of the event gives a longer
/// one.
pub proof fn lead_time_is_the_longest(
    records: Seq<RecordView>,
    covers: Seq<bool>,
    event: int,
    first: int,
    other: int,
)
    requires
        first_warning(records, covers, event, records.len() as int) == Some(first),
        0 <= other < records.len(),
        warns_event(records, covers, event, other),
    ensures
        warns_event(records, covers, event, first),
        clock::whole_seconds(event - start_of(records[first])) >= clock::whole_seconds(
            event - start_of(records[other]),
        ),
        clock::whole_seconds(event - start_of(records[first])) >= 0,
{
    lemma_first(records, covers, event, records.len() as int);
}

/// An event is missed exactly where no record covers the point at its time.
pub proof fn missed_means_not_warned(records: Seq<RecordView>, covers: Seq<bool>, event: int)
    ensures
        event_warnings(records, covers, event, records.len() as int) == 0 <==> forall|i: int|
            0 <= i < records.len() ==> !#[trigger] warns_event(records, covers, event, i),
{
    lemma_first(records, covers, event, records.len() as int);
}

fn holds(span: WarningInterval, event: i128) -> (r: bool)
    ensures
        r == (span.start <= event < span.end),
{
    span.start <= event && event < span.end
}

/// The lead time of an event at a point. `covers` says of each record whether
/// its polygon covers the point.
pub fn lead_time_metrics(
    records: &Vec<WarningTimelineRecord>,
    covers: &Vec<bool>,
    event: i128,
) -> (r: LeadTimeMetrics)
    requires
        covers@.len() == records@.len(),
        issue_time::representable(event as int),
    ensures
        ({
            let all = records.deep_view();
            let n = all.len() as int;
            let first = first_warning(all, covers@, event as int, n);
            &&& r.point_warning_records == point_warnings(all, covers@, n)
            &&& r.event_warning_records == event_warnings(all, covers@, event as int, n)
            &&& r.missed_event == (r.event_warning_records == 0)
            &&& r.false_alarm_duration_seconds == false_alarm_seconds(all, covers@, event as int, n)
            &&& report::texts(r.quality_flags@) == quality_flags(all)
            &&& match first {
                Some(k) => {
                    &&& r.lead_time_seconds matches Some(s) && s == clock::whole_seconds(
                        event - start_of(all[k]),
                    )
                    &&& r.first_valid_warning_record_key.deep_view() == Some(all[k].record_key)
                    &&& r.first_valid_warning_event_id.deep_view() == Some(all[k].event_id)
                },
                None => {
                    &&& r.lead_time_seconds is None
                    &&& r.first_valid_warning_record_key is None
                    &&& r.first_valid_warning_event_id is None
                },
            }
        }),
{
    let ghost all = records.deep_view();
    let mut points: usize = 0;
    let mut events: usize = 0;
    let mut false_alarm: i128 = 0;
    let mut first: Option<(usize, i128)> = None;
    let mut no_polygon: bool = false;
    let mut no_interval: bool = false;
    let mut i: usize = 0;
    while i < records.len()
        invariant
            i <= records@.len(),
            all == records.deep_view(),
            all.len() == records@.len(),
            no_polygon == lacks_polygon(all, i as int),
            no_interval == lacks_interval(all, i as int),
            covers@.len() == records@.len(),
            points <= i,
            events <= i,
            points == point_warnings(all, covers@, i as int),
            events == event_warnings(all, covers@, event as int, i as int),
            0 <= false_alarm <= 800_000_000_000 * i,
            false_alarm == false_alarm_seconds(all, covers@, event as int, i as int),
            match first {
                Some((k, start)) => first_warning(all, covers@, event as int, i as int) == Some(
                    k as int,
                ) && start == start_of(all[k as int]) && k < i && start <= event
                    && clock::in_span(start as int),
                None => first_warning(all, covers@, event as int, i as int) is None,
            },
        decreases records.len() - i,
    {
        assert(all[i as int] == records@[i as int].deep_view());
        let interval = metrics::warning_interval(&records[i]);
        no_polygon = no_polygon || records[i].polygon.is_none();
        no_interval = no_interval || interval.is_none();
        if covers[i] {
            if let Some(span) = interval {
                points += 1;
                if holds(span, event) {
                    events += 1;
                    let earlier: bool = match first {
                        Some((_, start)) => span.start < start,
                        None => true,
                    };
                    if earlier {
                        first = Some((i, span.start));
                    }
                } else {
                    false_alarm = false_alarm + span.duration_seconds() as i128;
                }
            }
        }
        i += 1;
    }
    proof {
        lemma_first(all, covers@, event as int, all.len() as int);
    }
    let mut lead_time_seconds: Option<i64> = None;
    let mut record_key: Option<String> = None;
    let mut event_id: Option<String> = None;
    if let Some((k, start)) = first {
        assert(all[k as int] == records@[k as int].deep_view());
        lead_time_seconds = Some(clock::seconds_between(start, event));
        record_key = Some(records[k].record_key.clone());
        event_id = Some(records[k].event_id.clone());
    }
    let mut quality_flags: Vec<&'static str> = Vec::new();
    if no_polygon {
        quality_flags.push(NO_POLYGON_FLAG);
    }
    if no_interval {
        quality_flags.push(NO_INTERVAL_FLAG);
    }
    assert(report::texts(quality_flags@) =~= self::quality_flags(all));
    LeadTimeMetrics {
        missed_event: events == 0,
        lead_time_seconds,
        first_valid_warning_record_key: record_key,
        first_valid_warning_event_id: event_id,
        point_warning_records: points,
        event_warning_records: events,
        false_alarm_duration_seconds: false_alarm,
        quality_flags,
    }
}

} // verus!
