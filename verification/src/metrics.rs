//! Metrics of pairs of warnings: how long they are valid, how large they are
//! and how they overlap.

use vstd::prelude::*;

use crate::clock;
use crate::issue_time;
use crate::polygon;
use crate::warning::{RecordView, WarningTimelineRecord};
use crate::warning_tags::WarningPoint;

verus! {

pub const AREA_TIME_POLYGON_METRICS_SCHEMA: &'static str = "warning.area_time_polygon_metrics.v1";

pub const AREA_TIME_POLYGON_METRICS_METHOD: &'static str = "planar-lon-lat-shoelace-convex-clip-v1";

/// What the area and overlap metrics leave out.
pub fn area_time_polygon_metric_limitations() -> (r: Vec<&'static str>)
    ensures
        r@ == seq![
            "Polygon area is computed in lon/lat square-degrees; it is not geodesic or equal-area.",
            "Polygon overlap uses deterministic planar clipping and is returned only for simple convex polygons.",
            "Dateline, pole, and earth-curvature effects are not modeled.",
        ],
{
    let mut v: Vec<&'static str> = Vec::new();
    v.push("Polygon area is computed in lon/lat square-degrees; it is not geodesic or equal-area.");
    v.push(
        "Polygon overlap uses deterministic planar clipping and is returned only for simple convex polygons.",
    );
    v.push("Dateline, pole, and earth-curvature effects are not modeled.");
    v
}

/// The time span in which a warning is valid.
#[derive(Debug, Clone, Copy, PartialEq, Eq, Structural)]
pub struct WarningInterval {
    pub start: i128,
    pub end: i128,
}

/// When a warning ends: at its valid end, or at its cancellation if that is
/// earlier or the only one known.
pub open spec fn interval_end(valid_end: Option<int>, canceled_at: Option<int>) -> Option<int> {
    match (valid_end, canceled_at) {
        (Some(v), Some(c)) => if c < v {
            Some(c)
        } else {
            Some(v)
        },
        (Some(v), None) => Some(v),
        (None, c) => c,
    }
}

/// The span of a record: from its valid start, else its issue time, else the
/// wrapper's, to its end; none where that is no time at all.
pub open spec fn interval_of(r: RecordView) -> Option<(int, int)> {
    let start = issue_time::or_int(
        clock::read_instant(r.valid_start),
        issue_time::or_int(
            clock::read_instant(r.issued_at),
            clock::read_instant(r.wrapper_issued_at),
        ),
    );
    let valid_end = issue_time::or_int(
        clock::read_instant(r.valid_end),
        clock::read_instant(r.expires_at),
    );
    let end = interval_end(valid_end, clock::read_instant(r.canceled_at));
    match (start, end) {
        (Some(s), Some(e)) => if e > s {
            Some((s, e))
        } else {
            None
        },
        _ => None,
    }
}

/// The whole seconds of a span.
pub open spec fn duration_of(i: (int, int)) -> int {
    clock::whole_seconds(i.1 - i.0)
}

/// The whole seconds that two spans have in common.
pub open spec fn overlap_of(a: (int, int), b: (int, int)) -> int {
    let start = if a.0 >= b.0 {
        a.0
    } else {
        b.0
    };
    let end = if a.1 <= b.1 {
        a.1
    } else {
        b.1
    };
    if end <= start {
        0
    } else {
        clock::whole_seconds(end - start)
    }
}

/// Overlap does not depend on the order of the spans.
pub proof fn overlap_is_symmetric(a: (int, int), b: (int, int))
    ensures
        overlap_of(a, b) == overlap_of(b, a),
{
}

/// An overlap is never negative and never longer than either span, so the
/// union of two spans is at least as long as each of them.
pub proof fn overlap_is_within_both(a: (int, int), b: (int, int))
    requires
        a.0 < a.1,
        b.0 < b.1,
    ensures
        0 <= overlap_of(a, b) <= duration_of(a),
        overlap_of(a, b) <= duration_of(b),
        duration_of(a) + duration_of(b) - overlap_of(a, b) >= duration_of(a),
        duration_of(a) + duration_of(b) - overlap_of(a, b) >= duration_of(b),
{
}

/// A span overlaps with itself all the time that it lasts.
pub proof fn overlap_with_itself(a: (int, int))
    requires
        a.0 < a.1,
    ensures
        overlap_of(a, a) == duration_of(a),
{
}

/// The exec span as a mathematical one.
pub open spec fn opt_pair(i: Option<WarningInterval>) -> Option<(int, int)> {
    match i {
        Some(v) => Some((v.start as int, v.end as int)),
        None => None,
    }
}

/// Whether a span lies where differences are exact, and lasts some time.
pub open spec fn proper(i: WarningInterval) -> bool {
    clock::in_span(i.start as int) && clock::in_span(i.end as int) && i.start < i.end
}

impl WarningInterval {
    pub fn duration_seconds(self) -> (r: i64)
        requires
            proper(self),
        ensures
            r == duration_of((self.start as int, self.end as int)),
            0 <= r <= 800_000_000_000,
    {
        clock::seconds_between(self.start, self.end)
    }

    pub fn overlap_seconds(self, other: WarningInterval) -> (r: i64)
        requires
            proper(self),
            proper(other),
        ensures
            r == overlap_of(
                (self.start as int, self.end as int),
                (other.start as int, other.end as int),
            ),
    {
        let start: i128 = if self.start >= other.start {
            self.start
        } else {
            other.start
        };
        let end: i128 = if self.end <= other.end {
            self.end
        } else {
            other.end
        };
        if end <= start {
            0
        } else {
            clock::seconds_between(start, end)
        }
    }
}

fn or_instant(a: Option<i128>, b: Option<i128>) -> (r: Option<i128>)
    ensures
        r == (match a {
            Some(_) => a,
            None => b,
        }),
{
    match a {
        Some(_) => a,
        None => b,
    }
}

/// The span of a record.
pub fn warning_interval(record: &WarningTimelineRecord) -> (r: Option<WarningInterval>)
    ensures
        opt_pair(r) == interval_of(record.deep_view()),
        r matches Some(i) ==> proper(i),
{
    let valid_start = clock::read_opt(&record.valid_start);
    let issued_at = clock::read_opt(&record.issued_at);
    let wrapper_issued_at = clock::read_opt(&record.wrapper_issued_at);
    let start: i128 = match or_instant(valid_start, or_instant(issued_at, wrapper_issued_at)) {
        Some(s) => s,
        None => {
            return None;
        },
    };
    let valid_end = or_instant(
        clock::read_opt(&record.valid_end),
        clock::read_opt(&record.expires_at),
    );
    let canceled_at = clock::read_opt(&record.canceled_at);
    let end: i128 = match (valid_end, canceled_at) {
        (Some(v), Some(c)) => if c < v {
            c
        } else {
            v
        },
        (Some(v), None) => v,
        (None, Some(c)) => c,
        (None, None) => {
            return None;
        },
    };
    if end > start {
        Some(WarningInterval { start, end })
    } else {
        None
    }
}

/// How long a record is valid.
pub fn warning_interval_duration_seconds(record: &WarningTimelineRecord) -> (r: Option<i64>)
    ensures
        match interval_of(record.deep_view()) {
            Some(i) => r == Some(duration_of(i) as i64) && duration_of(i) == duration_of(i) as i64,
            None => r is None,
        },
{
    match warning_interval(record) {
        Some(i) => Some(i.duration_seconds()),
        None => None,
    }
}

/// How long two records are valid together.
pub fn warning_interval_overlap_seconds(
    left: &WarningTimelineRecord,
    right: &WarningTimelineRecord,
) -> (r: Option<i64>)
    ensures
        match (interval_of(left.deep_view()), interval_of(right.deep_view())) {
            (Some(a), Some(b)) => r == Some(overlap_of(a, b) as i64) && overlap_of(a, b)
                == overlap_of(a, b) as i64,
            _ => r is None,
        },
{
    match (warning_interval(left), warning_interval(right)) {
        (Some(a), Some(b)) => Some(a.overlap_seconds(b)),
        _ => None,
    }
}

/// The metrics of two warnings. The time overlap ratio is kept as numerator
/// and denominator, areas are in twenty-thousandths of a square degree, and
/// the overlap of the polygons is given by the outlines to clip.
#[derive(Debug, Clone, PartialEq, Eq)]
pub struct WarningTimeMetrics {
    pub left_record_key: String,
    pub right_record_key: String,
    pub left_event_id: String,
    pub right_event_id: String,
    pub left_interval_start: Option<String>,
    pub left_interval_end: Option<String>,
    pub right_interval_start: Option<String>,
    pub right_interval_end: Option<String>,
    pub left_duration_seconds: Option<i64>,
    pub right_duration_seconds: Option<i64>,
    pub time_overlap_seconds: Option<i64>,
    pub time_union_seconds: Option<i64>,
    pub time_overlap_ratio: Option<(i64, i64)>,
    pub left_area: Option<i128>,
    pub right_area: Option<i128>,
    pub overlap_outlines: Option<(Vec<WarningPoint>, Vec<WarningPoint>)>,
}

/// What metrics say of one warning.
pub struct MetricsSide {
    pub record_key: Seq<char>,
    pub event_id: Seq<char>,
    pub interval_start: Option<Seq<char>>,
    pub interval_end: Option<Seq<char>>,
    pub duration: Option<int>,
    pub area: Option<int>,
}

/// What metrics say of two warnings, of each and of both.
pub struct MetricsView {
    pub left: MetricsSide,
    pub right: MetricsSide,
    pub time_overlap: Option<int>,
    pub time_union: Option<int>,
    pub time_ratio: Option<(int, int)>,
    pub outlines: Option<(Seq<WarningPoint>, Seq<WarningPoint>)>,
}

impl DeepView for WarningTimeMetrics {
    type V = MetricsView;

    open spec fn deep_view(&self) -> MetricsView {
        MetricsView {
            left: MetricsSide {
                record_key: self.left_record_key@,
                event_id: self.left_event_id@,
                interval_start: self.left_interval_start.deep_view(),
                interval_end: self.left_interval_end.deep_view(),
                duration: opt_i64(self.left_duration_seconds),
                area: clock::opt_int(self.left_area),
            },
            right: MetricsSide {
                record_key: self.right_record_key@,
                event_id: self.right_event_id@,
                interval_start: self.right_interval_start.deep_view(),
                interval_end: self.right_interval_end.deep_view(),
                duration: opt_i64(self.right_duration_seconds),
                area: clock::opt_int(self.right_area),
            },
            time_overlap: opt_i64(self.time_overlap_seconds),
            time_union: opt_i64(self.time_union_seconds),
            time_ratio: opt_i64_pair(self.time_overlap_ratio),
            outlines: polygon::pair_view(self.overlap_outlines),
        }
    }
}

pub open spec fn start_text(i: Option<(int, int)>) -> Option<Seq<char>> {
    match i {
        Some(v) => clock::written(Some(v.0)),
        None => None,
    }
}

pub open spec fn end_text(i: Option<(int, int)>) -> Option<Seq<char>> {
    match i {
        Some(v) => clock::written(Some(v.1)),
        None => None,
    }
}

pub open spec fn opt_duration(i: Option<(int, int)>) -> Option<int> {
    match i {
        Some(v) => Some(duration_of(v)),
        None => None,
    }
}

pub open spec fn opt_overlap(a: Option<(int, int)>, b: Option<(int, int)>) -> Option<int> {
    match (a, b) {
        (Some(x), Some(y)) => Some(overlap_of(x, y)),
        _ => None,
    }
}

pub open spec fn opt_union(a: Option<(int, int)>, b: Option<(int, int)>) -> Option<int> {
    match (a, b) {
        (Some(x), Some(y)) => Some(duration_of(x) + duration_of(y) - overlap_of(x, y)),
        _ => None,
    }
}

/// Overlap over union, where there is a union of some length.
pub open spec fn opt_ratio(a: Option<(int, int)>, b: Option<(int, int)>) -> Option<(int, int)> {
    match (opt_overlap(a, b), opt_union(a, b)) {
        (Some(n), Some(d)) => if d > 0 {
            Some((n, d))
        } else {
            None
        },
        _ => None,
    }
}

pub open spec fn opt_i64(v: Option<i64>) -> Option<int> {
    match v {
        Some(n) => Some(n as int),
        None => None,
    }
}

pub open spec fn opt_i64_pair(v: Option<(i64, i64)>) -> Option<(int, int)> {
    match v {
        Some((n, d)) => Some((n as int, d as int)),
        None => None,
    }
}

fn write_start(i: &Option<WarningInterval>) -> (r: Option<String>)
    ensures
        r.deep_view() == start_text(opt_pair(*i)),
{
    match i {
        Some(v) => clock::write_opt(Some(v.start)),
        None => None,
    }
}

fn write_end(i: &Option<WarningInterval>) -> (r: Option<String>)
    ensures
        r.deep_view() == end_text(opt_pair(*i)),
{
    match i {
        Some(v) => clock::write_opt(Some(v.end)),
        None => None,
    }
}

/// The area of the polygon of a record, where it has a simple outline.
pub open spec fn record_area(r: RecordView) -> Option<int> {
    match r.polygon {
        Some(p) => polygon::area_of(p.points),
        None => None,
    }
}

/// The outlines of the polygons of two records, where their overlap is
/// defined.
pub open spec fn record_outlines(left: RecordView, right: RecordView) -> Option<
    (Seq<WarningPoint>, Seq<WarningPoint>),
> {
    match (left.polygon, right.polygon) {
        (Some(l), Some(r)) => polygon::overlap_pair(l.points, r.points),
        _ => None,
    }
}

/// What metrics say of a warning.
pub open spec fn side_of(r: RecordView) -> MetricsSide {
    let i = interval_of(r);
    MetricsSide {
        record_key: r.record_key,
        event_id: r.event_id,
        interval_start: start_text(i),
        interval_end: end_text(i),
        duration: opt_duration(i),
        area: record_area(r),
    }
}

/// What metrics say of two warnings.
pub open spec fn metrics_of(left: RecordView, right: RecordView) -> MetricsView {
    let a = interval_of(left);
    let b = interval_of(right);
    MetricsView {
        left: side_of(left),
        right: side_of(right),
        time_overlap: opt_overlap(a, b),
        time_union: opt_union(a, b),
        time_ratio: opt_ratio(a, b),
        outlines: record_outlines(left, right),
    }
}

/// Metrics with the two warnings in the other order.
pub open spec fn swapped(m: MetricsView) -> MetricsView {
    MetricsView {
        left: m.right,
        right: m.left,
        outlines: match m.outlines {
            Some((a, b)) => Some((b, a)),
            None => None,
        },
        ..m
    }
}

/// Swapping two warnings swaps what the metrics say of each, the areas of
/// their polygons among it, and leaves the rest: overlap, union and ratio are
/// the same, and the overlap of the polygons is defined for both orders or for
/// neither.
pub proof fn swapped_warnings_swap_the_metrics(left: RecordView, right: RecordView)
    ensures
        metrics_of(right, left) == swapped(metrics_of(left, right)),
{
    if let (Some(x), Some(y)) = (interval_of(left), interval_of(right)) {
        overlap_is_symmetric(x, y);
    }
    if let (Some(l), Some(r)) = (left.polygon, right.polygon) {
        polygon::overlap_is_defined_in_both_orders(l.points, r.points);
    }
}

/// The time overlap ratio lies between zero and one, durations and areas are
/// never negative, and where the overlap of the polygons is defined both have
/// an area.
pub proof fn metrics_are_in_bounds(left: RecordView, right: RecordView)
    ensures
        ({
            let m = metrics_of(left, right);
            &&& m.time_ratio matches Some((n, d)) ==> 0 <= n <= d && 0 < d
            &&& m.time_ratio is Some ==> m.time_overlap is Some && m.time_union is Some
            &&& m.left.duration matches Some(s) ==> s >= 0
            &&& m.right.duration matches Some(s) ==> s >= 0
            &&& m.left.area matches Some(s) ==> s >= 0
            &&& m.right.area matches Some(s) ==> s >= 0
            &&& m.outlines is Some ==> m.left.area is Some && m.right.area is Some
        }),
{
    if let (Some(x), Some(y)) = (interval_of(left), interval_of(right)) {
        overlap_is_within_both(x, y);
    }
    if let (Some(l), Some(r)) = (left.polygon, right.polygon) {
        polygon::overlap_needs_simple_convex_outlines(l.points, r.points);
    }
}

fn area_of_record(record: &WarningTimelineRecord) -> (r: Option<i128>)
    ensures
        clock::opt_int(r) == record_area(record.deep_view()),
{
    match &record.polygon {
        Some(p) => polygon::warning_polygon_area_square_degrees(p),
        None => None,
    }
}

/// The metrics of two warnings, without the clipped overlap of their polygons.
pub fn area_time_metrics(left: &WarningTimelineRecord, right: &WarningTimelineRecord) -> (r:
    WarningTimeMetrics)
    ensures
        r.deep_view() == metrics_of(left.deep_view(), right.deep_view()),
{
    let a = warning_interval(left);
    let b = warning_interval(right);
    let left_duration_seconds: Option<i64> = match a {
        Some(i) => Some(i.duration_seconds()),
        None => None,
    };
    let right_duration_seconds: Option<i64> = match b {
        Some(i) => Some(i.duration_seconds()),
        None => None,
    };
    let (time_overlap_seconds, time_union_seconds): (Option<i64>, Option<i64>) = match (a, b) {
        (Some(x), Some(y)) => {
            let overlap: i64 = x.overlap_seconds(y);
            proof {
                overlap_is_within_both(
                    (x.start as int, x.end as int),
                    (y.start as int, y.end as int),
                );
            }
            let union_seconds: i64 = x.duration_seconds() + y.duration_seconds() - overlap;
            (Some(overlap), Some(union_seconds))
        },
        _ => (None, None),
    };
    let time_overlap_ratio: Option<(i64, i64)> = match (time_overlap_seconds, time_union_seconds) {
        (Some(n), Some(d)) => if d > 0 {
            Some((n, d))
        } else {
            None
        },
        _ => None,
    };
    let overlap_outlines: Option<(Vec<WarningPoint>, Vec<WarningPoint>)> = match (
        &left.polygon,
        &right.polygon,
    ) {
        (Some(l), Some(r)) => polygon::overlap_outlines(l, r),
        _ => None,
    };
    WarningTimeMetrics {
        left_record_key: left.record_key.clone(),
        right_record_key: right.record_key.clone(),
        left_event_id: left.event_id.clone(),
        right_event_id: right.event_id.clone(),
        left_interval_start: write_start(&a),
        left_interval_end: write_end(&a),
        right_interval_start: write_start(&b),
        right_interval_end: write_end(&b),
        left_duration_seconds,
        right_duration_seconds,
        time_overlap_seconds,
        time_union_seconds,
        time_overlap_ratio,
        left_area: area_of_record(left),
        right_area: area_of_record(right),
        overlap_outlines,
    }
}

/// Why a reference time was refused.
#[derive(Debug, Clone, PartialEq, Eq)]
pub enum ReferenceError {
    /// The text is no RFC 3339 time, for the reason given.
    Unreadable(String),
    /// The time lies outside the dates that can be represented.
    OutOfRange,
}

/// What a refused reference time says.
pub open spec fn reference_error(e: ReferenceError) -> Seq<char> {
    match e {
        ReferenceError::Unreadable(reason) => reason@,
        ReferenceError::OutOfRange => "time lies outside the dates that can be represented"@,
    }
}

impl ReferenceError {
    pub fn message(&self) -> (r: String)
        ensures
            r@ == reference_error(*self),
    {
        match self {
            ReferenceError::Unreadable(reason) => reason.clone(),
            ReferenceError::OutOfRange => {
                "time lies outside the dates that can be represented".to_owned()
            },
        }
    }
}

/// Reads a reference time: an RFC 3339 text that names an instant of a
/// representable date.
pub fn parse_reference_utc(raw: &str) -> (r: Result<i128, ReferenceError>)
    ensures
        match clock::rfc3339_reading(raw@) {
            Ok((n, offset)) => if issue_time::representable(n) {
                r matches Ok(v) && v == n
            } else {
                r matches Err(ReferenceError::OutOfRange)
            },
            Err(reason) => r matches Err(ReferenceError::Unreadable(e)) && e@ == reason,
        },
{
    match clock::parse_rfc3339(raw) {
        Ok((n, _)) => if clock::FIRST_INSTANT <= n && n < clock::END_INSTANT {
            Ok(n)
        } else {
            Err(ReferenceError::OutOfRange)
        },
        Err(reason) => Err(ReferenceError::Unreadable(reason)),
    }
}

} // verus!
