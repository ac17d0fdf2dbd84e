//! Summaries of segments and messages, as reports show them.

use vstd::prelude::*;

use crate::archive;
use crate::digest;
use crate::families;
use crate::geo;
use crate::geo::{GeoPoint, LatLonBlock, LatLonBlockView, TimeMotLoc, TimeMotLocView};
use crate::header;
use crate::lines;
use crate::product::{NwwsContent, NwwsContentView, ProductSegment, ProductSegmentView};
use crate::text;
use crate::ugc;
use crate::vtec::{Hvtec, Pvtec, PvtecView};
use crate::warning_tags;
use crate::warning_tags::{TagState, TagValues, WarningPoint, WindSpeed, WindSpeedView};

verus! {

// ---------------------------------------------------------------------------
// Segments
// ---------------------------------------------------------------------------

/// A point in hundredths of a degree, north and east positive.
#[derive(Debug, Clone, Copy, PartialEq, Eq, Structural)]
pub struct PointSummary {
    pub lat: i32,
    pub lon: i32,
}

pub open spec fn point_summary(p: GeoPoint, office: Seq<char>) -> PointSummary {
    let signed = warning_tags::point_of(p, office);
    PointSummary { lat: signed.lat, lon: signed.lon }
}

pub open spec fn point_summaries(points: Seq<GeoPoint>, office: Seq<char>) -> Seq<PointSummary> {
    Seq::new(points.len(), |i: int| point_summary(points[i], office))
}

impl PointSummary {
    pub fn from_geo_point(point: GeoPoint, office: &str) -> (r: PointSummary)
        requires
            geo::fits(point),
        ensures
            r == point_summary(point, office@),
    {
        let signed = WarningPoint::from_geo_point(point, office);
        PointSummary { lat: signed.lat, lon: signed.lon }
    }
}

fn summarize_points(points: &Vec<GeoPoint>, office: &str) -> (r: Vec<PointSummary>)
    requires
        geo::all_fit(points@),
    ensures
        r@ == point_summaries(points@, office@),
{
    let mut out: Vec<PointSummary> = Vec::new();
    let mut i: usize = 0;
    while i < points.len()
        invariant
            i <= points@.len(),
            geo::all_fit(points@),
            out@ == point_summaries(points@, office@).take(i as int),
        decreases points.len() - i,
    {
        out.push(PointSummary::from_geo_point(points[i], office));
        i += 1;
    }
    assert(point_summaries(points@, office@).take(i as int) =~= point_summaries(
        points@,
        office@,
    ));
    out
}

/// The motion of a storm.
#[derive(Debug, Clone, PartialEq, Eq)]
pub struct TimeMotLocSummary {
    pub time: String,
    pub direction_degrees: u16,
    pub speed_knots: u8,
    pub locations: Vec<PointSummary>,
}

pub struct MotionSummaryView {
    pub time: Seq<char>,
    pub direction_degrees: u16,
    pub speed_knots: u8,
    pub locations: Seq<PointSummary>,
}

impl DeepView for TimeMotLocSummary {
    type V = MotionSummaryView;

    open spec fn deep_view(&self) -> MotionSummaryView {
        MotionSummaryView {
            time: self.time@,
            direction_degrees: self.direction_degrees,
            speed_knots: self.speed_knots,
            locations: self.locations@,
        }
    }
}

pub open spec fn motion_summary(line: Option<TimeMotLocView>, office: Seq<char>) -> Option<
    MotionSummaryView,
> {
    match line {
        Some(m) => Some(
            MotionSummaryView {
                time: warning_tags::motion_clock(m.hour, m.minute),
                direction_degrees: m.direction_degrees,
                speed_knots: m.speed_knots,
                locations: point_summaries(m.locations, office),
            },
        ),
        None => None,
    }
}

fn summarize_motion(line: &Option<TimeMotLoc>, office: &str) -> (r: Option<TimeMotLocSummary>)
    ensures
        r.deep_view() == motion_summary(line.deep_view(), office@),
{
    match line {
        Some(m) => Some(
            TimeMotLocSummary {
                time: warning_tags::motion_time_text(m.hour(), m.minute()),
                direction_degrees: m.direction_degrees(),
                speed_knots: m.speed_knots(),
                locations: summarize_points(m.locations(), office),
            },
        ),
        None => None,
    }
}

/// The points of a polygon, if there is one.
pub open spec fn outline_summary(block: Option<LatLonBlockView>, office: Seq<char>) -> Option<
    Seq<PointSummary>,
> {
    match block {
        Some(b) => Some(point_summaries(b.points, office)),
        None => None,
    }
}

/// The contents of an optional list of points.
pub open spec fn opt_points(points: Option<Vec<PointSummary>>) -> Option<Seq<PointSummary>> {
    match points {
        Some(v) => Some(v@),
        None => None,
    }
}

fn summarize_outline(block: &Option<LatLonBlock>, office: &str) -> (r: Option<Vec<PointSummary>>)
    ensures
        opt_points(r) == outline_summary(block.deep_view(), office@),
{
    match block {
        Some(b) => Some(summarize_points(b.points(), office)),
        None => None,
    }
}

/// A segment of a product. The hail size is a decimal literal.
#[derive(Debug, Clone, PartialEq, Eq)]
pub struct SegmentSummary {
    pub headline: Option<String>,
    pub body_lines: Vec<String>,
    pub separated_by_dollars: bool,
    pub contains_andand: bool,
    pub ugc_raw: String,
    pub ugcs: Vec<String>,
    pub pvtec: Vec<String>,
    pub hvtec: Vec<String>,
    pub tornado_tag: Option<String>,
    pub flash_flood_observed: bool,
    pub flash_flood_emergency: bool,
    pub hail_inches: Option<String>,
    pub wind_mph: Option<u16>,
    pub damage_threat: Option<String>,
    pub lat_lon: Option<Vec<PointSummary>>,
    pub time_mot_loc: Option<TimeMotLocSummary>,
}

pub struct SegmentSummaryView {
    pub headline: Option<Seq<char>>,
    pub body_lines: Seq<Seq<char>>,
    pub separated_by_dollars: bool,
    pub contains_andand: bool,
    pub ugc_raw: Seq<char>,
    pub ugcs: Seq<Seq<char>>,
    pub pvtec: Seq<Seq<char>>,
    pub hvtec: Seq<Seq<char>>,
    pub tornado_tag: Option<Seq<char>>,
    pub flash_flood_observed: bool,
    pub flash_flood_emergency: bool,
    pub hail_inches: Option<Seq<char>>,
    pub wind_mph: Option<u16>,
    pub damage_threat: Option<Seq<char>>,
    pub lat_lon: Option<Seq<PointSummary>>,
    pub time_mot_loc: Option<MotionSummaryView>,
}

impl DeepView for SegmentSummary {
    type V = SegmentSummaryView;

    open spec fn deep_view(&self) -> SegmentSummaryView {
        SegmentSummaryView {
            headline: self.headline.deep_view(),
            body_lines: self.body_lines.deep_view(),
            separated_by_dollars: self.separated_by_dollars,
            contains_andand: self.contains_andand,
            ugc_raw: self.ugc_raw@,
            ugcs: self.ugcs.deep_view(),
            pvtec: self.pvtec.deep_view(),
            hvtec: self.hvtec.deep_view(),
            tornado_tag: self.tornado_tag.deep_view(),
            flash_flood_observed: self.flash_flood_observed,
            flash_flood_emergency: self.flash_flood_emergency,
            hail_inches: self.hail_inches.deep_view(),
            wind_mph: self.wind_mph,
            damage_threat: self.damage_threat.deep_view(),
            lat_lon: opt_points(self.lat_lon),
            time_mot_loc: self.time_mot_loc.deep_view(),
        }
    }
}

/// The VTEC lines as written.
pub open spec fn pvtec_texts(pvtec: Seq<PvtecView>) -> Seq<Seq<char>> {
    Seq::new(pvtec.len(), |i: int| pvtec[i].raw)
}

/// The miles per hour of a wind speed.
pub open spec fn mph_of(wind: Option<WindSpeedView>) -> Option<u16> {
    match wind {
        Some(WindSpeedView::Mph(n)) => Some(n),
        _ => None,
    }
}

/// The summary of a segment: its texts and codes, what its tags amount to
/// (the last one of a kind counts), and its geometry.
pub open spec fn segment_summary(segment: ProductSegmentView, office: Seq<char>) -> SegmentSummaryView {
    let v: TagValues = warning_tags::with_segment_tags(warning_tags::no_values(), segment.tags);
    let flash_flood = warning_tags::is_flash_flood(segment.pvtec);
    SegmentSummaryView {
        headline: segment.headline,
        body_lines: segment.body_lines,
        separated_by_dollars: segment.boundaries.separated_by_dollars,
        contains_andand: segment.boundaries.contains_andand,
        ugc_raw: segment.ugc.raw,
        ugcs: ugc::expand_codes(segment.ugc.codes),
        pvtec: pvtec_texts(segment.pvtec),
        hvtec: segment.hvtec,
        tornado_tag: v.tornado,
        flash_flood_observed: v.flash_flood_observed,
        flash_flood_emergency: warning_tags::is_emergency(v, flash_flood),
        hail_inches: v.hail,
        wind_mph: mph_of(v.wind),
        damage_threat: warning_tags::reported_damage(v, flash_flood),
        lat_lon: outline_summary(segment.lat_lon, office),
        time_mot_loc: motion_summary(segment.time_mot_loc, office),
    }
}

fn pvtec_lines(pvtec: &Vec<Pvtec>) -> (r: Vec<String>)
    ensures
        r.deep_view() == pvtec_texts(pvtec.deep_view()),
{
    let mut out: Vec<String> = Vec::new();
    let mut i: usize = 0;
    while i < pvtec.len()
        invariant
            i <= pvtec@.len(),
            out@.len() == i,
            forall|k: int| 0 <= k < i ==> (#[trigger] out@[k])@ == pvtec@[k].deep_view().raw,
        decreases pvtec.len() - i,
    {
        out.push(pvtec[i].raw().to_owned());
        i += 1;
    }
    assert(out.deep_view() =~= pvtec_texts(pvtec.deep_view()));
    out
}

fn hvtec_lines(hvtec: &Vec<Hvtec>) -> (r: Vec<String>)
    ensures
        r.deep_view() == hvtec.deep_view(),
{
    let mut out: Vec<String> = Vec::new();
    let mut i: usize = 0;
    while i < hvtec.len()
        invariant
            i <= hvtec@.len(),
            out@.len() == i,
            forall|k: int| 0 <= k < i ==> (#[trigger] out@[k])@ == hvtec@[k].deep_view(),
        decreases hvtec.len() - i,
    {
        out.push(hvtec[i].raw().to_owned());
        i += 1;
    }
    assert(out.deep_view() =~= hvtec.deep_view());
    out
}

impl SegmentSummary {
    /// Summarizes a segment of a product of the office.
    pub fn from_segment(segment: &ProductSegment, office: &str) -> (r: SegmentSummary)
        ensures
            r.deep_view() == segment_summary(segment.deep_view(), office@),
    {
        let mut state = TagState::new();
        state.segment_tags(&segment.tags.tags);
        let flash_flood = warning_tags::flash_flood_product(&segment.pvtec);
        let flash_flood_emergency = state.emergency(flash_flood);
        let damage_threat = if flash_flood {
            None
        } else {
            state.damage
        };
        let wind_mph: Option<u16> = match state.wind {
            Some(WindSpeed::Mph(n)) => Some(n),
            _ => None,
        };
        SegmentSummary {
            headline: text::copy_opt(&segment.headline),
            body_lines: text::copy_texts(&segment.body_lines),
            separated_by_dollars: segment.boundaries.separated_by_dollars,
            contains_andand: segment.boundaries.contains_andand,
            ugc_raw: segment.ugc.raw().to_owned(),
            ugcs: ugc::expand_ugc_codes(&segment.ugc),
            pvtec: pvtec_lines(&segment.pvtec),
            hvtec: hvtec_lines(&segment.hvtec),
            tornado_tag: state.tornado,
            flash_flood_observed: state.flash_flood_observed,
            flash_flood_emergency,
            hail_inches: state.hail,
            wind_mph,
            damage_threat,
            lat_lon: summarize_outline(&segment.lat_lon, office),
            time_mot_loc: summarize_motion(&segment.time_mot_loc, office),
        }
    }
}

// ---------------------------------------------------------------------------
// Messages
// ---------------------------------------------------------------------------

/// Positions `start` to `end`, exclusive, of an input.
#[derive(Debug, Clone, Copy, PartialEq, Eq, Structural)]
pub struct ByteRange {
    pub start: usize,
    pub end: usize,
}

/// What an NWWS-OI wrapper says of its message.
#[derive(Debug, Clone, PartialEq, Eq)]
pub struct WrapperSummary {
    pub summary: Option<String>,
    pub id: Option<String>,
    pub issue: Option<String>,
}

pub struct WrapperSummaryView {
    pub summary: Option<Seq<char>>,
    pub id: Option<Seq<char>>,
    pub issue: Option<Seq<char>>,
}

impl DeepView for WrapperSummary {
    type V = WrapperSummaryView;

    open spec fn deep_view(&self) -> WrapperSummaryView {
        WrapperSummaryView {
            summary: self.summary.deep_view(),
            id: self.id.deep_view(),
            issue: self.issue.deep_view(),
        }
    }
}

/// A message.
#[derive(Debug, Clone, PartialEq, Eq)]
pub struct MessageSummary {
    pub byte_range: Option<ByteRange>,
    pub wrapper: Option<WrapperSummary>,
    pub frame_kind: &'static str,
    pub sequence_number: Option<u16>,
    pub heading: String,
    pub ttaaii: String,
    pub cccc: String,
    pub office: String,
    pub yygggg: String,
    pub bbb: Option<String>,
    pub awips_id: Option<String>,
    pub family: String,
    pub semantic_fingerprint: String,
    pub raw_bulletin_blake3: String,
    pub archive_id: String,
    pub segment_count: usize,
    pub segments: Vec<SegmentSummary>,
    pub raw_bulletin: String,
}

pub struct MessageSummaryView {
    pub byte_range: Option<ByteRange>,
    pub wrapper: Option<WrapperSummaryView>,
    pub frame_kind: Seq<char>,
    pub sequence_number: Option<u16>,
    pub heading: Seq<char>,
    pub ttaaii: Seq<char>,
    pub cccc: Seq<char>,
    pub office: Seq<char>,
    pub yygggg: Seq<char>,
    pub bbb: Option<Seq<char>>,
    pub awips_id: Option<Seq<char>>,
    pub family: Seq<char>,
    pub semantic_fingerprint: Seq<char>,
    pub raw_bulletin_blake3: Seq<char>,
    pub archive_id: Seq<char>,
    pub segment_count: int,
    pub segments: Seq<SegmentSummaryView>,
    pub raw_bulletin: Seq<char>,
}

impl DeepView for MessageSummary {
    type V = MessageSummaryView;

    open spec fn deep_view(&self) -> MessageSummaryView {
        MessageSummaryView {
            byte_range: self.byte_range,
            wrapper: self.wrapper.deep_view(),
            frame_kind: self.frame_kind@,
            sequence_number: self.sequence_number,
            heading: self.heading@,
            ttaaii: self.ttaaii@,
            cccc: self.cccc@,
            office: self.office@,
            yygggg: self.yygggg@,
            bbb: self.bbb.deep_view(),
            awips_id: self.awips_id.deep_view(),
            family: self.family@,
            semantic_fingerprint: self.semantic_fingerprint@,
            raw_bulletin_blake3: self.raw_bulletin_blake3@,
            archive_id: self.archive_id@,
            segment_count: self.segment_count as int,
            segments: self.segments.deep_view(),
            raw_bulletin: self.raw_bulletin@,
        }
    }
}

pub open spec fn segment_summaries(
    segments: Seq<ProductSegmentView>,
    office: Seq<char>,
) -> Seq<SegmentSummaryView> {
    Seq::new(segments.len(), |i: int| segment_summary(segments[i], office))
}

/// The summary of a message.
pub open spec fn message_summary(
    content: NwwsContentView,
    wrapper: Option<WrapperSummaryView>,
    byte_range: Option<ByteRange>,
) -> MessageSummaryView {
    let bulletin = content.bulletin;
    MessageSummaryView {
        byte_range,
        wrapper,
        frame_kind: bulletin.frame_kind.spec_label(),
        sequence_number: bulletin.sequence_number,
        heading: header::heading_text(bulletin.heading),
        ttaaii: bulletin.heading.ttaaii,
        cccc: bulletin.heading.cccc,
        office: bulletin.heading.cccc,
        yygggg: bulletin.heading.yygggg,
        bbb: bulletin.heading.bbb,
        awips_id: bulletin.awips_id,
        family: families::family_text(content.product.family),
        semantic_fingerprint: digest::fingerprint(bulletin),
        raw_bulletin_blake3: digest::blake3_hex(digest::utf8(bulletin.bulletin)),
        archive_id: digest::digest_text(digest::utf8(archive::archived_text(bulletin.bulletin))),
        segment_count: content.product.segments.len() as int,
        segments: segment_summaries(content.product.segments, bulletin.heading.cccc),
        raw_bulletin: bulletin.bulletin,
    }
}

fn summarize_segments(segments: &Vec<ProductSegment>, office: &str) -> (r: Vec<SegmentSummary>)
    ensures
        r.deep_view() == segment_summaries(segments.deep_view(), office@),
{
    let ghost all = segments.deep_view();
    let mut out: Vec<SegmentSummary> = Vec::new();
    let mut i: usize = 0;
    while i < segments.len()
        invariant
            i <= segments@.len(),
            all == segments.deep_view(),
            out@.len() == i,
            forall|k: int|
                0 <= k < i ==> (#[trigger] out@[k]).deep_view() == segment_summary(all[k], office@),
        decreases segments.len() - i,
    {
        out.push(SegmentSummary::from_segment(&segments[i], office));
        i += 1;
    }
    assert(out.deep_view() =~= segment_summaries(all, office@));
    out
}

impl MessageSummary {
    /// Summarizes a message.
    pub fn from_content(
        content: &NwwsContent,
        wrapper: Option<WrapperSummary>,
        byte_range: Option<ByteRange>,
    ) -> (r: MessageSummary)
        ensures
            r.deep_view() == message_summary(content.deep_view(), wrapper.deep_view(), byte_range),
    {
        let bulletin = &content.bulletin;
        let segments = summarize_segments(&content.product.segments, bulletin.heading.cccc());
        assert(segments.deep_view().len() == segments@.len());
        assert(content.product.segments.deep_view().len() == content.product.segments@.len());
        let awips_id: Option<String> = match &bulletin.awips_id {
            Some(id) => Some(id.raw().to_owned()),
            None => None,
        };
        let archived = lines::with_line_feeds(bulletin.bulletin.as_str());
        MessageSummary {
            byte_range,
            wrapper,
            frame_kind: bulletin.frame_kind.label(),
            sequence_number: bulletin.sequence_number,
            heading: bulletin.heading.canonical(),
            ttaaii: bulletin.heading.ttaaii().to_owned(),
            cccc: bulletin.heading.cccc().to_owned(),
            office: bulletin.heading.cccc().to_owned(),
            yygggg: bulletin.heading.yygggg().to_owned(),
            bbb: bulletin.heading.bbb(),
            awips_id,
            family: families::family_name(content.product.family),
            semantic_fingerprint: digest::semantic_fingerprint(content),
            raw_bulletin_blake3: digest::raw_bulletin_blake3(content),
            archive_id: digest::archive_digest(archived.as_str().as_bytes()),
            segment_count: segments.len(),
            segments,
            raw_bulletin: bulletin.bulletin.clone(),
        }
    }
}

} // verus!
