//! What the tags of a warning segment amount to, and its geometry.

use vstd::prelude::*;

use crate::geo;
use crate::geo::{GeoPoint, LatLonBlock, LatLonBlockView, TimeMotLoc, TimeMotLocView};
use crate::number;
use crate::product::{ProductSegment, ProductSegmentView};
use crate::tags;
use crate::tags::{
    SegmentTag, SegmentTagView, WarningActionTag, WarningActionTagView, WarningTextTag,
    WarningTextTagKind, WarningTextTagView,
};
use crate::text;
use crate::vtec::{Pvtec, PvtecView};

verus! {

// ---------------------------------------------------------------------------
// Tags
// ---------------------------------------------------------------------------

/// A wind speed: miles per hour, or the decimal literal of a gust that is
/// still to be rounded.
#[derive(Debug, Clone, PartialEq, Eq)]
pub enum WindSpeed {
    Mph(u16),
    Gust(String),
}

pub enum WindSpeedView {
    Mph(u16),
    Gust(Seq<char>),
}

impl DeepView for WindSpeed {
    type V = WindSpeedView;

    open spec fn deep_view(&self) -> WindSpeedView {
        match self {
            WindSpeed::Mph(v) => WindSpeedView::Mph(*v),
            WindSpeed::Gust(s) => WindSpeedView::Gust(s@),
        }
    }
}

/// The tags of a warning. Hail sizes are decimal literals.
#[derive(Debug, Clone, PartialEq, Eq)]
pub struct WarningTags {
    pub tornado: Option<String>,
    pub flash_flood_observed: bool,
    pub flash_flood_emergency: bool,
    pub hail_inches: Option<String>,
    pub wind_mph: Option<WindSpeed>,
    pub damage_threat: Option<String>,
    pub text_tags: Vec<WarningTextTag>,
    pub actions: Vec<WarningActionTag>,
}

pub struct WarningTagsView {
    pub tornado: Option<Seq<char>>,
    pub flash_flood_observed: bool,
    pub flash_flood_emergency: bool,
    pub hail_inches: Option<Seq<char>>,
    pub wind_mph: Option<WindSpeedView>,
    pub damage_threat: Option<Seq<char>>,
    pub text_tags: Seq<WarningTextTagView>,
    pub actions: Seq<WarningActionTagView>,
}

impl DeepView for WarningTags {
    type V = WarningTagsView;

    open spec fn deep_view(&self) -> WarningTagsView {
        WarningTagsView {
            tornado: self.tornado.deep_view(),
            flash_flood_observed: self.flash_flood_observed,
            flash_flood_emergency: self.flash_flood_emergency,
            hail_inches: self.hail_inches.deep_view(),
            wind_mph: self.wind_mph.deep_view(),
            damage_threat: self.damage_threat.deep_view(),
            text_tags: self.text_tags.deep_view(),
            actions: self.actions.deep_view(),
        }
    }
}

/// The values that tags set, a later tag over an earlier one.
pub struct TagValues {
    pub tornado: Option<Seq<char>>,
    pub flash_flood_observed: bool,
    pub flash_flood_emergency: bool,
    pub hail: Option<Seq<char>>,
    pub wind: Option<WindSpeedView>,
    pub damage: Option<Seq<char>>,
}

pub open spec fn no_values() -> TagValues {
    TagValues {
        tornado: None,
        flash_flood_observed: false,
        flash_flood_emergency: false,
        hail: None,
        wind: None,
        damage: None,
    }
}

/// The values after one text tag.
pub open spec fn with_text_tag(v: TagValues, tag: WarningTextTagView) -> TagValues {
    match tag.kind {
        WarningTextTagKind::Tornado => TagValues { tornado: Some(tag.normalized_value), ..v },
        WarningTextTagKind::MaxHailSize => match tag.numeric_value {
            Some(n) => TagValues { hail: Some(n), ..v },
            None => v,
        },
        WarningTextTagKind::MaxWindGust => match tag.numeric_value {
            Some(n) => TagValues { wind: Some(WindSpeedView::Gust(n)), ..v },
            None => v,
        },
        WarningTextTagKind::FlashFloodDamageThreat
        | WarningTextTagKind::TstmDamageThreat
        | WarningTextTagKind::TornadoDamageThreat => TagValues {
            damage: Some(tag.normalized_value),
            ..v
        },
        _ => v,
    }
}

/// The values after several text tags.
pub open spec fn with_text_tags(v: TagValues, tags: Seq<WarningTextTagView>) -> TagValues
    decreases tags.len(),
{
    if tags.len() == 0 {
        v
    } else {
        with_text_tag(with_text_tags(v, tags.drop_last()), tags.last())
    }
}

/// The values after one segment tag.
pub open spec fn with_segment_tag(v: TagValues, tag: SegmentTagView) -> TagValues {
    match tag {
        SegmentTagView::TornadoObserved => TagValues { tornado: Some("OBSERVED"@), ..v },
        SegmentTagView::TornadoRadarIndicated => TagValues {
            tornado: Some("RADAR INDICATED"@),
            ..v
        },
        SegmentTagView::TornadoPossible => TagValues { tornado: Some("POSSIBLE"@), ..v },
        SegmentTagView::FlashFloodObserved => TagValues { flash_flood_observed: true, ..v },
        SegmentTagView::FlashFloodEmergency => TagValues { flash_flood_emergency: true, ..v },
        SegmentTagView::HailInches(n) => TagValues { hail: Some(n), ..v },
        SegmentTagView::WindMph(n) => TagValues { wind: Some(WindSpeedView::Mph(n)), ..v },
        SegmentTagView::DamageThreat(s) => TagValues { damage: Some(s), ..v },
    }
}

/// The values after several segment tags.
pub open spec fn with_segment_tags(v: TagValues, tags: Seq<SegmentTagView>) -> TagValues
    decreases tags.len(),
{
    if tags.len() == 0 {
        v
    } else {
        with_segment_tag(with_segment_tags(v, tags.drop_last()), tags.last())
    }
}

/// Whether one of the VTEC lines is of a flash flood.
pub open spec fn is_flash_flood(pvtec: Seq<PvtecView>) -> bool {
    exists|i: int| 0 <= i < pvtec.len() && (#[trigger] pvtec[i]).phenomenon.code() == ('F', 'F')
}

/// A flash flood emergency is declared in words, or by a catastrophic damage
/// threat in a flash flood product.
pub open spec fn is_emergency(v: TagValues, flash_flood: bool) -> bool {
    v.flash_flood_emergency || (flash_flood && v.damage == Some("CATASTROPHIC"@))
}

/// The damage threat of a product; flash flood products have none.
pub open spec fn reported_damage(v: TagValues, flash_flood: bool) -> Option<Seq<char>> {
    if flash_flood {
        None
    } else {
        v.damage
    }
}

/// The tags of a segment.
pub open spec fn warning_tags_of(segment: ProductSegmentView) -> WarningTagsView {
    let text_tags = tags::text_tags(segment.body_lines);
    let v = with_segment_tags(with_text_tags(no_values(), text_tags), segment.tags);
    let flash_flood = is_flash_flood(segment.pvtec);
    WarningTagsView {
        tornado: v.tornado,
        flash_flood_observed: v.flash_flood_observed,
        flash_flood_emergency: is_emergency(v, flash_flood),
        hail_inches: v.hail,
        wind_mph: v.wind,
        damage_threat: reported_damage(v, flash_flood),
        text_tags,
        actions: tags::action_tags(segment.pvtec),
    }
}

/// The values that tags set so far.
pub struct TagState {
    pub tornado: Option<String>,
    pub flash_flood_observed: bool,
    pub flash_flood_emergency: bool,
    pub hail: Option<String>,
    pub wind: Option<WindSpeed>,
    pub damage: Option<String>,
}

impl View for TagState {
    type V = TagValues;

    open spec fn view(&self) -> TagValues {
        TagValues {
            tornado: self.tornado.deep_view(),
            flash_flood_observed: self.flash_flood_observed,
            flash_flood_emergency: self.flash_flood_emergency,
            hail: self.hail.deep_view(),
            wind: self.wind.deep_view(),
            damage: self.damage.deep_view(),
        }
    }
}

impl TagState {
    pub fn new() -> (r: TagState)
        ensures
            r@ == no_values(),
    {
        TagState {
            tornado: None,
            flash_flood_observed: false,
            flash_flood_emergency: false,
            hail: None,
            wind: None,
            damage: None,
        }
    }

    fn text_tag(&mut self, tag: &WarningTextTag)
        ensures
            final(self)@ == with_text_tag(old(self)@, tag.deep_view()),
    {
        match tag.kind {
            WarningTextTagKind::Tornado => {
                self.tornado = Some(tag.normalized_value.clone());
            },
            WarningTextTagKind::MaxHailSize => {
                if let Some(n) = &tag.numeric_value {
                    self.hail = Some(n.clone());
                }
            },
            WarningTextTagKind::MaxWindGust => {
                if let Some(n) = &tag.numeric_value {
                    self.wind = Some(WindSpeed::Gust(n.clone()));
                }
            },
            WarningTextTagKind::FlashFloodDamageThreat
            | WarningTextTagKind::TstmDamageThreat
            | WarningTextTagKind::TornadoDamageThreat => {
                self.damage = Some(tag.normalized_value.clone());
            },
            WarningTextTagKind::HailThreat
            | WarningTextTagKind::WindThreat
            | WarningTextTagKind::Threat
            | WarningTextTagKind::Source
            | WarningTextTagKind::Impact => {},
        }
    }

    fn segment_tag(&mut self, tag: &SegmentTag)
        ensures
            final(self)@ == with_segment_tag(old(self)@, tag.deep_view()),
    {
        match tag {
            SegmentTag::TornadoObserved => {
                self.tornado = Some("OBSERVED".to_owned());
            },
            SegmentTag::TornadoRadarIndicated => {
                self.tornado = Some("RADAR INDICATED".to_owned());
            },
            SegmentTag::TornadoPossible => {
                self.tornado = Some("POSSIBLE".to_owned());
            },
            SegmentTag::FlashFloodObserved => {
                self.flash_flood_observed = true;
            },
            SegmentTag::FlashFloodEmergency => {
                self.flash_flood_emergency = true;
            },
            SegmentTag::HailInches(n) => {
                self.hail = Some(n.clone());
            },
            SegmentTag::WindMph(n) => {
                self.wind = Some(WindSpeed::Mph(*n));
            },
            SegmentTag::DamageThreat(s) => {
                let word: &'static str = *s;
                self.damage = Some(word.to_owned());
            },
        }
    }

    fn text_tags(&mut self, tags: &Vec<WarningTextTag>)
        ensures
            final(self)@ == with_text_tags(old(self)@, tags.deep_view()),
    {
        let ghost start = self@;
        let ghost all = tags.deep_view();
        let mut i: usize = 0;
        while i < tags.len()
            invariant
                i <= tags@.len(),
                all == tags.deep_view(),
                self@ == with_text_tags(start, all.take(i as int)),
            decreases tags.len() - i,
        {
            assert(all.take(i + 1).drop_last() =~= all.take(i as int));
            self.text_tag(&tags[i]);
            i += 1;
        }
        assert(all.take(i as int) =~= all);
    }

    /// Applies the tags of a segment in order.
    pub fn segment_tags(&mut self, tags: &Vec<SegmentTag>)
        ensures
            final(self)@ == with_segment_tags(old(self)@, tags.deep_view()),
    {
        let ghost start = self@;
        let ghost all = tags.deep_view();
        let mut i: usize = 0;
        while i < tags.len()
            invariant
                i <= tags@.len(),
                all == tags.deep_view(),
                self@ == with_segment_tags(start, all.take(i as int)),
            decreases tags.len() - i,
        {
            assert(all.take(i + 1).drop_last() =~= all.take(i as int));
            self.segment_tag(&tags[i]);
            i += 1;
        }
        assert(all.take(i as int) =~= all);
    }

    /// Whether the values make a flash flood emergency.
    pub fn emergency(&self, flash_flood: bool) -> (r: bool)
        ensures
            r == is_emergency(self@, flash_flood),
    {
        if self.flash_flood_emergency {
            return true;
        }
        if !flash_flood {
            return false;
        }
        match &self.damage {
            Some(s) => {
                let c = text::to_chars(s.as_str());
                text::is_str(c.as_slice(), "CATASTROPHIC")
            },
            None => false,
        }
    }
}

/// Whether one of the VTEC lines is of a flash flood.
pub fn flash_flood_product(pvtec: &Vec<Pvtec>) -> (r: bool)
    ensures
        r == is_flash_flood(pvtec.deep_view()),
{
    let ghost all = pvtec.deep_view();
    let mut i: usize = 0;
    while i < pvtec.len()
        invariant
            i <= pvtec@.len(),
            all == pvtec.deep_view(),
            forall|k: int| 0 <= k < i ==> (#[trigger] all[k]).phenomenon.code() != ('F', 'F'),
        decreases pvtec.len() - i,
    {
        let (a, b) = pvtec[i].phenomenon().letters();
        assert(all[i as int].phenomenon.code() == (a, b));
        if a == 'F' && b == 'F' {
            return true;
        }
        i += 1;
    }
    false
}

impl WarningTags {
    /// The tags of a segment.
    pub fn from_segment(segment: &ProductSegment) -> (r: WarningTags)
        ensures
            r.deep_view() == warning_tags_of(segment.deep_view()),
    {
        let parsed = segment.warning_tags();
        let mut state = TagState::new();
        state.text_tags(&parsed.text_tags);
        state.segment_tags(&segment.tags.tags);
        let flash_flood = flash_flood_product(&segment.pvtec);
        let flash_flood_emergency = state.emergency(flash_flood);
        let damage_threat = if flash_flood {
            None
        } else {
            state.damage
        };
        WarningTags {
            tornado: state.tornado,
            flash_flood_observed: state.flash_flood_observed,
            flash_flood_emergency,
            hail_inches: state.hail,
            wind_mph: state.wind,
            damage_threat,
            text_tags: parsed.text_tags,
            actions: parsed.actions,
        }
    }
}

// ---------------------------------------------------------------------------
// Geometry
// ---------------------------------------------------------------------------

/// A point in hundredths of a degree, north and east positive.
#[derive(Debug, Clone, Copy, PartialEq, Eq, Structural)]
pub struct WarningPoint {
    pub lat: i32,
    pub lon: i32,
}

/// A longitude as written, made a signed one: below forty degrees a leading
/// hundred was left out, and all but Guam lie west.
pub open spec fn normalized_longitude(raw: u32, office: Seq<char>) -> i32 {
    let full = if raw < 4000 {
        raw + 10000
    } else {
        raw as int
    };
    if office == "PGUM"@ {
        full as i32
    } else {
        (-full) as i32
    }
}

pub open spec fn point_of(p: GeoPoint, office: Seq<char>) -> WarningPoint {
    WarningPoint { lat: p.latitude as i32, lon: normalized_longitude(p.longitude, office) }
}

pub open spec fn points_of(points: Seq<GeoPoint>, office: Seq<char>) -> Seq<WarningPoint> {
    Seq::new(points.len(), |i: int| point_of(points[i], office))
}

impl WarningPoint {
    pub fn from_geo_point(p: GeoPoint, office: &str) -> (r: WarningPoint)
        requires
            geo::fits(p),
        ensures
            r == point_of(p, office@),
    {
        let full: i32 = if p.longitude < 4000 {
            p.longitude as i32 + 10000
        } else {
            p.longitude as i32
        };
        let chars = text::to_chars(office);
        let lon: i32 = if text::is_str(chars.as_slice(), "PGUM") {
            full
        } else {
            -full
        };
        WarningPoint { lat: p.latitude as i32, lon }
    }
}

/// The outline of a warning.
#[derive(Debug, Clone, PartialEq, Eq)]
pub struct WarningPolygon {
    pub raw: String,
    pub points: Vec<WarningPoint>,
}

pub struct WarningPolygonView {
    pub raw: Seq<char>,
    pub points: Seq<WarningPoint>,
}

impl DeepView for WarningPolygon {
    type V = WarningPolygonView;

    open spec fn deep_view(&self) -> WarningPolygonView {
        WarningPolygonView { raw: self.raw@, points: self.points@ }
    }
}

/// The motion of a storm.
#[derive(Debug, Clone, PartialEq, Eq)]
pub struct WarningTimeMotion {
    pub raw: String,
    pub time: String,
    pub direction_degrees: u16,
    pub speed_knots: u8,
    pub locations: Vec<WarningPoint>,
}

pub struct WarningTimeMotionView {
    pub raw: Seq<char>,
    pub time: Seq<char>,
    pub direction_degrees: u16,
    pub speed_knots: u8,
    pub locations: Seq<WarningPoint>,
}

impl DeepView for WarningTimeMotion {
    type V = WarningTimeMotionView;

    open spec fn deep_view(&self) -> WarningTimeMotionView {
        WarningTimeMotionView {
            raw: self.raw@,
            time: self.time@,
            direction_degrees: self.direction_degrees,
            speed_knots: self.speed_knots,
            locations: self.locations@,
        }
    }
}

pub open spec fn polygon_of(block: Option<LatLonBlockView>, office: Seq<char>) -> Option<
    WarningPolygonView,
> {
    match block {
        Some(b) => Some(
            WarningPolygonView { raw: b.raw, points: points_of(b.points, office) },
        ),
        None => None,
    }
}

/// The time of a motion line, `hhmmZ`.
pub open spec fn motion_clock(hour: u8, minute: u8) -> Seq<char> {
    number::padded(hour as nat, 2) + number::padded(minute as nat, 2) + seq!['Z']
}

pub open spec fn motion_of(line: Option<TimeMotLocView>, office: Seq<char>) -> Option<
    WarningTimeMotionView,
> {
    match line {
        Some(m) => Some(
            WarningTimeMotionView {
                raw: m.raw,
                time: motion_clock(m.hour, m.minute),
                direction_degrees: m.direction_degrees,
                speed_knots: m.speed_knots,
                locations: points_of(m.locations, office),
            },
        ),
        None => None,
    }
}

/// Makes the points of an office signed.
pub fn signed_points(points: &Vec<GeoPoint>, office: &str) -> (r: Vec<WarningPoint>)
    requires
        geo::all_fit(points@),
    ensures
        r@ == points_of(points@, office@),
{
    let mut out: Vec<WarningPoint> = Vec::new();
    let mut i: usize = 0;
    while i < points.len()
        invariant
            i <= points@.len(),
            geo::all_fit(points@),
            out@ == points_of(points@, office@).take(i as int),
        decreases points.len() - i,
    {
        out.push(WarningPoint::from_geo_point(points[i], office));
        i += 1;
    }
    assert(points_of(points@, office@).take(i as int) =~= points_of(points@, office@));
    out
}

/// Writes the time of a motion line.
pub fn motion_time_text(hour: u8, minute: u8) -> (r: String)
    ensures
        r@ == motion_clock(hour, minute),
{
    let mut v = number::to_padded(hour as u64, 2);
    let m = number::to_padded(minute as u64, 2);
    text::push_all(&mut v, m.as_slice());
    v.push('Z');
    assert(v@ =~= motion_clock(hour, minute));
    text::to_text(v.as_slice())
}

/// The outline of a segment.
pub fn polygon_from_block(block: &Option<LatLonBlock>, office: &str) -> (r: Option<WarningPolygon>)
    ensures
        r.deep_view() == polygon_of(block.deep_view(), office@),
{
    match block {
        Some(b) => Some(
            WarningPolygon {
                raw: b.raw().to_owned(),
                points: signed_points(b.points(), office),
            },
        ),
        None => None,
    }
}

/// The motion of a segment.
pub fn time_motion_from_line(line: &Option<TimeMotLoc>, office: &str) -> (r: Option<
    WarningTimeMotion,
>)
    ensures
        r.deep_view() == motion_of(line.deep_view(), office@),
{
    match line {
        Some(m) => Some(
            WarningTimeMotion {
                raw: m.raw().to_owned(),
                time: motion_time_text(m.hour(), m.minute()),
                direction_degrees: m.direction_degrees(),
                speed_knots: m.speed_knots(),
                locations: signed_points(m.locations(), office),
            },
        ),
        None => None,
    }
}

} // verus!
