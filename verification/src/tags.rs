//! Warning tags in segment text.

use vstd::prelude::*;

use crate::number;
use crate::text;
use crate::vtec::{Pvtec, PvtecView, VtecAction};

verus! {

// ---------------------------------------------------------------------------
// Segment tags
// ---------------------------------------------------------------------------

/// A tag found by its wording. A hail size is kept as the decimal literal it
/// is written with.
#[derive(Debug, Clone, PartialEq, Eq)]
pub enum SegmentTag {
    TornadoObserved,
    TornadoRadarIndicated,
    TornadoPossible,
    FlashFloodObserved,
    FlashFloodEmergency,
    HailInches(String),
    WindMph(u16),
    DamageThreat(&'static str),
}

/// What a segment tag holds.
pub enum SegmentTagView {
    TornadoObserved,
    TornadoRadarIndicated,
    TornadoPossible,
    FlashFloodObserved,
    FlashFloodEmergency,
    HailInches(Seq<char>),
    WindMph(u16),
    DamageThreat(Seq<char>),
}

impl DeepView for SegmentTag {
    type V = SegmentTagView;

    open spec fn deep_view(&self) -> SegmentTagView {
        match self {
            SegmentTag::TornadoObserved => SegmentTagView::TornadoObserved,
            SegmentTag::TornadoRadarIndicated => SegmentTagView::TornadoRadarIndicated,
            SegmentTag::TornadoPossible => SegmentTagView::TornadoPossible,
            SegmentTag::FlashFloodObserved => SegmentTagView::FlashFloodObserved,
            SegmentTag::FlashFloodEmergency => SegmentTagView::FlashFloodEmergency,
            SegmentTag::HailInches(s) => SegmentTagView::HailInches(s@),
            SegmentTag::WindMph(v) => SegmentTagView::WindMph(*v),
            SegmentTag::DamageThreat(s) => SegmentTagView::DamageThreat(s@),
        }
    }
}

/// The tags of a segment in order of appearance.
#[derive(Debug, Clone, PartialEq, Eq)]
pub struct SegmentTags {
    pub tags: Vec<SegmentTag>,
}

impl DeepView for SegmentTags {
    type V = Seq<SegmentTagView>;

    open spec fn deep_view(&self) -> Seq<SegmentTagView> {
        self.tags.deep_view()
    }
}

/// The text between the first `prefix` and the next `suffix`, without
/// surrounding white space and leading `<` and `>`.
pub open spec fn tagged(line: Seq<char>, prefix: Seq<char>, suffix: Seq<char>) -> Option<Seq<char>> {
    match text::find(line, prefix) {
        None => None,
        Some(k) => {
            let tail = line.skip(k + prefix.len());
            match text::find(tail, suffix) {
                None => None,
                Some(end) => Some(text::drop_leading(text::trim(tail.take(end)), "<>"@)),
            }
        },
    }
}

/// The decimal literal between `prefix` and `suffix`.
pub open spec fn numeric_tag(line: Seq<char>, prefix: Seq<char>, suffix: Seq<char>) -> Option<
    Seq<char>,
> {
    match tagged(line, prefix, suffix) {
        Some(value) => if number::float_literal(value) {
            Some(value)
        } else {
            None
        },
        None => None,
    }
}

/// The 16-bit number between `prefix` and `suffix`.
pub open spec fn integer_tag(line: Seq<char>, prefix: Seq<char>, suffix: Seq<char>) -> Option<u16> {
    match tagged(line, prefix, suffix) {
        Some(value) => match number::unsigned(value, 65535) {
            Some(v) => Some(v as u16),
            None => None,
        },
        None => None,
    }
}

/// The first of two options that holds a value.
pub open spec fn or_else<T>(a: Option<T>, b: Option<T>) -> Option<T> {
    match a {
        Some(_) => a,
        None => b,
    }
}

/// `done`, followed by `tag` where `condition` holds.
pub open spec fn when(done: Seq<SegmentTagView>, condition: bool, tag: SegmentTagView) -> Seq<
    SegmentTagView,
> {
    if condition {
        done.push(tag)
    } else {
        done
    }
}

/// `done`, followed by a damage threat where the line speaks of one.
pub open spec fn damage(done: Seq<SegmentTagView>, upper: Seq<char>, word: Seq<char>) -> Seq<
    SegmentTagView,
> {
    when(
        done,
        text::contains(upper, word) && text::contains(upper, "DAMAGE THREAT"@),
        SegmentTagView::DamageThreat(word),
    )
}

/// `done`, followed by the tornado and flash flood tags of a line.
pub open spec fn hazard_tags(done: Seq<SegmentTagView>, upper: Seq<char>) -> Seq<SegmentTagView> {
    let a = when(
        done,
        text::contains(upper, "TORNADO...OBSERVED"@),
        SegmentTagView::TornadoObserved,
    );
    let b = when(
        a,
        text::contains(upper, "TORNADO...RADAR INDICATED"@),
        SegmentTagView::TornadoRadarIndicated,
    );
    let c = when(
        b,
        text::contains(upper, "TORNADO...POSSIBLE"@),
        SegmentTagView::TornadoPossible,
    );
    let d = when(
        c,
        text::contains(upper, "FLASH FLOOD...OBSERVED"@),
        SegmentTagView::FlashFloodObserved,
    );
    when(
        d,
        text::starts_with(text::trim_start(upper), "FLASH FLOOD EMERGENCY"@),
        SegmentTagView::FlashFloodEmergency,
    )
}

/// `done`, followed by the hail and wind tags of a line.
pub open spec fn size_tags(done: Seq<SegmentTagView>, upper: Seq<char>) -> Seq<SegmentTagView> {
    let hail = or_else(
        numeric_tag(upper, "HAIL..."@, "IN"@),
        numeric_tag(upper, "MAX HAIL SIZE..."@, "IN"@),
    );
    let wind = or_else(
        integer_tag(upper, "WIND..."@, "MPH"@),
        integer_tag(upper, "MAX WIND GUST..."@, "MPH"@),
    );
    let a = match hail {
        Some(value) => done.push(SegmentTagView::HailInches(value)),
        None => done,
    };
    match wind {
        Some(value) => a.push(SegmentTagView::WindMph(value)),
        None => a,
    }
}

/// `done`, followed by the damage threat tags of a line.
pub open spec fn threat_tags(done: Seq<SegmentTagView>, upper: Seq<char>) -> Seq<SegmentTagView> {
    let a = damage(done, upper, "CONSIDERABLE"@);
    let b = damage(a, upper, "SIGNIFICANT"@);
    let c = damage(b, upper, "DESTRUCTIVE"@);
    let d = damage(c, upper, "CATASTROPHIC"@);
    let e = when(
        d,
        text::contains(upper, "SNOW SQUALL IMPACT...SIGNIFICANT"@),
        SegmentTagView::DamageThreat("SIGNIFICANT"@),
    );
    when(
        e,
        text::contains(upper, "SNOW SQUALL IMPACT...GENERAL"@),
        SegmentTagView::DamageThreat("GENERAL"@),
    )
}

/// `done`, followed by the tags of one line.
pub open spec fn line_tags(done: Seq<SegmentTagView>, line: Seq<char>) -> Seq<SegmentTagView> {
    let upper = text::upper(text::trim(line));
    threat_tags(size_tags(hazard_tags(done, upper), upper), upper)
}

/// The tags of several lines in order.
pub open spec fn segment_tags(lines: Seq<Seq<char>>) -> Seq<SegmentTagView>
    decreases lines.len(),
{
    if lines.len() == 0 {
        Seq::empty()
    } else {
        line_tags(segment_tags(lines.drop_last()), lines.last())
    }
}

fn find_tagged<'a>(line: &'a [char], prefix: &str, suffix: &str) -> (r: Option<&'a [char]>)
    ensures
        match r {
            Some(v) => tagged(line@, prefix@, suffix@) == Some(v@),
            None => tagged(line@, prefix@, suffix@) is None,
        },
{
    match text::split_once_str(line, prefix) {
        None => None,
        Some((_, tail)) => match text::split_once_str(tail, suffix) {
            None => None,
            Some((value, _)) => {
                let marks = text::to_chars("<>");
                Some(text::drop_leading_of(text::trim_of(value), marks.as_slice()))
            },
        },
    }
}

fn parse_numeric_tag(line: &[char], prefix: &str, suffix: &str) -> (r: Option<String>)
    ensures
        r.deep_view() == numeric_tag(line@, prefix@, suffix@),
{
    match find_tagged(line, prefix, suffix) {
        Some(value) => if number::is_float_literal(value) {
            Some(text::to_text(value))
        } else {
            None
        },
        None => None,
    }
}

fn parse_integer_tag(line: &[char], prefix: &str, suffix: &str) -> (r: Option<u16>)
    ensures
        r == integer_tag(line@, prefix@, suffix@),
{
    match find_tagged(line, prefix, suffix) {
        Some(value) => match number::read_unsigned(value, 65535) {
            Some(v) => Some(v as u16),
            None => None,
        },
        None => None,
    }
}

fn push_when(tags: &mut Vec<SegmentTag>, condition: bool, tag: SegmentTag)
    ensures
        final(tags).deep_view() == when(old(tags).deep_view(), condition, tag.deep_view()),
{
    let ghost before = tags.deep_view();
    if condition {
        tags.push(tag);
        assert(tags.deep_view() =~= before.push(tag.deep_view()));
    }
}

fn push_damage(tags: &mut Vec<SegmentTag>, upper: &[char], word: &'static str)
    ensures
        final(tags).deep_view() == damage(old(tags).deep_view(), upper@, word@),
{
    let found: bool = text::contains_str(upper, word) && text::contains_str(upper, "DAMAGE THREAT");
    push_when(tags, found, SegmentTag::DamageThreat(word));
}

fn push_hazard_tags(tags: &mut Vec<SegmentTag>, upper: &[char])
    ensures
        final(tags).deep_view() == hazard_tags(old(tags).deep_view(), upper@),
{
    push_when(tags, text::contains_str(upper, "TORNADO...OBSERVED"), SegmentTag::TornadoObserved);
    push_when(
        tags,
        text::contains_str(upper, "TORNADO...RADAR INDICATED"),
        SegmentTag::TornadoRadarIndicated,
    );
    push_when(tags, text::contains_str(upper, "TORNADO...POSSIBLE"), SegmentTag::TornadoPossible);
    push_when(
        tags,
        text::contains_str(upper, "FLASH FLOOD...OBSERVED"),
        SegmentTag::FlashFloodObserved,
    );
    push_when(
        tags,
        text::begins_str(text::trim_start_of(upper), "FLASH FLOOD EMERGENCY"),
        SegmentTag::FlashFloodEmergency,
    );
}

fn push_size_tags(tags: &mut Vec<SegmentTag>, upper: &[char])
    ensures
        final(tags).deep_view() == size_tags(old(tags).deep_view(), upper@),
{
    let hail = match parse_numeric_tag(upper, "HAIL...", "IN") {
        Some(value) => Some(value),
        None => parse_numeric_tag(upper, "MAX HAIL SIZE...", "IN"),
    };
    if let Some(value) = hail {
        push_when(tags, true, SegmentTag::HailInches(value));
    }
    let wind = match parse_integer_tag(upper, "WIND...", "MPH") {
        Some(value) => Some(value),
        None => parse_integer_tag(upper, "MAX WIND GUST...", "MPH"),
    };
    if let Some(value) = wind {
        push_when(tags, true, SegmentTag::WindMph(value));
    }
}

fn push_threat_tags(tags: &mut Vec<SegmentTag>, upper: &[char])
    ensures
        final(tags).deep_view() == threat_tags(old(tags).deep_view(), upper@),
{
    push_damage(tags, upper, "CONSIDERABLE");
    push_damage(tags, upper, "SIGNIFICANT");
    push_damage(tags, upper, "DESTRUCTIVE");
    push_damage(tags, upper, "CATASTROPHIC");
    push_when(
        tags,
        text::contains_str(upper, "SNOW SQUALL IMPACT...SIGNIFICANT"),
        SegmentTag::DamageThreat("SIGNIFICANT"),
    );
    push_when(
        tags,
        text::contains_str(upper, "SNOW SQUALL IMPACT...GENERAL"),
        SegmentTag::DamageThreat("GENERAL"),
    );
}

fn push_line_tags(tags: &mut Vec<SegmentTag>, line: &[char])
    ensures
        final(tags).deep_view() == line_tags(old(tags).deep_view(), line@),
{
    let upper = text::to_upper(text::trim_of(line));
    push_hazard_tags(tags, upper.as_slice());
    push_size_tags(tags, upper.as_slice());
    push_threat_tags(tags, upper.as_slice());
}

impl SegmentTags {
    /// Collects the tags of the lines.
    pub fn extract(lines: &Vec<String>) -> (r: SegmentTags)
        ensures
            r.deep_view() == segment_tags(lines.deep_view()),
    {
        let mut tags: Vec<SegmentTag> = Vec::new();
        let mut i: usize = 0;
        let ghost all = lines.deep_view();
        assert(tags.deep_view() =~= segment_tags(all.take(0)));
        while i < lines.len()
            invariant
                i <= lines@.len(),
                all == lines.deep_view(),
                tags.deep_view() == segment_tags(all.take(i as int)),
            decreases lines.len() - i,
        {
            let line = text::to_chars(lines[i].as_str());
            push_line_tags(&mut tags, line.as_slice());
            assert(all.take(i + 1).drop_last() =~= all.take(i as int));
            i += 1;
        }
        assert(all.take(i as int) =~= all);
        SegmentTags { tags }
    }
}

// ---------------------------------------------------------------------------
// Structured text tags
// ---------------------------------------------------------------------------

/// The kinds of `NAME...VALUE` lines.
#[derive(Debug, Clone, Copy, PartialEq, Eq, Structural)]
pub enum WarningTextTagKind {
    Tornado,
    HailThreat,
    MaxHailSize,
    WindThreat,
    MaxWindGust,
    FlashFloodDamageThreat,
    TstmDamageThreat,
    TornadoDamageThreat,
    Threat,
    Source,
    Impact,
}

/// The kind with the given normalized name.
pub open spec fn text_tag_kind(name: Seq<char>) -> Option<WarningTextTagKind> {
    if name == "TORNADO"@ {
        Some(WarningTextTagKind::Tornado)
    } else if name == "HAIL THREAT"@ {
        Some(WarningTextTagKind::HailThreat)
    } else if name == "MAX HAIL SIZE"@ {
        Some(WarningTextTagKind::MaxHailSize)
    } else if name == "WIND THREAT"@ {
        Some(WarningTextTagKind::WindThreat)
    } else if name == "MAX WIND GUST"@ {
        Some(WarningTextTagKind::MaxWindGust)
    } else if name == "FLASH FLOOD DAMAGE THREAT"@ {
        Some(WarningTextTagKind::FlashFloodDamageThreat)
    } else if name == "TSTM DAMAGE THREAT"@ {
        Some(WarningTextTagKind::TstmDamageThreat)
    } else if name == "TORNADO DAMAGE THREAT"@ {
        Some(WarningTextTagKind::TornadoDamageThreat)
    } else if name == "THREAT"@ {
        Some(WarningTextTagKind::Threat)
    } else if name == "SOURCE"@ {
        Some(WarningTextTagKind::Source)
    } else if name == "IMPACT"@ {
        Some(WarningTextTagKind::Impact)
    } else {
        None
    }
}

impl WarningTextTagKind {
    pub fn from_normalized_name(name: &[char]) -> (r: Option<WarningTextTagKind>)
        ensures
            r == text_tag_kind(name@),
    {
        if text::is_str(name, "TORNADO") {
            Some(WarningTextTagKind::Tornado)
        } else if text::is_str(name, "HAIL THREAT") {
            Some(WarningTextTagKind::HailThreat)
        } else if text::is_str(name, "MAX HAIL SIZE") {
            Some(WarningTextTagKind::MaxHailSize)
        } else if text::is_str(name, "WIND THREAT") {
            Some(WarningTextTagKind::WindThreat)
        } else if text::is_str(name, "MAX WIND GUST") {
            Some(WarningTextTagKind::MaxWindGust)
        } else if text::is_str(name, "FLASH FLOOD DAMAGE THREAT") {
            Some(WarningTextTagKind::FlashFloodDamageThreat)
        } else if text::is_str(name, "TSTM DAMAGE THREAT") {
            Some(WarningTextTagKind::TstmDamageThreat)
        } else if text::is_str(name, "TORNADO DAMAGE THREAT") {
            Some(WarningTextTagKind::TornadoDamageThreat)
        } else if text::is_str(name, "THREAT") {
            Some(WarningTextTagKind::Threat)
        } else if text::is_str(name, "SOURCE") {
            Some(WarningTextTagKind::Source)
        } else if text::is_str(name, "IMPACT") {
            Some(WarningTextTagKind::Impact)
        } else {
            None
        }
    }
}

/// A `NAME...VALUE` line. A measurement is kept as the decimal literal it is
/// written with.
#[derive(Debug, Clone, PartialEq, Eq)]
pub struct WarningTextTag {
    pub kind: WarningTextTagKind,
    pub raw_line: String,
    pub raw_name: String,
    pub raw_value: String,
    pub normalized_value: String,
    pub numeric_value: Option<String>,
    pub unit: Option<String>,
    pub line_number: usize,
}

/// What a text tag holds.
pub struct WarningTextTagView {
    pub kind: WarningTextTagKind,
    pub raw_line: Seq<char>,
    pub raw_name: Seq<char>,
    pub raw_value: Seq<char>,
    pub normalized_value: Seq<char>,
    pub numeric_value: Option<Seq<char>>,
    pub unit: Option<Seq<char>>,
    pub line_number: int,
}

impl DeepView for WarningTextTag {
    type V = WarningTextTagView;

    open spec fn deep_view(&self) -> WarningTextTagView {
        WarningTextTagView {
            kind: self.kind,
            raw_line: self.raw_line@,
            raw_name: self.raw_name@,
            raw_value: self.raw_value@,
            normalized_value: self.normalized_value@,
            numeric_value: self.numeric_value.deep_view(),
            unit: self.unit.deep_view(),
            line_number: self.line_number as int,
        }
    }
}

/// The words of `value` in upper case with one space between each two.
pub open spec fn normalized(value: Seq<char>) -> Seq<char> {
    text::upper(text::join(text::words(value), seq![' ']))
}

/// `s` without ASCII white space.
pub open spec fn compacted(s: Seq<char>) -> Seq<char>
    decreases s.len(),
{
    if s.len() == 0 {
        Seq::empty()
    } else if text::is_ascii_white(s.last()) {
        compacted(s.drop_last())
    } else {
        compacted(s.drop_last()).push(s.last())
    }
}

/// The decimal literal that `value` holds before `unit`, white space, case
/// and leading `<` and `>` aside.
pub open spec fn measurement(value: Seq<char>, unit: Seq<char>) -> Option<Seq<char>> {
    let compact = text::upper(compacted(value));
    match text::find(compact, unit) {
        Some(end) => {
            let literal = text::drop_leading(compact.take(end), "<>"@);
            if number::float_literal(literal) {
                Some(literal)
            } else {
                None
            }
        },
        None => None,
    }
}

/// The measurement and unit of a tag value; both or neither.
pub open spec fn tag_measurement(kind: WarningTextTagKind, value: Seq<char>) -> (
    Option<Seq<char>>,
    Option<Seq<char>>,
) {
    match kind {
        WarningTextTagKind::MaxHailSize => match measurement(value, "IN"@) {
            Some(v) => (Some(v), Some("in"@)),
            None => (None, None),
        },
        WarningTextTagKind::MaxWindGust => match measurement(value, "MPH"@) {
            Some(v) => (Some(v), Some("mph"@)),
            None => (None, None),
        },
        _ => (None, None),
    }
}

/// The name part of a tag line: without bullets and surrounding white space.
pub open spec fn tag_name(before: Seq<char>) -> Seq<char> {
    text::trim(text::drop_leading(text::trim(before), "*"@))
}

/// Reads line number `n` as a tag.
pub open spec fn text_tag(line: Seq<char>, n: int) -> Option<WarningTextTagView> {
    let raw_line = text::trim(line);
    match text::split_once(raw_line, "..."@) {
        None => None,
        Some((before, after)) => {
            let raw_name = tag_name(before);
            let raw_value = text::trim(after);
            match text_tag_kind(normalized(raw_name)) {
                None => None,
                Some(kind) => {
                    let (numeric_value, unit) = tag_measurement(kind, raw_value);
                    Some(
                        WarningTextTagView {
                            kind,
                            raw_line,
                            raw_name,
                            raw_value,
                            normalized_value: normalized(raw_value),
                            numeric_value,
                            unit,
                            line_number: n,
                        },
                    )
                },
            }
        },
    }
}

/// The tags among the lines, each with its one-based line number.
pub open spec fn text_tags(lines: Seq<Seq<char>>) -> Seq<WarningTextTagView>
    decreases lines.len(),
{
    if lines.len() == 0 {
        Seq::empty()
    } else {
        match text_tag(lines.last(), lines.len() as int) {
            Some(tag) => text_tags(lines.drop_last()).push(tag),
            None => text_tags(lines.drop_last()),
        }
    }
}

fn normalize_warning_value(value: &[char]) -> (r: Vec<char>)
    ensures
        r@ == normalized(value@),
{
    let words = text::words_of(value);
    let mut space: Vec<char> = Vec::new();
    space.push(' ');
    assert(space@ =~= seq![' ']);
    let joined = text::join_with(&words, space.as_slice());
    text::to_upper(joined.as_slice())
}

fn without_ascii_white(s: &[char]) -> (r: Vec<char>)
    ensures
        r@ == compacted(s@),
{
    let mut v: Vec<char> = Vec::new();
    let mut i: usize = 0;
    while i < s.len()
        invariant
            i <= s@.len(),
            v@ == compacted(s@.take(i as int)),
        decreases s.len() - i,
    {
        assert(s@.take(i + 1).drop_last() =~= s@.take(i as int));
        if !text::ascii_white(s[i]) {
            v.push(s[i]);
        }
        i += 1;
    }
    assert(s@.take(i as int) =~= s@);
    v
}

fn measurement_value(value: &[char], unit: &str) -> (r: Option<String>)
    ensures
        r.deep_view() == measurement(value@, unit@),
{
    let kept = without_ascii_white(value);
    let compact = text::to_upper(kept.as_slice());
    match text::split_once_str(compact.as_slice(), unit) {
        Some((before, _)) => {
            let marks = text::to_chars("<>");
            let literal = text::drop_leading_of(before, marks.as_slice());
            if number::is_float_literal(literal) {
                Some(text::to_text(literal))
            } else {
                None
            }
        },
        None => None,
    }
}

fn warning_tag_measurement(kind: WarningTextTagKind, value: &[char]) -> (r: (
    Option<String>,
    Option<String>,
))
    ensures
        (r.0.deep_view(), r.1.deep_view()) == tag_measurement(kind, value@),
{
    match kind {
        WarningTextTagKind::MaxHailSize => match measurement_value(value, "IN") {
            Some(v) => (Some(v), Some("in".to_owned())),
            None => (None, None),
        },
        WarningTextTagKind::MaxWindGust => match measurement_value(value, "MPH") {
            Some(v) => (Some(v), Some("mph".to_owned())),
            None => (None, None),
        },
        _ => (None, None),
    }
}

fn parse_warning_text_tag(line: &[char], line_number: usize) -> (r: Option<WarningTextTag>)
    ensures
        r.deep_view() == text_tag(line@, line_number as int),
{
    let raw_line = text::trim_of(line);
    match text::split_once_str(raw_line, "...") {
        None => None,
        Some((before, after)) => {
            let bullet = text::to_chars("*");
            let raw_name = text::trim_of(
                text::drop_leading_of(text::trim_of(before), bullet.as_slice()),
            );
            let raw_value = text::trim_of(after);
            let name = normalize_warning_value(raw_name);
            match WarningTextTagKind::from_normalized_name(name.as_slice()) {
                None => None,
                Some(kind) => {
                    let value = normalize_warning_value(raw_value);
                    let (numeric_value, unit) = warning_tag_measurement(kind, raw_value);
                    Some(
                        WarningTextTag {
                            kind,
                            raw_line: text::to_text(raw_line),
                            raw_name: text::to_text(raw_name),
                            raw_value: text::to_text(raw_value),
                            normalized_value: text::to_text(value.as_slice()),
                            numeric_value,
                            unit,
                            line_number,
                        },
                    )
                },
            }
        },
    }
}

fn extract_warning_text_tags(lines: &Vec<String>) -> (r: Vec<WarningTextTag>)
    ensures
        r.deep_view() == text_tags(lines.deep_view()),
{
    let mut tags: Vec<WarningTextTag> = Vec::new();
    let mut i: usize = 0;
    let ghost all = lines.deep_view();
    assert(tags.deep_view() =~= text_tags(all.take(0)));
    while i < lines.len()
        invariant
            i <= lines@.len(),
            all == lines.deep_view(),
            tags.deep_view() == text_tags(all.take(i as int)),
        decreases lines.len() - i,
    {
        let ghost before = tags.deep_view();
        let line = text::to_chars(lines[i].as_str());
        assert(all.take(i + 1).drop_last() =~= all.take(i as int));
        if let Some(tag) = parse_warning_text_tag(line.as_slice(), i + 1) {
            tags.push(tag);
            assert(tags.deep_view() =~= before.push(tag.deep_view()));
        }
        i += 1;
    }
    assert(all.take(i as int) =~= all);
    tags
}

// ---------------------------------------------------------------------------
// Actions
// ---------------------------------------------------------------------------

/// What a warning product does, in words.
#[derive(Debug, Clone, Copy, PartialEq, Eq, Structural)]
pub enum WarningActionKind {
    New,
    Continue,
    ExtendTime,
    ExtendArea,
    ExtendAreaAndTime,
    Upgrade,
    Cancel,
    Expire,
    Correction,
    Routine,
}

pub open spec fn action_kind(action: VtecAction) -> WarningActionKind {
    match action {
        VtecAction::New => WarningActionKind::New,
        VtecAction::Continue => WarningActionKind::Continue,
        VtecAction::ExtendTime => WarningActionKind::ExtendTime,
        VtecAction::ExtendArea => WarningActionKind::ExtendArea,
        VtecAction::ExtendAreaAndTime => WarningActionKind::ExtendAreaAndTime,
        VtecAction::Upgrade => WarningActionKind::Upgrade,
        VtecAction::Cancel => WarningActionKind::Cancel,
        VtecAction::Expire => WarningActionKind::Expire,
        VtecAction::Correction => WarningActionKind::Correction,
        VtecAction::Routine => WarningActionKind::Routine,
    }
}

impl WarningActionKind {
    pub fn from_vtec(action: VtecAction) -> (r: WarningActionKind)
        ensures
            r == action_kind(action),
    {
        match action {
            VtecAction::New => WarningActionKind::New,
            VtecAction::Continue => WarningActionKind::Continue,
            VtecAction::ExtendTime => WarningActionKind::ExtendTime,
            VtecAction::ExtendArea => WarningActionKind::ExtendArea,
            VtecAction::ExtendAreaAndTime => WarningActionKind::ExtendAreaAndTime,
            VtecAction::Upgrade => WarningActionKind::Upgrade,
            VtecAction::Cancel => WarningActionKind::Cancel,
            VtecAction::Expire => WarningActionKind::Expire,
            VtecAction::Correction => WarningActionKind::Correction,
            VtecAction::Routine => WarningActionKind::Routine,
        }
    }
}

/// Where an action was read from.
#[derive(Debug, Clone, Copy, PartialEq, Eq, Structural)]
pub enum WarningActionSource {
    Pvtec,
}

/// The action of one VTEC line.
#[derive(Debug, Clone, PartialEq, Eq)]
pub struct WarningActionTag {
    pub source: WarningActionSource,
    pub action: String,
    pub normalized_action: WarningActionKind,
    pub raw: String,
    pub vtec_index: usize,
}

/// What an action tag holds.
pub struct WarningActionTagView {
    pub source: WarningActionSource,
    pub action: Seq<char>,
    pub normalized_action: WarningActionKind,
    pub raw: Seq<char>,
    pub vtec_index: int,
}

impl DeepView for WarningActionTag {
    type V = WarningActionTagView;

    open spec fn deep_view(&self) -> WarningActionTagView {
        WarningActionTagView {
            source: self.source,
            action: self.action@,
            normalized_action: self.normalized_action,
            raw: self.raw@,
            vtec_index: self.vtec_index as int,
        }
    }
}

/// The actions of the VTEC lines, each with its one-based index.
pub open spec fn action_tags(pvtec: Seq<PvtecView>) -> Seq<WarningActionTagView> {
    Seq::new(
        pvtec.len(),
        |i: int|
            WarningActionTagView {
                source: WarningActionSource::Pvtec,
                action: pvtec[i].action.spec_str(),
                normalized_action: action_kind(pvtec[i].action),
                raw: pvtec[i].raw,
                vtec_index: i + 1,
            },
    )
}

fn extract_warning_actions(pvtec: &Vec<Pvtec>) -> (r: Vec<WarningActionTag>)
    ensures
        r.deep_view() == action_tags(pvtec.deep_view()),
{
    let mut tags: Vec<WarningActionTag> = Vec::new();
    let mut i: usize = 0;
    let ghost all = action_tags(pvtec.deep_view());
    while i < pvtec.len()
        invariant
            i <= pvtec@.len(),
            all == action_tags(pvtec.deep_view()),
            tags.deep_view() == all.take(i as int),
        decreases pvtec.len() - i,
    {
        let ghost before = tags.deep_view();
        let code = &pvtec[i];
        let tag = WarningActionTag {
            source: WarningActionSource::Pvtec,
            action: code.action().as_str().to_owned(),
            normalized_action: WarningActionKind::from_vtec(code.action()),
            raw: code.raw().to_owned(),
            vtec_index: i + 1,
        };
        tags.push(tag);
        assert(tags.deep_view() =~= before.push(tag.deep_view()));
        assert(all.take(i + 1) =~= all.take(i as int).push(all[i as int]));
        i += 1;
    }
    assert(all.take(i as int) =~= all);
    tags
}

/// The text tags and actions of a segment.
#[derive(Debug, Clone, PartialEq, Eq)]
pub struct WarningParsedTags {
    pub text_tags: Vec<WarningTextTag>,
    pub actions: Vec<WarningActionTag>,
}

impl WarningParsedTags {
    /// The text tags of the lines, without actions.
    pub fn extract_text(lines: &Vec<String>) -> (r: WarningParsedTags)
        ensures
            r.text_tags.deep_view() == text_tags(lines.deep_view()),
            r.actions@.len() == 0,
    {
        WarningParsedTags { text_tags: extract_warning_text_tags(lines), actions: Vec::new() }
    }

    /// The text tags of the lines and the actions of the VTEC lines.
    pub fn from_parts(lines: &Vec<String>, pvtec: &Vec<Pvtec>) -> (r: WarningParsedTags)
        ensures
            r.text_tags.deep_view() == text_tags(lines.deep_view()),
            r.actions.deep_view() == action_tags(pvtec.deep_view()),
    {
        WarningParsedTags {
            text_tags: extract_warning_text_tags(lines),
            actions: extract_warning_actions(pvtec),
        }
    }
}

} // verus!
