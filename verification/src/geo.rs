//! Polygons and motion lines.

use vstd::prelude::*;
use vstd::slice::slice_subrange;

use crate::error::{ErrorKind, Field, ParseError, Result};
use crate::header;
use crate::number;
use crate::text;

verus! {

/// A point as it is written: hundredths of a degree, without signs.
#[derive(Debug, Clone, Copy, PartialEq, Eq, Structural)]
pub struct GeoPoint {
    pub latitude: u32,
    pub longitude: u32,
}

/// Whether the coordinates of a point fit where signs are added.
pub open spec fn fits(p: GeoPoint) -> bool {
    p.latitude <= i32::MAX && p.longitude <= i32::MAX
}

pub open spec fn all_fit(points: Seq<GeoPoint>) -> bool {
    forall|i: int| 0 <= i < points.len() ==> fits(#[trigger] points[i])
}

/// A `LAT...LON` block.
#[derive(Debug, PartialEq, Eq)]
pub struct LatLonBlock {
    raw: String,
    points: Vec<GeoPoint>,
}

/// What a `LAT...LON` block holds.
pub struct LatLonBlockView {
    pub raw: Seq<char>,
    pub points: Seq<GeoPoint>,
}

impl DeepView for LatLonBlock {
    type V = LatLonBlockView;

    closed spec fn deep_view(&self) -> LatLonBlockView {
        LatLonBlockView { raw: self.raw@, points: self.points@ }
    }
}

/// A `TIME...MOT...LOC` line.
#[derive(Debug, PartialEq, Eq)]
pub struct TimeMotLoc {
    raw: String,
    hour: u8,
    minute: u8,
    direction_degrees: u16,
    speed_knots: u8,
    locations: Vec<GeoPoint>,
}

/// What a `TIME...MOT...LOC` line holds.
pub struct TimeMotLocView {
    pub raw: Seq<char>,
    pub hour: u8,
    pub minute: u8,
    pub direction_degrees: u16,
    pub speed_knots: u8,
    pub locations: Seq<GeoPoint>,
}

impl DeepView for TimeMotLoc {
    type V = TimeMotLocView;

    closed spec fn deep_view(&self) -> TimeMotLocView {
        TimeMotLocView {
            raw: self.raw@,
            hour: self.hour,
            minute: self.minute,
            direction_degrees: self.direction_degrees,
            speed_knots: self.speed_knots,
            locations: self.locations@,
        }
    }
}

// ---------------------------------------------------------------------------
// Grammar
// ---------------------------------------------------------------------------

/// A coordinate: four or five digits.
pub open spec fn coordinate(s: Seq<char>) -> Option<u32> {
    if 4 <= s.len() <= 5 && number::all_digits(s) {
        Some(number::digits_value(s) as u32)
    } else {
        None
    }
}

/// Reads the words from `i` on as latitude and longitude in turn, appending
/// the points to `done`.
pub open spec fn points_from(words: Seq<Seq<char>>, i: int, done: Seq<GeoPoint>) -> Option<
    Seq<GeoPoint>,
>
    decreases words.len() - i,
{
    if i >= words.len() {
        Some(done)
    } else if i + 1 >= words.len() {
        None
    } else {
        match (coordinate(words[i]), coordinate(words[i + 1])) {
            (Some(latitude), Some(longitude)) => points_from(
                words,
                i + 2,
                done.push(GeoPoint { latitude, longitude }),
            ),
            _ => None,
        }
    }
}

/// Reads a block: the word `LAT...LON` and at least one point.
pub open spec fn parse_lat_lon(raw: Seq<char>) -> Option<LatLonBlockView> {
    let words = text::words(raw);
    if words.len() < 3 || words[0] != "LAT...LON"@ {
        None
    } else {
        match points_from(words, 1, Seq::empty()) {
            Some(points) => Some(LatLonBlockView { raw, points }),
            None => None,
        }
    }
}

/// Reads `hhmmZ`.
pub open spec fn motion_time(s: Seq<char>) -> Option<(u8, u8)> {
    if s.len() == 5 && number::all_digits(s.take(4)) && s[4] == 'Z' && header::two_digits(s, 0) <= 23
        && header::two_digits(s, 2) <= 59 {
        Some((header::two_digits(s, 0) as u8, header::two_digits(s, 2) as u8))
    } else {
        None
    }
}

/// Reads digits followed by `unit`, at most `max`.
pub open spec fn measured(s: Seq<char>, unit: Seq<char>, max: int) -> Option<int> {
    let n = s.len() - unit.len();
    if n > 0 && s.skip(n) == unit && number::all_digits(s.take(n)) && number::digits_value(
        s.take(n),
    ) <= max {
        Some(number::digits_value(s.take(n)))
    } else {
        None
    }
}

/// Reads a motion line: time, direction, speed and at least one location.
pub open spec fn parse_motion(raw: Seq<char>) -> Option<TimeMotLocView> {
    let words = text::words(raw);
    if words.len() < 6 || words[0] != "TIME...MOT...LOC"@ {
        None
    } else {
        match (
            motion_time(words[1]),
            measured(words[2], "DEG"@, 360),
            measured(words[3], "KT"@, 255),
            points_from(words, 4, Seq::empty()),
        ) {
            (Some((hour, minute)), Some(direction), Some(speed), Some(locations)) => Some(
                TimeMotLocView {
                    raw,
                    hour,
                    minute,
                    direction_degrees: direction as u16,
                    speed_knots: speed as u8,
                    locations,
                },
            ),
            _ => None,
        }
    }
}

fn read_coordinate(s: &[char]) -> (r: Option<u32>)
    ensures
        r == coordinate(s@),
        r matches Some(v) ==> v <= 99_999,
{
    if s.len() < 4 || s.len() > 5 || !number::only_digits(s) {
        return None;
    }
    proof {
        number::lemma_digits_value_bound(s@);
        if s@.len() == 5 {
            assert(number::all_digits(s@.drop_last()));
            number::lemma_digits_value_bound(s@.drop_last());
            assert(text::is_digit(s@[4]));
        }
    }
    match number::digits_upto(s, 99_999) {
        Some(v) => Some(v as u32),
        None => None,
    }
}

fn read_points(words: &Vec<Vec<char>>, from: usize) -> (r: Option<Vec<GeoPoint>>)
    requires
        from <= words@.len(),
    ensures
        match r {
            Some(points) => points_from(text::views(words@), from as int, Seq::empty()) == Some(
                points@,
            ) && all_fit(points@),
            None => points_from(text::views(words@), from as int, Seq::empty()) is None,
        },
{
    let ghost all = text::views(words@);
    let n: usize = words.len();
    let mut points: Vec<GeoPoint> = Vec::new();
    let mut i: usize = from;
    while i < n
        invariant
            n == words@.len(),
            all == text::views(words@),
            i <= n,
            all_fit(points@),
            points_from(all, from as int, Seq::empty()) == points_from(all, i as int, points@),
        decreases n - i,
    {
        if n - i == 1 {
            return None;
        }
        match (read_coordinate(words[i].as_slice()), read_coordinate(words[i + 1].as_slice())) {
            (Some(latitude), Some(longitude)) => {
                points.push(GeoPoint { latitude, longitude });
            },
            _ => {
                return None;
            },
        }
        i += 2;
    }
    Some(points)
}

fn read_motion_time(s: &[char]) -> (r: Option<(u8, u8)>)
    ensures
        r == motion_time(s@),
{
    if s.len() != 5 || s[4] != 'Z' {
        return None;
    }
    let digits = slice_subrange(s, 0, 4);
    assert(digits@ =~= s@.take(4));
    if !number::only_digits(digits) {
        return None;
    }
    assert forall|i: int| 0 <= i < 4 implies text::is_digit(#[trigger] s@[i]) by {
        assert(s@[i] == digits@[i]);
    }
    let hour: u8 = header::read_two_digits(s, 0);
    let minute: u8 = header::read_two_digits(s, 2);
    if hour <= 23 && minute <= 59 {
        Some((hour, minute))
    } else {
        None
    }
}

fn read_measured(s: &[char], unit: &str, max: u64) -> (r: Option<u64>)
    ensures
        match r {
            Some(v) => measured(s@, unit@, max as int) == Some(v as int) && v <= max,
            None => measured(s@, unit@, max as int) is None,
        },
{
    let u = text::to_chars(unit);
    if s.len() <= u.len() {
        return None;
    }
    let n: usize = s.len() - u.len();
    let head = slice_subrange(s, 0, n);
    let tail = slice_subrange(s, n, s.len());
    assert(head@ =~= s@.take(n as int));
    assert(tail@ =~= s@.skip(n as int));
    if !text::same(tail, u.as_slice()) || !number::only_digits(head) {
        return None;
    }
    number::digits_upto(head, max)
}

fn copy_points(points: &Vec<GeoPoint>) -> (r: Vec<GeoPoint>)
    ensures
        r@ == points@,
{
    let mut out: Vec<GeoPoint> = Vec::new();
    let mut i: usize = 0;
    while i < points.len()
        invariant
            i <= points@.len(),
            out@ == points@.take(i as int),
        decreases points.len() - i,
    {
        out.push(points[i]);
        assert(out@ =~= points@.take(i + 1));
        i += 1;
    }
    assert(points@.take(i as int) =~= points@);
    out
}

impl Clone for LatLonBlock {
    fn clone(&self) -> (r: Self)
        ensures
            r.deep_view() == self.deep_view(),
    {
        proof {
            use_type_invariant(self);
        }
        LatLonBlock { raw: self.raw.clone(), points: copy_points(&self.points) }
    }
}

impl Clone for TimeMotLoc {
    fn clone(&self) -> (r: Self)
        ensures
            r.deep_view() == self.deep_view(),
    {
        proof {
            use_type_invariant(self);
        }
        TimeMotLoc {
            raw: self.raw.clone(),
            hour: self.hour,
            minute: self.minute,
            direction_degrees: self.direction_degrees,
            speed_knots: self.speed_knots,
            locations: copy_points(&self.locations),
        }
    }
}

impl LatLonBlock {
    #[verifier::type_invariant]
    spec fn points_fit(self) -> bool {
        all_fit(self.points@)
    }

    pub fn parse(raw: &[char]) -> (r: Result<LatLonBlock>)
        ensures
            match r {
                Ok(b) => parse_lat_lon(raw@) == Some(b.deep_view()),
                Err(e) => parse_lat_lon(raw@) is None && e.kind == ErrorKind::InvalidField(
                    Field::LatLon,
                ),
            },
    {
        let bad = ParseError::new(ErrorKind::InvalidField(Field::LatLon));
        let words = text::words_of(raw);
        assert(text::views(words@).len() == words@.len());
        if words.len() < 3 {
            return Err(bad);
        }
        assert(text::views(words@)[0] == words@[0]@);
        if !text::is_str(words[0].as_slice(), "LAT...LON") {
            return Err(bad);
        }
        match read_points(&words, 1) {
            Some(points) => Ok(LatLonBlock { raw: text::to_text(raw), points }),
            None => Err(bad),
        }
    }

    pub fn raw(&self) -> (r: &str)
        ensures
            r@ == self.deep_view().raw,
    {
        self.raw.as_str()
    }

    pub fn points(&self) -> (r: &Vec<GeoPoint>)
        ensures
            r@ == self.deep_view().points,
            all_fit(r@),
    {
        proof {
            use_type_invariant(self);
        }
        &self.points
    }
}

impl TimeMotLoc {
    #[verifier::type_invariant]
    spec fn locations_fit(self) -> bool {
        all_fit(self.locations@)
    }

    pub fn parse(raw: &[char]) -> (r: Result<TimeMotLoc>)
        ensures
            match r {
                Ok(m) => parse_motion(raw@) == Some(m.deep_view()),
                Err(e) => parse_motion(raw@) is None && e.kind == ErrorKind::InvalidField(
                    Field::TimeMotLoc,
                ),
            },
    {
        let bad = ParseError::new(ErrorKind::InvalidField(Field::TimeMotLoc));
        let words = text::words_of(raw);
        let ghost all = text::views(words@);
        assert(all.len() == words@.len());
        if words.len() < 6 {
            return Err(bad);
        }
        assert(forall|k: int| 0 <= k < all.len() ==> all[k] == (#[trigger] words@[k])@);
        if !text::is_str(words[0].as_slice(), "TIME...MOT...LOC") {
            return Err(bad);
        }
        match (
            read_motion_time(words[1].as_slice()),
            read_measured(words[2].as_slice(), "DEG", 360),
            read_measured(words[3].as_slice(), "KT", 255),
            read_points(&words, 4),
        ) {
            (Some((hour, minute)), Some(direction), Some(speed), Some(locations)) => Ok(
                TimeMotLoc {
                    raw: text::to_text(raw),
                    hour,
                    minute,
                    direction_degrees: direction as u16,
                    speed_knots: speed as u8,
                    locations,
                },
            ),
            _ => Err(bad),
        }
    }

    pub fn raw(&self) -> (r: &str)
        ensures
            r@ == self.deep_view().raw,
    {
        self.raw.as_str()
    }

    pub fn hour(&self) -> (r: u8)
        ensures
            r == self.deep_view().hour,
    {
        self.hour
    }

    pub fn minute(&self) -> (r: u8)
        ensures
            r == self.deep_view().minute,
    {
        self.minute
    }

    pub fn direction_degrees(&self) -> (r: u16)
        ensures
            r == self.deep_view().direction_degrees,
    {
        self.direction_degrees
    }

    pub fn speed_knots(&self) -> (r: u8)
        ensures
            r == self.deep_view().speed_knots,
    {
        self.speed_knots
    }

    pub fn locations(&self) -> (r: &Vec<GeoPoint>)
        ensures
            r@ == self.deep_view().locations,
            all_fit(r@),
    {
        proof {
            use_type_invariant(self);
        }
        &self.locations
    }
}

} // verus!
