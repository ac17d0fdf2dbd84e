//! Valid Time Event Codes.

use vstd::prelude::*;
use vstd::slice::slice_subrange;

use crate::clock;
use crate::error::{ErrorKind, Field, ParseError, Result};
use crate::header;
use crate::number;
use crate::text;

verus! {

/// The class of a product.
#[derive(Debug, Clone, Copy, PartialEq, Eq, Structural)]
pub enum EventClass {
    Operational,
    Test,
    Experimental,
    ExperimentalOperational,
}

pub open spec fn event_class_of(c: char) -> Option<EventClass> {
    if c == 'O' {
        Some(EventClass::Operational)
    } else if c == 'T' {
        Some(EventClass::Test)
    } else if c == 'E' {
        Some(EventClass::Experimental)
    } else if c == 'X' {
        Some(EventClass::ExperimentalOperational)
    } else {
        None
    }
}

fn read_event_class(c: char) -> (r: Option<EventClass>)
    ensures
        r == event_class_of(c),
{
    if c == 'O' {
        Some(EventClass::Operational)
    } else if c == 'T' {
        Some(EventClass::Test)
    } else if c == 'E' {
        Some(EventClass::Experimental)
    } else if c == 'X' {
        Some(EventClass::ExperimentalOperational)
    } else {
        None
    }
}

impl EventClass {
    pub open spec fn spec_str(self) -> Seq<char> {
        match self {
            EventClass::Operational => "O"@,
            EventClass::Test => "T"@,
            EventClass::Experimental => "E"@,
            EventClass::ExperimentalOperational => "X"@,
        }
    }

    pub fn as_str(self) -> (r: &'static str)
        ensures
            r@ == self.spec_str(),
    {
        match self {
            EventClass::Operational => "O",
            EventClass::Test => "T",
            EventClass::Experimental => "E",
            EventClass::ExperimentalOperational => "X",
        }
    }
}

/// What a product does to its event.
#[derive(Debug, Clone, Copy, PartialEq, Eq, Structural)]
pub enum VtecAction {
    New,
    Continue,
    ExtendTime,
    ExtendArea,
    ExtendAreaAndTime,
    Upgrade,
    Cancel,
    Expire,
    Correction,
    Routine,
}

impl VtecAction {
    pub open spec fn spec_str(self) -> Seq<char> {
        match self {
            VtecAction::New => "NEW"@,
            VtecAction::Continue => "CON"@,
            VtecAction::ExtendTime => "EXT"@,
            VtecAction::ExtendArea => "EXA"@,
            VtecAction::ExtendAreaAndTime => "EXB"@,
            VtecAction::Upgrade => "UPG"@,
            VtecAction::Cancel => "CAN"@,
            VtecAction::Expire => "EXP"@,
            VtecAction::Correction => "COR"@,
            VtecAction::Routine => "ROU"@,
        }
    }

    pub fn as_str(self) -> (r: &'static str)
        ensures
            r@ == self.spec_str(),
    {
        match self {
            VtecAction::New => "NEW",
            VtecAction::Continue => "CON",
            VtecAction::ExtendTime => "EXT",
            VtecAction::ExtendArea => "EXA",
            VtecAction::ExtendAreaAndTime => "EXB",
            VtecAction::Upgrade => "UPG",
            VtecAction::Cancel => "CAN",
            VtecAction::Expire => "EXP",
            VtecAction::Correction => "COR",
            VtecAction::Routine => "ROU",
        }
    }
}

pub open spec fn action_of(s: Seq<char>) -> Option<VtecAction> {
    if s == "NEW"@ {
        Some(VtecAction::New)
    } else if s == "CON"@ {
        Some(VtecAction::Continue)
    } else if s == "EXT"@ {
        Some(VtecAction::ExtendTime)
    } else if s == "EXA"@ {
        Some(VtecAction::ExtendArea)
    } else if s == "EXB"@ {
        Some(VtecAction::ExtendAreaAndTime)
    } else if s == "UPG"@ {
        Some(VtecAction::Upgrade)
    } else if s == "CAN"@ {
        Some(VtecAction::Cancel)
    } else if s == "EXP"@ {
        Some(VtecAction::Expire)
    } else if s == "COR"@ {
        Some(VtecAction::Correction)
    } else if s == "ROU"@ {
        Some(VtecAction::Routine)
    } else {
        None
    }
}

fn read_action(s: &[char]) -> (r: Option<VtecAction>)
    ensures
        r == action_of(s@),
{
    if text::is_str(s, "NEW") {
        Some(VtecAction::New)
    } else if text::is_str(s, "CON") {
        Some(VtecAction::Continue)
    } else if text::is_str(s, "EXT") {
        Some(VtecAction::ExtendTime)
    } else if text::is_str(s, "EXA") {
        Some(VtecAction::ExtendArea)
    } else if text::is_str(s, "EXB") {
        Some(VtecAction::ExtendAreaAndTime)
    } else if text::is_str(s, "UPG") {
        Some(VtecAction::Upgrade)
    } else if text::is_str(s, "CAN") {
        Some(VtecAction::Cancel)
    } else if text::is_str(s, "EXP") {
        Some(VtecAction::Expire)
    } else if text::is_str(s, "COR") {
        Some(VtecAction::Correction)
    } else if text::is_str(s, "ROU") {
        Some(VtecAction::Routine)
    } else {
        None
    }
}

/// The hazard of an event: one of those that decide a product family, or the
/// two letters of another.
#[derive(Debug, Clone, Copy, PartialEq, Eq, Structural)]
pub enum Phenomenon {
    Tornado,
    SevereThunderstorm,
    FlashFlood,
    Flood,
    FloodForecastPoint,
    Marine,
    SmallCraft,
    Gale,
    Storm,
    HurricaneForceWind,
    Other(char, char),
}

impl Phenomenon {
    /// The two letters of the phenomenon.
    pub open spec fn code(self) -> (char, char) {
        match self {
            Phenomenon::Tornado => ('T', 'O'),
            Phenomenon::SevereThunderstorm => ('S', 'V'),
            Phenomenon::FlashFlood => ('F', 'F'),
            Phenomenon::Flood => ('F', 'A'),
            Phenomenon::FloodForecastPoint => ('F', 'L'),
            Phenomenon::Marine => ('M', 'A'),
            Phenomenon::SmallCraft => ('S', 'C'),
            Phenomenon::Gale => ('G', 'L'),
            Phenomenon::Storm => ('S', 'R'),
            Phenomenon::HurricaneForceWind => ('H', 'F'),
            Phenomenon::Other(a, b) => (a, b),
        }
    }

    pub open spec fn spec_str(self) -> Seq<char> {
        seq![self.code().0, self.code().1]
    }

    pub fn letters(self) -> (r: (char, char))
        ensures
            r == self.code(),
    {
        match self {
            Phenomenon::Tornado => ('T', 'O'),
            Phenomenon::SevereThunderstorm => ('S', 'V'),
            Phenomenon::FlashFlood => ('F', 'F'),
            Phenomenon::Flood => ('F', 'A'),
            Phenomenon::FloodForecastPoint => ('F', 'L'),
            Phenomenon::Marine => ('M', 'A'),
            Phenomenon::SmallCraft => ('S', 'C'),
            Phenomenon::Gale => ('G', 'L'),
            Phenomenon::Storm => ('S', 'R'),
            Phenomenon::HurricaneForceWind => ('H', 'F'),
            Phenomenon::Other(a, b) => (a, b),
        }
    }

    pub fn as_text(self) -> (r: String)
        ensures
            r@ == self.spec_str(),
    {
        let (a, b) = self.letters();
        let mut s: String = String::new();
        s.push(a);
        s.push(b);
        assert(s@ =~= self.spec_str());
        s
    }
}

/// The phenomenon with the given letters.
pub open spec fn phenomenon_of(a: char, b: char) -> Phenomenon {
    if a == 'T' && b == 'O' {
        Phenomenon::Tornado
    } else if a == 'S' && b == 'V' {
        Phenomenon::SevereThunderstorm
    } else if a == 'F' && b == 'F' {
        Phenomenon::FlashFlood
    } else if a == 'F' && b == 'A' {
        Phenomenon::Flood
    } else if a == 'F' && b == 'L' {
        Phenomenon::FloodForecastPoint
    } else if a == 'M' && b == 'A' {
        Phenomenon::Marine
    } else if a == 'S' && b == 'C' {
        Phenomenon::SmallCraft
    } else if a == 'G' && b == 'L' {
        Phenomenon::Gale
    } else if a == 'S' && b == 'R' {
        Phenomenon::Storm
    } else if a == 'H' && b == 'F' {
        Phenomenon::HurricaneForceWind
    } else {
        Phenomenon::Other(a, b)
    }
}

fn read_phenomenon(a: char, b: char) -> (r: Phenomenon)
    ensures
        r == phenomenon_of(a, b),
        r.code() == (a, b),
{
    if a == 'T' && b == 'O' {
        Phenomenon::Tornado
    } else if a == 'S' && b == 'V' {
        Phenomenon::SevereThunderstorm
    } else if a == 'F' && b == 'F' {
        Phenomenon::FlashFlood
    } else if a == 'F' && b == 'A' {
        Phenomenon::Flood
    } else if a == 'F' && b == 'L' {
        Phenomenon::FloodForecastPoint
    } else if a == 'M' && b == 'A' {
        Phenomenon::Marine
    } else if a == 'S' && b == 'C' {
        Phenomenon::SmallCraft
    } else if a == 'G' && b == 'L' {
        Phenomenon::Gale
    } else if a == 'S' && b == 'R' {
        Phenomenon::Storm
    } else if a == 'H' && b == 'F' {
        Phenomenon::HurricaneForceWind
    } else {
        Phenomenon::Other(a, b)
    }
}

/// How serious an event is.
#[derive(Debug, Clone, Copy, PartialEq, Eq, Structural)]
pub enum Significance {
    Warning,
    Watch,
    Advisory,
    Statement,
    Forecast,
    Outlook,
    Synopsis,
}

pub open spec fn significance_of(c: char) -> Option<Significance> {
    if c == 'W' {
        Some(Significance::Warning)
    } else if c == 'A' {
        Some(Significance::Watch)
    } else if c == 'Y' {
        Some(Significance::Advisory)
    } else if c == 'S' {
        Some(Significance::Statement)
    } else if c == 'F' {
        Some(Significance::Forecast)
    } else if c == 'O' {
        Some(Significance::Outlook)
    } else if c == 'N' {
        Some(Significance::Synopsis)
    } else {
        None
    }
}

fn read_significance(c: char) -> (r: Option<Significance>)
    ensures
        r == significance_of(c),
{
    if c == 'W' {
        Some(Significance::Warning)
    } else if c == 'A' {
        Some(Significance::Watch)
    } else if c == 'Y' {
        Some(Significance::Advisory)
    } else if c == 'S' {
        Some(Significance::Statement)
    } else if c == 'F' {
        Some(Significance::Forecast)
    } else if c == 'O' {
        Some(Significance::Outlook)
    } else if c == 'N' {
        Some(Significance::Synopsis)
    } else {
        None
    }
}

impl Significance {
    pub open spec fn spec_str(self) -> Seq<char> {
        match self {
            Significance::Warning => "W"@,
            Significance::Watch => "A"@,
            Significance::Advisory => "Y"@,
            Significance::Statement => "S"@,
            Significance::Forecast => "F"@,
            Significance::Outlook => "O"@,
            Significance::Synopsis => "N"@,
        }
    }

    pub fn as_str(self) -> (r: &'static str)
        ensures
            r@ == self.spec_str(),
    {
        match self {
            Significance::Warning => "W",
            Significance::Watch => "A",
            Significance::Advisory => "Y",
            Significance::Statement => "S",
            Significance::Forecast => "F",
            Significance::Outlook => "O",
            Significance::Synopsis => "N",
        }
    }
}

/// A VTEC time `yymmddThhnnZ`; all zeros leave it undefined.
#[derive(Debug, Clone, Copy, PartialEq, Eq, Structural)]
pub struct VtecTime {
    pub instant: Option<i128>,
}

impl VtecTime {
    /// The instant, unless undefined.
    pub fn datetime(self) -> (r: Option<i128>)
        ensures
            r == self.instant,
    {
        self.instant
    }

    /// Whether the instant, if any, is one of a representable date.
    pub open spec fn wf(self) -> bool {
        self.instant matches Some(n) ==> clock::FIRST_INSTANT <= n < clock::END_INSTANT
    }
}

/// Reads a VTEC time: `Some(None)` where it is undefined.
pub open spec fn parse_time(s: Seq<char>) -> Option<Option<int>> {
    if s == "000000T0000Z"@ {
        Some(None)
    } else if s.len() == 12 && number::all_digits(s.take(6)) && s[6] == 'T' && number::all_digits(
        s.subrange(7, 11),
    ) && s[11] == 'Z' {
        match clock::civil(
            2000 + header::two_digits(s, 0),
            header::two_digits(s, 2),
            header::two_digits(s, 4),
            header::two_digits(s, 7),
            header::two_digits(s, 9),
        ) {
            Some(n) => Some(Some(n)),
            None => None,
        }
    } else {
        None
    }
}

fn read_time(s: &[char]) -> (r: Option<VtecTime>)
    ensures
        match r {
            Some(t) => parse_time(s@) == Some(clock::opt_int(t.instant)) && t.wf(),
            None => parse_time(s@) is None,
        },
{
    if text::is_str(s, "000000T0000Z") {
        return Some(VtecTime { instant: None });
    }
    if s.len() != 12 || s[6] != 'T' || s[11] != 'Z' {
        return None;
    }
    let date = slice_subrange(s, 0, 6);
    let time = slice_subrange(s, 7, 11);
    assert(date@ =~= s@.take(6));
    if !number::only_digits(date) || !number::only_digits(time) {
        return None;
    }
    assert forall|i: int| 0 <= i < 6 implies text::is_digit(#[trigger] s@[i]) by {
        assert(s@[i] == date@[i]);
    }
    assert forall|i: int| 7 <= i < 11 implies text::is_digit(#[trigger] s@[i]) by {
        assert(s@[i] == time@[i - 7]);
    }
    let year: i32 = 2000 + header::read_two_digits(s, 0) as i32;
    match clock::civil_instant(
        year,
        header::read_two_digits(s, 2),
        header::read_two_digits(s, 4),
        header::read_two_digits(s, 7),
        header::read_two_digits(s, 9),
    ) {
        Some(n) => Some(VtecTime { instant: Some(n) }),
        None => None,
    }
}

// ---------------------------------------------------------------------------
// P-VTEC
// ---------------------------------------------------------------------------

/// A primary VTEC line `/k.aaa.cccc.pp.s.####.yymmddThhnnZ-yymmddThhnnZ/`.
#[derive(Debug, PartialEq, Eq)]
pub struct Pvtec {
    raw: String,
    event_class: EventClass,
    action: VtecAction,
    office_id: String,
    phenomenon: Phenomenon,
    significance: Significance,
    event_tracking_number: u16,
    start: VtecTime,
    end: VtecTime,
}

/// What a primary VTEC line holds.
pub struct PvtecView {
    pub raw: Seq<char>,
    pub event_class: EventClass,
    pub action: VtecAction,
    pub office_id: Seq<char>,
    pub phenomenon: Phenomenon,
    pub significance: Significance,
    pub event_tracking_number: u16,
    pub start: Option<int>,
    pub end: Option<int>,
}

impl DeepView for Pvtec {
    type V = PvtecView;

    closed spec fn deep_view(&self) -> PvtecView {
        PvtecView {
            raw: self.raw@,
            event_class: self.event_class,
            action: self.action,
            office_id: self.office_id@,
            phenomenon: self.phenomenon,
            significance: self.significance,
            event_tracking_number: self.event_tracking_number,
            start: clock::opt_int(self.start.instant),
            end: clock::opt_int(self.end.instant),
        }
    }
}

impl Clone for Pvtec {
    fn clone(&self) -> (r: Self)
        ensures
            r.deep_view() == self.deep_view(),
    {
        proof {
            use_type_invariant(self);
        }
        Pvtec {
            raw: self.raw.clone(),
            event_class: self.event_class,
            action: self.action,
            office_id: self.office_id.clone(),
            phenomenon: self.phenomenon,
            significance: self.significance,
            event_tracking_number: self.event_tracking_number,
            start: self.start,
            end: self.end,
        }
    }
}

/// Reads a primary VTEC line.
pub open spec fn parse_pvtec(s: Seq<char>) -> Option<PvtecView> {
    if s.len() == 48 && s[0] == '/' && s[2] == '.' && s[6] == '.' && s[11] == '.' && s[14] == '.'
        && s[16] == '.' && s[21] == '.' && s[34] == '-' && s[47] == '/' && header::is_upper_alnum(
        s.subrange(7, 11),
        4,
    ) && header::is_letters(s.subrange(12, 14), 2) && number::all_digits(s.subrange(17, 21)) {
        match (
            event_class_of(s[1]),
            action_of(s.subrange(3, 6)),
            significance_of(s[15]),
            parse_time(s.subrange(22, 34)),
            parse_time(s.subrange(35, 47)),
        ) {
            (Some(event_class), Some(action), Some(significance), Some(start), Some(end)) => Some(
                PvtecView {
                    raw: s,
                    event_class,
                    action,
                    office_id: s.subrange(7, 11),
                    phenomenon: phenomenon_of(s[12], s[13]),
                    significance,
                    event_tracking_number: number::digits_value(s.subrange(17, 21)) as u16,
                    start,
                    end,
                },
            ),
            _ => None,
        }
    } else {
        None
    }
}

impl Pvtec {
    /// The times, if any, are of representable dates.
    #[verifier::type_invariant]
    spec fn times_in_range(&self) -> bool {
        self.start.wf() && self.end.wf()
    }

    pub fn parse(s: &[char]) -> (r: Result<Pvtec>)
        ensures
            match r {
                Ok(p) => parse_pvtec(s@) == Some(p.deep_view()),
                Err(e) => parse_pvtec(s@) is None && e.kind == ErrorKind::InvalidField(
                    Field::Pvtec,
                ),
            },
    {
        let bad = ParseError::new(ErrorKind::InvalidField(Field::Pvtec));
        if s.len() != 48 || s[0] != '/' || s[2] != '.' || s[6] != '.' || s[11] != '.' || s[14]
            != '.' || s[16] != '.' || s[21] != '.' || s[34] != '-' || s[47] != '/' {
            return Err(bad);
        }
        let office = slice_subrange(s, 7, 11);
        let etn = slice_subrange(s, 17, 21);
        if !header::upper_alnum(office, 4) || !header::letters(slice_subrange(s, 12, 14), 2)
            || !number::only_digits(etn) {
            return Err(bad);
        }
        match (
            read_event_class(s[1]),
            read_action(slice_subrange(s, 3, 6)),
            read_significance(s[15]),
            read_time(slice_subrange(s, 22, 34)),
            read_time(slice_subrange(s, 35, 47)),
        ) {
            (Some(event_class), Some(action), Some(significance), Some(start), Some(end)) => {
                proof {
                    number::lemma_digits_value_bound(etn@);
                }
                let event_tracking_number: u16 = match number::digits_upto(etn, 9999) {
                    Some(v) => v as u16,
                    None => 0,
                };
                Ok(
                    Pvtec {
                        raw: text::to_text(s),
                        event_class,
                        action,
                        office_id: text::to_text(office),
                        phenomenon: read_phenomenon(s[12], s[13]),
                        significance,
                        event_tracking_number,
                        start,
                        end,
                    },
                )
            },
            _ => Err(bad),
        }
    }

    pub fn raw(&self) -> (r: &str)
        ensures
            r@ == self.deep_view().raw,
    {
        self.raw.as_str()
    }

    pub fn event_class(&self) -> (r: EventClass)
        ensures
            r == self.deep_view().event_class,
    {
        self.event_class
    }

    pub fn action(&self) -> (r: VtecAction)
        ensures
            r == self.deep_view().action,
    {
        self.action
    }

    pub fn office_id(&self) -> (r: &str)
        ensures
            r@ == self.deep_view().office_id,
    {
        self.office_id.as_str()
    }

    pub fn phenomenon(&self) -> (r: Phenomenon)
        ensures
            r == self.deep_view().phenomenon,
    {
        self.phenomenon
    }

    pub fn significance(&self) -> (r: Significance)
        ensures
            r == self.deep_view().significance,
    {
        self.significance
    }

    pub fn event_tracking_number(&self) -> (r: u16)
        ensures
            r == self.deep_view().event_tracking_number,
    {
        self.event_tracking_number
    }

    pub fn start_time(&self) -> (r: VtecTime)
        ensures
            clock::opt_int(r.instant) == self.deep_view().start,
            r.wf(),
    {
        proof {
            use_type_invariant(self);
        }
        self.start
    }

    pub fn end_time(&self) -> (r: VtecTime)
        ensures
            clock::opt_int(r.instant) == self.deep_view().end,
            r.wf(),
    {
        proof {
            use_type_invariant(self);
        }
        self.end
    }
}

// ---------------------------------------------------------------------------
// H-VTEC
// ---------------------------------------------------------------------------

/// A hydrologic VTEC line
/// `/nwsli.s.ic.yymmddThhnnZ.yymmddThhnnZ.yymmddThhnnZ.fr/`.
#[derive(Debug, Clone, PartialEq, Eq)]
pub struct Hvtec {
    raw: String,
}

impl DeepView for Hvtec {
    type V = Seq<char>;

    closed spec fn deep_view(&self) -> Seq<char> {
        self.raw@
    }
}

/// Whether `s` is a hydrologic VTEC line.
pub open spec fn is_hvtec(s: Seq<char>) -> bool {
    &&& s.len() == 54
    &&& s[0] == '/'
    &&& s[6] == '.'
    &&& s[8] == '.'
    &&& s[11] == '.'
    &&& s[24] == '.'
    &&& s[37] == '.'
    &&& s[50] == '.'
    &&& s[53] == '/'
    &&& header::is_upper_alnum(s.subrange(1, 6), 5)
    &&& (text::is_upper(s[7]) || text::is_digit(s[7]))
    &&& header::is_letters(s.subrange(9, 11), 2)
    &&& parse_time(s.subrange(12, 24)) is Some
    &&& parse_time(s.subrange(25, 37)) is Some
    &&& parse_time(s.subrange(38, 50)) is Some
    &&& header::is_letters(s.subrange(51, 53), 2)
}

impl Hvtec {
    pub fn parse(s: &[char]) -> (r: Result<Hvtec>)
        ensures
            match r {
                Ok(h) => is_hvtec(s@) && h.deep_view() == s@,
                Err(e) => !is_hvtec(s@) && e.kind == ErrorKind::InvalidField(Field::Hvtec),
            },
    {
        let bad = ParseError::new(ErrorKind::InvalidField(Field::Hvtec));
        if s.len() != 54 || s[0] != '/' || s[6] != '.' || s[8] != '.' || s[11] != '.' || s[24]
            != '.' || s[37] != '.' || s[50] != '.' || s[53] != '/' {
            return Err(bad);
        }
        if !header::upper_alnum(slice_subrange(s, 1, 6), 5) || !(text::upper_letter(s[7])
            || text::digit(s[7])) || !header::letters(slice_subrange(s, 9, 11), 2) || read_time(
            slice_subrange(s, 12, 24),
        ).is_none() || read_time(slice_subrange(s, 25, 37)).is_none() || read_time(
            slice_subrange(s, 38, 50),
        ).is_none() || !header::letters(slice_subrange(s, 51, 53), 2) {
            return Err(bad);
        }
        Ok(Hvtec { raw: text::to_text(s) })
    }

    pub fn raw(&self) -> (r: &str)
        ensures
            r@ == self.deep_view(),
    {
        self.raw.as_str()
    }
}

} // verus!
