//! The rules of the HTTP service: filters, query windows and ingest status.

use vstd::prelude::*;

use crate::clock;
use crate::digest;
use crate::families;
use crate::number;
use crate::oi::{NwwsOiPayload, OiPayloadView};
use crate::oi;
use crate::product::ProductFamily;
use crate::runtime::{ArchiveRecord, ArchiveRecordView, ArchivedMetadata, MetadataView};
use crate::text;

verus! {

/// The longest lookback window in days.
pub const MAX_LOOKBACK_DAYS: u32 = 92;

/// The largest number of recent products that is handed out.
pub const MAX_RECENT_LIMIT: usize = 1000;

// ---------------------------------------------------------------------------
// Live products
// ---------------------------------------------------------------------------

/// One live product as it is published to subscribers.
#[derive(Debug, Clone, PartialEq, Eq)]
pub struct LiveProduct {
    pub fingerprint: Option<String>,
    pub duplicate: bool,
    pub cccc: String,
    pub ttaaii: String,
    pub awips_id: String,
    pub issue: Option<String>,
    pub metadata: Option<ArchivedMetadata>,
    pub raw_bulletin: String,
}

pub struct LiveProductView {
    pub fingerprint: Option<Seq<char>>,
    pub duplicate: bool,
    pub cccc: Seq<char>,
    pub ttaaii: Seq<char>,
    pub awips_id: Seq<char>,
    pub issue: Option<Seq<char>>,
    pub metadata: Option<MetadataView>,
    pub raw_bulletin: Seq<char>,
}

impl DeepView for LiveProduct {
    type V = LiveProductView;

    open spec fn deep_view(&self) -> LiveProductView {
        LiveProductView {
            fingerprint: self.fingerprint.deep_view(),
            duplicate: self.duplicate,
            cccc: self.cccc@,
            ttaaii: self.ttaaii@,
            awips_id: self.awips_id@,
            issue: self.issue.deep_view(),
            metadata: self.metadata.deep_view(),
            raw_bulletin: self.raw_bulletin@,
        }
    }
}

/// The product of a payload, with the first copy of it that was archived.
pub open spec fn live_product(
    payload: OiPayloadView,
    duplicate: bool,
    record: Option<ArchiveRecordView>,
) -> LiveProductView {
    LiveProductView {
        fingerprint: match record {
            Some(r) => Some(r.fingerprint),
            None => None,
        },
        duplicate,
        cccc: payload.cccc,
        ttaaii: payload.ttaaii,
        awips_id: payload.awips_id,
        issue: oi::written_issue(payload),
        metadata: match record {
            Some(r) => Some(r.metadata),
            None => None,
        },
        raw_bulletin: payload.raw_bulletin,
    }
}

/// The first record, if there is one.
pub open spec fn first_record(records: Seq<ArchiveRecordView>) -> Option<ArchiveRecordView> {
    if records.len() > 0 {
        Some(records[0])
    } else {
        None
    }
}

impl LiveProduct {
    /// The product of a payload, with the first copy of it that was archived.
    pub fn from_payload(payload: &NwwsOiPayload, duplicate: bool, records: &Vec<ArchiveRecord>) -> (r:
        LiveProduct)
        ensures
            r.deep_view() == live_product(
                payload.deep_view(),
                duplicate,
                first_record(records.deep_view()),
            ),
    {
        assert(records.deep_view().len() == records@.len());
        let (fingerprint, metadata): (Option<String>, Option<ArchivedMetadata>) = if records.len()
            > 0 {
            assert(records.deep_view()[0] == records@[0].deep_view());
            (Some(records[0].fingerprint.clone()), Some(records[0].metadata.copy()))
        } else {
            (None, None)
        };
        LiveProduct {
            fingerprint,
            duplicate,
            cccc: payload.cccc.clone(),
            ttaaii: payload.ttaaii.clone(),
            awips_id: payload.awips_id.clone(),
            issue: payload.issue.to_rfc3339(),
            metadata,
            raw_bulletin: payload.raw_bulletin.clone(),
        }
    }
}

// ---------------------------------------------------------------------------
// Filters
// ---------------------------------------------------------------------------

/// Whether two texts are equal but for the case of ASCII letters.
pub open spec fn same_ignoring_case(a: Seq<char>, b: Seq<char>) -> bool {
    text::lower(a) == text::lower(b)
}

fn equal_ignoring_case(a: &str, b: &str) -> (r: bool)
    ensures
        r == same_ignoring_case(a@, b@),
{
    let x = text::to_chars(a);
    let y = text::to_chars(b);
    let x = text::to_lower(x.as_slice());
    let y = text::to_lower(y.as_slice());
    text::same(x.as_slice(), y.as_slice())
}

/// Whether a text begins with another but for the case of ASCII letters.
pub open spec fn begins_ignoring_case(s: Seq<char>, prefix: Seq<char>) -> bool {
    text::starts_with(text::upper(s), text::upper(prefix))
}

fn prefix_ignoring_case(s: &str, prefix: &str) -> (r: bool)
    ensures
        r == begins_ignoring_case(s@, prefix@),
{
    let x = text::to_chars(s);
    let y = text::to_chars(prefix);
    let x = text::to_upper(x.as_slice());
    let y = text::to_upper(y.as_slice());
    text::begins(x.as_slice(), y.as_slice())
}

/// What a subscriber wants to see; a part that is not given lets all pass.
#[derive(Debug, Clone, Default, PartialEq, Eq)]
pub struct StreamFilter {
    pub office: Option<String>,
    pub pil: Option<String>,
    pub family: Option<String>,
}

pub struct FilterView {
    pub office: Option<Seq<char>>,
    pub pil: Option<Seq<char>>,
    pub family: Option<Seq<char>>,
}

impl DeepView for StreamFilter {
    type V = FilterView;

    open spec fn deep_view(&self) -> FilterView {
        FilterView {
            office: self.office.deep_view(),
            pil: self.pil.deep_view(),
            family: self.family.deep_view(),
        }
    }
}

/// Whether a live product passes a filter: its office is the one given, its
/// AWIPS identifier begins with the one given, and its family, which only an
/// archived product has, is the one given.
pub open spec fn filter_passes(filter: FilterView, product: LiveProductView) -> bool {
    &&& filter.office matches Some(office) ==> same_ignoring_case(product.cccc, office)
    &&& filter.pil matches Some(pil) ==> begins_ignoring_case(product.awips_id, pil)
    &&& filter.family matches Some(family) ==> product.metadata is Some && same_ignoring_case(
        families::family_slug_text(product.metadata->0.family),
        family,
    )
}

impl StreamFilter {
    /// Whether a live product passes.
    pub fn matches(&self, product: &LiveProduct) -> (r: bool)
        ensures
            r == filter_passes(self.deep_view(), product.deep_view()),
    {
        if let Some(office) = &self.office {
            if !equal_ignoring_case(product.cccc.as_str(), office.as_str()) {
                return false;
            }
        }
        if let Some(pil) = &self.pil {
            if !prefix_ignoring_case(product.awips_id.as_str(), pil.as_str()) {
                return false;
            }
        }
        if let Some(family) = &self.family {
            match &product.metadata {
                None => {
                    return false;
                },
                Some(metadata) => {
                    if !equal_ignoring_case(
                        families::family_slug(metadata.family),
                        family.as_str(),
                    ) {
                        return false;
                    }
                },
            }
        }
        true
    }
}

/// The names that stored metadata gives families.
pub open spec fn stored_family(name: Seq<char>) -> Option<ProductFamily> {
    if name == "Tornado"@ {
        Some(ProductFamily::Tornado)
    } else if name == "SevereThunderstorm"@ {
        Some(ProductFamily::SevereThunderstorm)
    } else if name == "FlashFlood"@ {
        Some(ProductFamily::FlashFlood)
    } else if name == "Flood"@ {
        Some(ProductFamily::Flood)
    } else if name == "Marine"@ {
        Some(ProductFamily::Marine)
    } else if name == "Discussion"@ {
        Some(ProductFamily::Discussion)
    } else if name == "Forecast"@ {
        Some(ProductFamily::Forecast)
    } else if name == "Statement"@ {
        Some(ProductFamily::Statement)
    } else if name == "Hydrology"@ {
        Some(ProductFamily::Hydrology)
    } else if name == "Watch"@ {
        Some(ProductFamily::Watch)
    } else if name == "Advisory"@ {
        Some(ProductFamily::Advisory)
    } else if name == "Administrative"@ {
        Some(ProductFamily::Administrative)
    } else if name == "Unknown"@ {
        Some(ProductFamily::Unknown)
    } else {
        None
    }
}

/// The family of a name in stored metadata.
pub fn family_from_stored(name: &str) -> (r: Option<ProductFamily>)
    ensures
        r == stored_family(name@),
{
    let n = text::to_chars(name);
    let n = n.as_slice();
    if text::is_str(n, "Tornado") {
        Some(ProductFamily::Tornado)
    } else if text::is_str(n, "SevereThunderstorm") {
        Some(ProductFamily::SevereThunderstorm)
    } else if text::is_str(n, "FlashFlood") {
        Some(ProductFamily::FlashFlood)
    } else if text::is_str(n, "Flood") {
        Some(ProductFamily::Flood)
    } else if text::is_str(n, "Marine") {
        Some(ProductFamily::Marine)
    } else if text::is_str(n, "Discussion") {
        Some(ProductFamily::Discussion)
    } else if text::is_str(n, "Forecast") {
        Some(ProductFamily::Forecast)
    } else if text::is_str(n, "Statement") {
        Some(ProductFamily::Statement)
    } else if text::is_str(n, "Hydrology") {
        Some(ProductFamily::Hydrology)
    } else if text::is_str(n, "Watch") {
        Some(ProductFamily::Watch)
    } else if text::is_str(n, "Advisory") {
        Some(ProductFamily::Advisory)
    } else if text::is_str(n, "Administrative") {
        Some(ProductFamily::Administrative)
    } else if text::is_str(n, "Unknown") {
        Some(ProductFamily::Unknown)
    } else {
        None
    }
}

/// The directory name of a stored family; unknown names count as unknown.
pub open spec fn stored_slug(name: Seq<char>) -> Seq<char> {
    match stored_family(name) {
        Some(family) => families::family_slug_text(family),
        None => "unknown"@,
    }
}

/// The parts of stored metadata that queries look at. Absent parts are empty.
#[derive(Debug, Clone, PartialEq, Eq)]
pub struct Sidecar {
    pub cccc: String,
    pub awips_id: String,
    pub family: String,
}

/// Whether stored metadata passes a filter: office and AWIPS identifier as for
/// live products, the family by its directory name or its stored name.
pub open spec fn sidecar_passes(
    filter: FilterView,
    cccc: Seq<char>,
    awips_id: Seq<char>,
    family: Seq<char>,
) -> bool {
    &&& filter.office matches Some(office) ==> same_ignoring_case(cccc, office)
    &&& filter.pil matches Some(pil) ==> begins_ignoring_case(awips_id, pil)
    &&& filter.family matches Some(wanted) ==> same_ignoring_case(stored_slug(family), wanted)
        || same_ignoring_case(family, wanted)
}

/// Whether stored metadata passes a filter.
pub fn sidecar_matches(metadata: &Sidecar, filter: &StreamFilter) -> (r: bool)
    ensures
        r == sidecar_passes(
            filter.deep_view(),
            metadata.cccc@,
            metadata.awips_id@,
            metadata.family@,
        ),
{
    if let Some(office) = &filter.office {
        if !equal_ignoring_case(metadata.cccc.as_str(), office.as_str()) {
            return false;
        }
    }
    if let Some(pil) = &filter.pil {
        if !prefix_ignoring_case(metadata.awips_id.as_str(), pil.as_str()) {
            return false;
        }
    }
    if let Some(wanted) = &filter.family {
        let slug: &'static str = match family_from_stored(metadata.family.as_str()) {
            Some(family) => families::family_slug(family),
            None => "unknown",
        };
        if !equal_ignoring_case(slug, wanted.as_str()) && !equal_ignoring_case(
            metadata.family.as_str(),
            wanted.as_str(),
        ) {
            return false;
        }
    }
    true
}

/// Whether a family directory can hold messages with warning VTEC lines.
/// Discussions, forecasts and administrative messages are the bulk of the
/// feed and never do.
pub open spec fn relevant_family(name: Seq<char>) -> bool {
    name != "discussion"@ && name != "forecast"@ && name != "administrative"@
}

/// Whether a family directory can hold messages with warning VTEC lines.
pub fn vtec_relevant_family(family_dir: &str) -> (r: bool)
    ensures
        r == relevant_family(family_dir@),
{
    let name = text::to_chars(family_dir);
    !text::is_str(name.as_slice(), "discussion") && !text::is_str(name.as_slice(), "forecast")
        && !text::is_str(name.as_slice(), "administrative")
}

/// Whether a file is a metadata file.
pub open spec fn is_sidecar(extension: Option<Seq<char>>) -> bool {
    extension == Some("json"@)
}

/// Whether a file with the extension is a metadata file.
pub fn is_sidecar_file(extension: Option<&str>) -> (r: bool)
    ensures
        r == is_sidecar(
            match extension {
                Some(e) => Some(e@),
                None => None,
            },
        ),
{
    match extension {
        Some(e) => {
            let chars = text::to_chars(e);
            text::is_str(chars.as_slice(), "json")
        },
        None => false,
    }
}

/// Whether a file of an archive is scanned for warnings: a record, of a family
/// that can hold them unless all are asked for.
pub fn scans_record(extension: Option<&str>, family_dir: &str, all_families: bool) -> (r: bool)
    ensures
        r == (!is_sidecar(
            match extension {
                Some(e) => Some(e@),
                None => None,
            },
        ) && (all_families || relevant_family(family_dir@))),
{
    !is_sidecar_file(extension) && (all_families || vtec_relevant_family(family_dir))
}

/// Every family that live warnings are archived under is scanned.
pub proof fn warning_families_are_relevant(family: ProductFamily)
    requires
        family != ProductFamily::Discussion,
        family != ProductFamily::Forecast,
        family != ProductFamily::Administrative,
    ensures
        relevant_family(families::family_slug_text(family)),
{
    reveal_strlit("discussion");
    reveal_strlit("forecast");
    reveal_strlit("administrative");
    reveal_strlit("tornado");
    reveal_strlit("severe_thunderstorm");
    reveal_strlit("flash_flood");
    reveal_strlit("flood");
    reveal_strlit("marine");
    reveal_strlit("statement");
    reveal_strlit("hydrology");
    reveal_strlit("watch");
    reveal_strlit("advisory");
    reveal_strlit("unknown");
    let s = families::family_slug_text(family);
    assert("discussion"@[0] == 'd');
    assert("forecast"@[2] == 'r');
    assert("administrative"@.len() == 14);
    match family {
        ProductFamily::FlashFlood => {
            assert("flash_flood"@[2] == 'a');
        },
        ProductFamily::Flood => {
            assert("flood"@[2] == 'o');
        },
        ProductFamily::Advisory => {
            assert("advisory"@.len() == 8);
        },
        ProductFamily::Tornado => {
            assert("tornado"@[0] == 't');
        },
        ProductFamily::SevereThunderstorm => {
            assert("severe_thunderstorm"@[0] == 's');
        },
        ProductFamily::Marine => {
            assert("marine"@[0] == 'm');
        },
        ProductFamily::Statement => {
            assert("statement"@[0] == 's');
        },
        ProductFamily::Hydrology => {
            assert("hydrology"@[0] == 'h');
        },
        ProductFamily::Watch => {
            assert("watch"@[0] == 'w');
        },
        _ => {
            assert("unknown"@[0] == 'u');
        },
    }
}

// ---------------------------------------------------------------------------
// Queries
// ---------------------------------------------------------------------------

/// The window of a query: the one asked for, else the default, but at least a
/// day and at most the longest.
pub open spec fn lookback(asked: Option<u32>, default: u32) -> u32 {
    let days = match asked {
        Some(d) => d,
        None => default,
    };
    if days < 1 {
        1
    } else if days > MAX_LOOKBACK_DAYS {
        MAX_LOOKBACK_DAYS
    } else {
        days
    }
}

/// The window of a query.
pub fn lookback_days(asked: Option<u32>, default: u32) -> (r: u32)
    ensures
        r == lookback(asked, default),
        1 <= r <= MAX_LOOKBACK_DAYS,
{
    let days: u32 = match asked {
        Some(d) => d,
        None => default,
    };
    if days < 1 {
        1
    } else if days > MAX_LOOKBACK_DAYS {
        MAX_LOOKBACK_DAYS
    } else {
        days
    }
}

/// The number of recent products that is handed out: the one asked for, else
/// one hundred, but at least one and at most the largest.
pub fn recent_limit(asked: Option<usize>) -> (r: usize)
    ensures
        r == (match asked {
            Some(n) => if n < 1 {
                1
            } else if n > MAX_RECENT_LIMIT {
                MAX_RECENT_LIMIT
            } else {
                n
            },
            None => 100,
        }),
        1 <= r <= 1000,
        asked is Some && 1 <= asked->0 <= 1000 ==> r == asked->0,
        asked is None ==> r == 100,
{
    match asked {
        Some(n) => if n < 1 {
            1
        } else if n > MAX_RECENT_LIMIT {
            MAX_RECENT_LIMIT
        } else {
            n
        },
        None => 100,
    }
}

/// A reference time: an instant and the UTC offset it was written with.
#[derive(Debug, Clone, Copy, PartialEq, Eq, Structural)]
pub struct Reference {
    pub nanos: i128,
    pub offset: i32,
}

/// A reference time that cannot be read, with the reason.
#[derive(Debug, Clone, PartialEq, Eq)]
pub struct InvalidReference {
    pub reason: String,
}

impl InvalidReference {
    pub open spec fn spec_message(&self) -> Seq<char> {
        "invalid 'at' (want RFC3339 UTC, e.g. 2026-06-09T05:51:00Z): "@ + self.reason@
    }

    pub fn message(&self) -> (r: String)
        ensures
            r@ == self.spec_message(),
    {
        let mut v = text::to_chars("invalid 'at' (want RFC3339 UTC, e.g. 2026-06-09T05:51:00Z): ");
        text::push_str(&mut v, self.reason.as_str());
        text::to_text(v.as_slice())
    }
}

/// The reference time of a query: the present where none or `now` is given,
/// else what the text stands for, or the reason why it stands for nothing.
pub open spec fn reference_of(at: Option<Seq<char>>, now: i128) -> Result<(int, int), Seq<char>> {
    match at {
        None => Ok((now as int, 0)),
        Some(s) => if s == "now"@ {
            Ok((now as int, 0))
        } else {
            clock::rfc3339_reading(s)
        },
    }
}

/// Whether the local date of a reference time is representable.
pub open spec fn has_date(r: Reference) -> bool {
    clock::FIRST_INSTANT <= r.nanos + r.offset * clock::NANOS_PER_SECOND < clock::END_INSTANT
        && clock::is_offset(r.offset as int)
}

/// Reads the reference time of a query.
pub fn parse_reference(at: Option<&str>, now: i128) -> (r: Result<Reference, InvalidReference>)
    requires
        clock::FIRST_INSTANT <= now < clock::END_INSTANT,
    ensures
        reference_of(
            match at {
                Some(s) => Some(s@),
                None => None,
            },
            now,
        ) == (match r {
            Ok(t) => Ok((t.nanos as int, t.offset as int)),
            Err(e) => Err(e.reason@),
        }),
        r matches Ok(t) ==> has_date(t),
{
    match at {
        None => Ok(Reference { nanos: now, offset: 0 }),
        Some(value) => {
            let chars = text::to_chars(value);
            if text::is_str(chars.as_slice(), "now") {
                return Ok(Reference { nanos: now, offset: 0 });
            }
            match clock::parse_rfc3339(value) {
                Ok((nanos, offset)) => Ok(Reference { nanos, offset }),
                Err(reason) => Err(InvalidReference { reason }),
            }
        },
    }
}

/// The Julian day of the local date of a reference time.
pub open spec fn reference_day(r: Reference) -> int {
    clock::julian_of(r.nanos + r.offset * clock::NANOS_PER_SECOND)
}

/// The days that a query looks at, first and last: `days - 1` on either side
/// of the reference, as far as there are dates, but none after today.
pub open spec fn day_window(reference: int, today: int, days: u32) -> (int, int) {
    let span: int = if days > 0 {
        days - 1
    } else {
        0
    };
    let first = if reference - span < clock::FIRST_JULIAN_DAY {
        clock::FIRST_JULIAN_DAY as int
    } else {
        reference - span
    };
    let last = if reference + span > clock::LAST_JULIAN_DAY || reference + span > today {
        today
    } else {
        reference + span
    };
    (first, last)
}

/// A query never looks at more than the window on either side of its
/// reference, and never beyond today.
pub proof fn window_is_bounded(reference: int, today: int, days: u32)
    requires
        clock::FIRST_JULIAN_DAY <= reference <= clock::LAST_JULIAN_DAY,
        clock::FIRST_JULIAN_DAY <= today <= clock::LAST_JULIAN_DAY,
        days > 0,
    ensures
        day_window(reference, today, days).1 <= today,
        reference - day_window(reference, today, days).0 < days,
        day_window(reference, today, days).1 - reference < days || reference + days - 1
            > clock::LAST_JULIAN_DAY,
        reference <= today ==> day_window(reference, today, days).0 <= reference <= day_window(
            reference,
            today,
            days,
        ).1,
{
}

/// A year in directories: four places, the sign being one of them.
pub open spec fn year_text(year: int) -> Seq<char> {
    if year >= 0 {
        number::padded(year as nat, 4)
    } else {
        seq!['-'] + number::padded((-year) as nat, 3)
    }
}

/// The directory of a day.
pub open spec fn day_directory(julian: int) -> Seq<char> {
    let date = clock::calendar(julian);
    year_text(date.0) + seq!['/'] + number::padded(date.1 as nat, 2) + seq!['/'] + number::padded(
        date.2 as nat,
        2,
    )
}

/// The directories of the days of a window.
pub open spec fn day_directories(window: (int, int)) -> Seq<Seq<char>> {
    Seq::new(
        if window.0 <= window.1 {
            (window.1 - window.0 + 1) as nat
        } else {
            0
        },
        |i: int| day_directory(window.0 + i),
    )
}

fn write_day(julian: i64) -> (r: String)
    requires
        clock::FIRST_JULIAN_DAY <= julian <= clock::LAST_JULIAN_DAY,
    ensures
        r@ == day_directory(julian as int),
{
    let (year, month, day) = clock::date_of_julian(julian);
    let mut v: Vec<char> = Vec::new();
    if year >= 0 {
        let y = number::to_padded(year as u64, 4);
        text::push_all(&mut v, y.as_slice());
        assert(v@ =~= year_text(year as int));
    } else {
        v.push('-');
        let y = number::to_padded((-year) as u64, 3);
        text::push_all(&mut v, y.as_slice());
        assert(v@ =~= year_text(year as int));
    }
    v.push('/');
    let m = number::to_padded(month as u64, 2);
    text::push_all(&mut v, m.as_slice());
    v.push('/');
    let d = number::to_padded(day as u64, 2);
    text::push_all(&mut v, d.as_slice());
    assert(v@ =~= day_directory(julian as int));
    text::to_text(v.as_slice())
}

/// The day directories that a query looks at, from the first to the last.
pub fn day_dirs(reference: Reference, today: i128, days: u32) -> (r: Vec<String>)
    requires
        has_date(reference),
        clock::FIRST_INSTANT <= today < clock::END_INSTANT,
    ensures
        r.deep_view() == day_directories(
            day_window(reference_day(reference), clock::julian_of(today as int), days),
        ),
{
    let local: i128 = reference.nanos + reference.offset as i128 * clock::NANOS_PER_SECOND;
    let center: i64 = clock::julian_day_of(local);
    let now: i64 = clock::julian_day_of(today);
    let span: i64 = if days > 0 {
        days as i64 - 1
    } else {
        0
    };
    let first: i64 = if center - span < clock::FIRST_JULIAN_DAY {
        clock::FIRST_JULIAN_DAY
    } else {
        center - span
    };
    let last: i64 = if center + span > clock::LAST_JULIAN_DAY || center + span > now {
        now
    } else {
        center + span
    };
    let ghost window = (first as int, last as int);
    let mut out: Vec<String> = Vec::new();
    let mut day: i64 = first;
    while day <= last
        invariant
            clock::FIRST_JULIAN_DAY <= first <= day,
            last <= clock::LAST_JULIAN_DAY,
            first <= last ==> day <= last + 1,
            first > last ==> day == first,
            window == (first as int, last as int),
            out@.len() == day - first,
            forall|k: int|
                0 <= k < out@.len() ==> (#[trigger] out@[k])@ == day_directory(first + k),
        decreases last + 1 - day,
    {
        out.push(write_day(day));
        day += 1;
    }
    assert(out.deep_view() =~= day_directories(window));
    out
}

/// Whether a text can be a fingerprint: it is not empty and made of ASCII
/// letters and digits.
pub open spec fn can_be_fingerprint(s: Seq<char>) -> bool {
    s.len() > 0 && forall|i: int| 0 <= i < s.len() ==> text::is_alnum(#[trigger] s[i])
}

/// Whether a text can be a fingerprint.
pub fn is_fingerprint(s: &str) -> (r: bool)
    ensures
        r == can_be_fingerprint(s@),
{
    let chars = text::to_chars(s);
    if chars.len() == 0 {
        return false;
    }
    let mut i: usize = 0;
    while i < chars.len()
        invariant
            i <= chars@.len(),
            chars@ == s@,
            forall|k: int| 0 <= k < i ==> text::is_alnum(#[trigger] chars@[k]),
        decreases chars.len() - i,
    {
        if !text::alnum(chars[i]) {
            return false;
        }
        i += 1;
    }
    true
}

/// Every text of sixty-four hexadecimal digits, as fingerprints of messages
/// are, can be looked up.
pub proof fn message_fingerprints_can_be_looked_up(s: Seq<char>)
    requires
        s.len() == 64,
        forall|i: int| 0 <= i < s.len() ==> digest::is_hex_digit(#[trigger] s[i]),
    ensures
        can_be_fingerprint(s),
{
}

/// The names of the files that can hold the raw bytes beside a metadata file,
/// in the order they are tried.
pub fn raw_sibling_names(stem: &str) -> (r: Vec<String>)
    ensures
        r.deep_view() == seq![stem@ + ".xml"@, stem@ + ".txt"@, stem@ + ".wmo"@],
{
    let mut out: Vec<String> = Vec::new();
    let mut xml = text::to_chars(stem);
    text::push_str(&mut xml, ".xml");
    let mut txt = text::to_chars(stem);
    text::push_str(&mut txt, ".txt");
    let mut wmo = text::to_chars(stem);
    text::push_str(&mut wmo, ".wmo");
    out.push(text::to_text(xml.as_slice()));
    out.push(text::to_text(txt.as_slice()));
    out.push(text::to_text(wmo.as_slice()));
    assert(out.deep_view() =~= seq![stem@ + ".xml"@, stem@ + ".txt"@, stem@ + ".wmo"@]);
    out
}

/// The name of the metadata file of a fingerprint.
pub fn sidecar_name(fingerprint: &str) -> (r: String)
    ensures
        r@ == fingerprint@ + ".json"@,
{
    let mut v = text::to_chars(fingerprint);
    text::push_str(&mut v, ".json");
    text::to_text(v.as_slice())
}

// ---------------------------------------------------------------------------
// Recent products
// ---------------------------------------------------------------------------

/// Whether a capture time comes no later in a list of the newest than another;
/// unknown ones come last.
pub open spec fn not_older(a: Option<int>, b: Option<int>) -> bool {
    match (a, b) {
        (Some(x), Some(y)) => x >= y,
        (Some(_), None) => true,
        (None, None) => true,
        (None, Some(_)) => false,
    }
}

fn at_least_as_new(a: Option<i128>, b: Option<i128>) -> (r: bool)
    ensures
        r == not_older(clock::opt_int(a), clock::opt_int(b)),
{
    match (a, b) {
        (Some(x), Some(y)) => x >= y,
        (Some(_), None) => true,
        (None, None) => true,
        (None, Some(_)) => false,
    }
}

/// The order with position `n` put behind the last one that is not older.
pub open spec fn placed(order: Seq<int>, times: Seq<Option<int>>, n: int) -> Seq<int>
    decreases order.len(),
{
    if order.len() == 0 || not_older(times[order.last()], times[n]) {
        order.push(n)
    } else {
        placed(order.drop_last(), times, n).push(order.last())
    }
}

/// The first `n` positions, newest first; those of the same time keep their
/// order.
pub open spec fn newest_first(times: Seq<Option<int>>, n: int) -> Seq<int>
    decreases n,
{
    if n <= 0 {
        Seq::empty()
    } else {
        placed(newest_first(times, n - 1), times, n - 1)
    }
}

/// Whether no position is older than a later one.
pub open spec fn newest_in_order(order: Seq<int>, times: Seq<Option<int>>) -> bool {
    forall|i: int, j: int|
        #![trigger order[i], order[j]]
        0 <= i < j < order.len() ==> not_older(times[order[i]], times[order[j]])
}

proof fn lemma_placed(order: Seq<int>, times: Seq<Option<int>>, n: int)
    requires
        newest_in_order(order, times),
    ensures
        newest_in_order(placed(order, times, n), times),
        placed(order, times, n).len() == order.len() + 1,
        placed(order, times, n).contains(n),
        forall|x: int| order.contains(x) ==> #[trigger] placed(order, times, n).contains(x),
        forall|i: int|
            0 <= i <= order.len() ==> (#[trigger] placed(order, times, n)[i] == n || order.contains(
                placed(order, times, n)[i],
            )),
    decreases order.len(),
{
    let r = placed(order, times, n);
    if order.len() == 0 || not_older(times[order.last()], times[n]) {
        assert(r.last() == n);
        assert forall|x: int| order.contains(x) implies #[trigger] r.contains(x) by {
            let k = choose|k: int| 0 <= k < order.len() && order[k] == x;
            assert(r[k] == x);
        }
        assert forall|i: int| 0 <= i <= order.len() implies (#[trigger] r[i] == n
            || order.contains(r[i])) by {
            if i < order.len() {
                assert(r[i] == order[i]);
            }
        }
    } else {
        let rest = order.drop_last();
        let inner = placed(rest, times, n);
        assert forall|i: int, j: int|
            #![trigger rest[i], rest[j]]
            0 <= i < j < rest.len() implies not_older(times[rest[i]], times[rest[j]]) by {
            assert(rest[i] == order[i] && rest[j] == order[j]);
        }
        lemma_placed(rest, times, n);
        assert forall|x: int| order.contains(x) implies #[trigger] r.contains(x) by {
            let k = choose|k: int| 0 <= k < order.len() && order[k] == x;
            if k < rest.len() {
                assert(rest[k] == x);
                assert(inner.contains(x));
                let m = choose|m: int| 0 <= m < inner.len() && inner[m] == x;
                assert(r[m] == x);
            } else {
                assert(r.last() == x);
            }
        }
        assert(r.contains(n)) by {
            let m = choose|m: int| 0 <= m < inner.len() && inner[m] == n;
            assert(r[m] == n);
        }
        assert forall|i: int| 0 <= i <= order.len() implies (#[trigger] r[i] == n
            || order.contains(r[i])) by {
            if i < order.len() {
                assert(r[i] == inner[i]);
                if inner[i] != n {
                    assert(rest.contains(inner[i]));
                    let k = choose|k: int| 0 <= k < rest.len() && rest[k] == inner[i];
                    assert(order[k] == inner[i]);
                }
            } else {
                assert(r[i] == order.last());
                assert(order.contains(order[order.len() - 1]));
            }
        }
        assert forall|i: int, j: int|
            #![trigger r[i], r[j]]
            0 <= i < j < r.len() implies not_older(times[r[i]], times[r[j]]) by {
            assert(r[i] == inner[i]);
            if j < inner.len() {
                assert(r[j] == inner[j]);
            } else {
                assert(r[j] == order.last());
                if inner[i] != n {
                    assert(rest.contains(inner[i]));
                    let k = choose|k: int| 0 <= k < rest.len() && rest[k] == inner[i];
                    assert(order[k] == inner[i]);
                }
            }
        }
    }
}

/// The newest come first, and every position is listed once.
pub proof fn newest_first_is_in_order(times: Seq<Option<int>>, n: int)
    requires
        0 <= n <= times.len(),
    ensures
        newest_in_order(newest_first(times, n), times),
        newest_first(times, n).len() == n,
        forall|i: int| 0 <= i < n ==> #[trigger] newest_first(times, n).contains(i),
        forall|i: int| 0 <= i < n ==> 0 <= #[trigger] newest_first(times, n)[i] < n,
    decreases n,
{
    if n > 0 {
        newest_first_is_in_order(times, n - 1);
        let before = newest_first(times, n - 1);
        lemma_placed(before, times, n - 1);
        let r = newest_first(times, n);
        assert forall|i: int| 0 <= i < n implies 0 <= #[trigger] r[i] < n by {
            if r[i] != n - 1 {
                assert(before.contains(r[i]));
                let k = choose|k: int| 0 <= k < before.len() && before[k] == r[i];
                assert(0 <= before[k] < n - 1);
            }
        }
        assert forall|i: int| 0 <= i < n implies #[trigger] r.contains(i) by {
            if i < n - 1 {
                assert(before.contains(i));
            }
        }
    }
}

/// What is handed out is not older than what is left out.
pub proof fn newest_are_handed_out(times: Seq<Option<int>>, limit: int, kept: int, dropped: int)
    requires
        0 <= kept < limit <= dropped < times.len(),
    ensures
        ({
            let order = newest_first(times, times.len() as int);
            not_older(times[order[kept]], times[order[dropped]])
        }),
{
    newest_first_is_in_order(times, times.len() as int);
}

proof fn lemma_placed_at(order: Seq<int>, times: Seq<Option<int>>, n: int, p: int)
    requires
        0 <= p <= order.len(),
        p > 0 ==> not_older(times[order[p - 1]], times[n]),
        forall|k: int| p <= k < order.len() ==> !not_older(times[#[trigger] order[k]], times[n]),
    ensures
        placed(order, times, n) == order.insert(p, n),
    decreases order.len(),
{
    if order.len() == 0 || p == order.len() {
        assert(order.push(n) =~= order.insert(p, n));
    } else {
        let rest = order.drop_last();
        assert(!not_older(times[order[order.len() - 1]], times[n]));
        assert forall|k: int| p <= k < rest.len() implies !not_older(
            times[#[trigger] rest[k]],
            times[n],
        ) by {
            assert(rest[k] == order[k]);
        }
        lemma_placed_at(rest, times, n, p);
        assert(rest.insert(p, n).push(order.last()) =~= order.insert(p, n));
    }
}

/// The capture times of products, where they can be read.
pub open spec fn capture_times(captured: Seq<Option<Seq<char>>>) -> Seq<Option<int>> {
    Seq::new(captured.len(), |i: int| clock::read_instant(captured[i]))
}

/// The positions as mathematical integers.
pub open spec fn positions(v: Seq<usize>) -> Seq<int> {
    Seq::new(v.len(), |i: int| v[i] as int)
}

/// The instants as mathematical integers.
pub open spec fn instants(v: Seq<Option<i128>>) -> Seq<Option<int>> {
    Seq::new(v.len(), |i: int| clock::opt_int(v[i]))
}

fn read_times(captured: &Vec<Option<String>>) -> (r: Vec<Option<i128>>)
    ensures
        instants(r@) == capture_times(captured.deep_view()),
{
    let ghost all = captured.deep_view();
    let mut out: Vec<Option<i128>> = Vec::new();
    let mut i: usize = 0;
    while i < captured.len()
        invariant
            i <= captured@.len(),
            all == captured.deep_view(),
            out@.len() == i,
            forall|k: int|
                0 <= k < i ==> clock::opt_int(#[trigger] out@[k]) == clock::read_instant(all[k]),
        decreases captured.len() - i,
    {
        assert(all[i as int] == captured@[i as int].deep_view());
        out.push(clock::read_opt(&captured[i]));
        i += 1;
    }
    assert(instants(out@) =~= capture_times(all));
    out
}

/// The positions of the newest products, newest first, at most `limit`.
pub fn newest(captured: &Vec<Option<String>>, limit: usize) -> (r: Vec<usize>)
    ensures
        ({
            let times = capture_times(captured.deep_view());
            let order = newest_first(times, times.len() as int);
            positions(r@) == order.take(
                if limit < order.len() {
                    limit as int
                } else {
                    order.len() as int
                },
            )
        }),
{
    let keys = read_times(captured);
    let ghost times = capture_times(captured.deep_view());
    assert(times.len() == keys@.len());
    let mut order: Vec<usize> = Vec::new();
    let mut n: usize = 0;
    assert(positions(order@) =~= newest_first(times, 0));
    while n < keys.len()
        invariant
            n <= keys@.len(),
            times == instants(keys@),
            positions(order@) == newest_first(times, n as int),
            order@.len() == n,
            forall|k: int| 0 <= k < order@.len() ==> #[trigger] order@[k] < n,
        decreases keys.len() - n,
    {
        let ghost before = order@;
        let mut p: usize = order.len();
        while p > 0 && !at_least_as_new(keys[order[p - 1]], keys[n])
            invariant
                p <= order@.len(),
                n < keys@.len(),
                times == instants(keys@),
                order@ == before,
                forall|k: int| 0 <= k < order@.len() ==> #[trigger] order@[k] < n,
                forall|k: int|
                    p <= k < order@.len() ==> !not_older(
                        times[#[trigger] positions(order@)[k]],
                        times[n as int],
                    ),
            decreases p,
        {
            assert(positions(order@)[p - 1] == order@[p - 1] as int);
            p -= 1;
        }
        if p > 0 {
            assert(positions(order@)[p - 1] == order@[p - 1] as int);
        }
        proof {
            lemma_placed_at(positions(order@), times, n as int, p as int);
        }
        order.insert(p, n);
        proof {
            assert(positions(order@) =~= positions(before).insert(p as int, n as int));
            assert forall|k: int| 0 <= k < order@.len() implies #[trigger] order@[k] < n + 1 by {
                if k < p {
                    assert(order@[k] == before[k]);
                } else if k > p {
                    assert(order@[k] == before[k - 1]);
                }
            }
        }
        n += 1;
    }
    let ghost all = order@;
    if limit < order.len() {
        order.truncate(limit);
        assert(positions(order@) =~= positions(all).take(limit as int));
    } else {
        assert(positions(order@) =~= positions(all).take(all.len() as int));
    }
    order
}

// ---------------------------------------------------------------------------
// Ingest status
// ---------------------------------------------------------------------------

/// What happens while messages are taken in.
#[derive(Debug, Clone, PartialEq, Eq)]
pub enum IngestEvent {
    /// The dedupe store could not be opened, so nothing is taken in.
    StoreFailed(String),
    Connected,
    ConnectFailed(String),
    /// A message was processed, at the time given.
    MessageProcessed { duplicate: bool, at: Option<String> },
    IngestFailed(String),
    Disconnected(Option<String>),
    ShuttingDown,
    MessageSkipped,
    SilentRead,
}

pub enum IngestEventView {
    StoreFailed(Seq<char>),
    Connected,
    ConnectFailed(Seq<char>),
    MessageProcessed { duplicate: bool, at: Option<Seq<char>> },
    IngestFailed(Seq<char>),
    Disconnected(Option<Seq<char>>),
    ShuttingDown,
    MessageSkipped,
    SilentRead,
}

impl DeepView for IngestEvent {
    type V = IngestEventView;

    open spec fn deep_view(&self) -> IngestEventView {
        match self {
            IngestEvent::StoreFailed(e) => IngestEventView::StoreFailed(e@),
            IngestEvent::Connected => IngestEventView::Connected,
            IngestEvent::ConnectFailed(e) => IngestEventView::ConnectFailed(e@),
            IngestEvent::MessageProcessed { duplicate, at } => IngestEventView::MessageProcessed {
                duplicate: *duplicate,
                at: at.deep_view(),
            },
            IngestEvent::IngestFailed(e) => IngestEventView::IngestFailed(e@),
            IngestEvent::Disconnected(e) => IngestEventView::Disconnected(e.deep_view()),
            IngestEvent::ShuttingDown => IngestEventView::ShuttingDown,
            IngestEvent::MessageSkipped => IngestEventView::MessageSkipped,
            IngestEvent::SilentRead => IngestEventView::SilentRead,
        }
    }
}

/// How the intake of messages goes. Counters start again at zero after the
/// largest number.
#[derive(Debug, Clone, Default, PartialEq, Eq)]
pub struct IngestStatus {
    pub connected: bool,
    pub messages_read: u64,
    pub archived_records: u64,
    pub duplicate_records: u64,
    pub ingest_failures: u64,
    pub connect_failures: u64,
    pub reconnects: u64,
    pub last_message_at: Option<String>,
    pub last_error: Option<String>,
}

pub struct StatusView {
    pub connected: bool,
    pub messages_read: u64,
    pub archived_records: u64,
    pub duplicate_records: u64,
    pub ingest_failures: u64,
    pub connect_failures: u64,
    pub reconnects: u64,
    pub last_message_at: Option<Seq<char>>,
    pub last_error: Option<Seq<char>>,
}

impl DeepView for IngestStatus {
    type V = StatusView;

    open spec fn deep_view(&self) -> StatusView {
        StatusView {
            connected: self.connected,
            messages_read: self.messages_read,
            archived_records: self.archived_records,
            duplicate_records: self.duplicate_records,
            ingest_failures: self.ingest_failures,
            connect_failures: self.connect_failures,
            reconnects: self.reconnects,
            last_message_at: self.last_message_at.deep_view(),
            last_error: self.last_error.deep_view(),
        }
    }
}

/// The number after `n`, zero after the largest.
pub open spec fn next_count(n: u64) -> u64 {
    if n < u64::MAX {
        (n + 1) as u64
    } else {
        0
    }
}

/// The status after an event.
pub open spec fn status_after(s: StatusView, event: IngestEventView) -> StatusView {
    match event {
        IngestEventView::StoreFailed(error) => StatusView {
            last_error: Some("failed to open dedupe store: "@ + error),
            ..s
        },
        IngestEventView::Connected => StatusView { connected: true, ..s },
        IngestEventView::ConnectFailed(error) => StatusView {
            connect_failures: next_count(s.connect_failures),
            last_error: Some(error),
            ..s
        },
        IngestEventView::MessageProcessed { duplicate, at } => StatusView {
            messages_read: next_count(s.messages_read),
            archived_records: if duplicate {
                s.archived_records
            } else {
                next_count(s.archived_records)
            },
            duplicate_records: if duplicate {
                next_count(s.duplicate_records)
            } else {
                s.duplicate_records
            },
            last_message_at: at,
            ..s
        },
        IngestEventView::IngestFailed(error) => StatusView {
            ingest_failures: next_count(s.ingest_failures),
            last_error: Some(error),
            ..s
        },
        IngestEventView::Disconnected(error) => StatusView {
            connected: false,
            reconnects: next_count(s.reconnects),
            last_error: match error {
                Some(e) => Some(e),
                None => s.last_error,
            },
            ..s
        },
        IngestEventView::ShuttingDown => StatusView { connected: false, ..s },
        IngestEventView::MessageSkipped => s,
        IngestEventView::SilentRead => s,
    }
}

/// Every message that was read is counted as archived or as a duplicate, as
/// long as the counters do not start again.
pub proof fn messages_are_archived_or_duplicates(s: StatusView, event: IngestEventView)
    requires
        s.messages_read < u64::MAX,
        s.archived_records + s.duplicate_records == s.messages_read,
    ensures
        ({
            let t = status_after(s, event);
            t.archived_records + t.duplicate_records == t.messages_read
        }),
{
}

fn count_up(n: u64) -> (r: u64)
    ensures
        r == next_count(n),
{
    if n < u64::MAX {
        n + 1
    } else {
        0
    }
}

impl IngestStatus {
    /// The status before anything happened.
    pub fn new() -> (r: IngestStatus)
        ensures
            r.deep_view() == (StatusView {
                connected: false,
                messages_read: 0,
                archived_records: 0,
                duplicate_records: 0,
                ingest_failures: 0,
                connect_failures: 0,
                reconnects: 0,
                last_message_at: None,
                last_error: None,
            }),
    {
        IngestStatus {
            connected: false,
            messages_read: 0,
            archived_records: 0,
            duplicate_records: 0,
            ingest_failures: 0,
            connect_failures: 0,
            reconnects: 0,
            last_message_at: None,
            last_error: None,
        }
    }

    /// Notes an event.
    pub fn apply(&mut self, event: &IngestEvent)
        ensures
            final(self).deep_view() == status_after(old(self).deep_view(), event.deep_view()),
    {
        match event {
            IngestEvent::StoreFailed(error) => {
                let mut v = text::to_chars("failed to open dedupe store: ");
                text::push_str(&mut v, error.as_str());
                self.last_error = Some(text::to_text(v.as_slice()));
            },
            IngestEvent::Connected => {
                self.connected = true;
            },
            IngestEvent::ConnectFailed(error) => {
                self.connect_failures = count_up(self.connect_failures);
                self.last_error = Some(error.clone());
            },
            IngestEvent::MessageProcessed { duplicate, at } => {
                self.messages_read = count_up(self.messages_read);
                if *duplicate {
                    self.duplicate_records = count_up(self.duplicate_records);
                } else {
                    self.archived_records = count_up(self.archived_records);
                }
                self.last_message_at = text::copy_opt(at);
            },
            IngestEvent::IngestFailed(error) => {
                self.ingest_failures = count_up(self.ingest_failures);
                self.last_error = Some(error.clone());
            },
            IngestEvent::Disconnected(error) => {
                self.connected = false;
                self.reconnects = count_up(self.reconnects);
                if let Some(e) = error {
                    self.last_error = Some(e.clone());
                }
            },
            IngestEvent::ShuttingDown => {
                self.connected = false;
            },
            IngestEvent::MessageSkipped => {},
            IngestEvent::SilentRead => {},
        }
    }
}

} // verus!
