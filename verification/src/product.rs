//! Products: families, segments and their content.

use vstd::prelude::*;

use crate::error::{ErrorKind, Field, Result};
use crate::geo;
use crate::geo::{LatLonBlock, LatLonBlockView, TimeMotLoc, TimeMotLocView};
use crate::header;
use crate::header::AwipsId;
use crate::lines;
use crate::lines::LineRef;
use crate::tags;
use crate::tags::{SegmentTagView, SegmentTags, WarningParsedTags};
use crate::text;
use crate::ugc;
use crate::ugc::{UgcString, UgcStringView};
use crate::vtec;
use crate::vtec::{Hvtec, Phenomenon, Pvtec, PvtecView};
use crate::wmo;
use crate::wmo::{WmoMessage, WmoMessageView};

verus! {

/// The kind of a product.
#[derive(Debug, Clone, Copy, PartialEq, Eq, Structural)]
pub enum ProductFamily {
    Tornado,
    SevereThunderstorm,
    FlashFlood,
    Flood,
    Marine,
    Discussion,
    Forecast,
    Statement,
    Hydrology,
    Watch,
    Advisory,
    Administrative,
    Unknown,
}

/// Which separators a segment has.
#[derive(Debug, Clone, Copy, PartialEq, Eq, Structural)]
pub struct SegmentBoundaries {
    pub separated_by_dollars: bool,
    pub contains_andand: bool,
}

/// One segment of a product.
#[derive(Debug, Clone, PartialEq, Eq)]
pub struct ProductSegment {
    pub ugc: UgcString,
    pub pvtec: Vec<Pvtec>,
    pub hvtec: Vec<Hvtec>,
    pub headline: Option<String>,
    pub body_lines: Vec<String>,
    pub lat_lon: Option<LatLonBlock>,
    pub time_mot_loc: Option<TimeMotLoc>,
    pub tags: SegmentTags,
    pub boundaries: SegmentBoundaries,
}

/// What a segment holds.
pub struct ProductSegmentView {
    pub ugc: UgcStringView,
    pub pvtec: Seq<PvtecView>,
    pub hvtec: Seq<Seq<char>>,
    pub headline: Option<Seq<char>>,
    pub body_lines: Seq<Seq<char>>,
    pub lat_lon: Option<LatLonBlockView>,
    pub time_mot_loc: Option<TimeMotLocView>,
    pub tags: Seq<SegmentTagView>,
    pub boundaries: SegmentBoundaries,
}

impl DeepView for ProductSegment {
    type V = ProductSegmentView;

    open spec fn deep_view(&self) -> ProductSegmentView {
        ProductSegmentView {
            ugc: self.ugc.deep_view(),
            pvtec: self.pvtec.deep_view(),
            hvtec: self.hvtec.deep_view(),
            headline: self.headline.deep_view(),
            body_lines: self.body_lines.deep_view(),
            lat_lon: self.lat_lon.deep_view(),
            time_mot_loc: self.time_mot_loc.deep_view(),
            tags: self.tags.deep_view(),
            boundaries: self.boundaries,
        }
    }
}

/// A parsed product.
#[derive(Debug, Clone, PartialEq, Eq)]
pub struct NwsProduct {
    pub family: ProductFamily,
    pub awips_id: Option<AwipsId>,
    pub mnd_header: Option<String>,
    pub preamble: Vec<String>,
    pub segments: Vec<ProductSegment>,
}

/// What a product holds.
pub struct NwsProductView {
    pub family: ProductFamily,
    pub awips_id: Option<Seq<char>>,
    pub mnd_header: Option<Seq<char>>,
    pub preamble: Seq<Seq<char>>,
    pub segments: Seq<ProductSegmentView>,
}

impl DeepView for NwsProduct {
    type V = NwsProductView;

    open spec fn deep_view(&self) -> NwsProductView {
        NwsProductView {
            family: self.family,
            awips_id: self.awips_id.deep_view(),
            mnd_header: self.mnd_header.deep_view(),
            preamble: self.preamble.deep_view(),
            segments: self.segments.deep_view(),
        }
    }
}

/// A bulletin and the product in it.
#[derive(Debug, Clone, PartialEq, Eq)]
pub struct NwwsContent {
    pub bulletin: WmoMessage,
    pub product: NwsProduct,
}

/// What a bulletin with its product holds.
pub struct NwwsContentView {
    pub bulletin: WmoMessageView,
    pub product: NwsProductView,
}

impl DeepView for NwwsContent {
    type V = NwwsContentView;

    open spec fn deep_view(&self) -> NwwsContentView {
        NwwsContentView {
            bulletin: self.bulletin.deep_view(),
            product: self.product.deep_view(),
        }
    }
}

// ---------------------------------------------------------------------------
// Families
// ---------------------------------------------------------------------------

/// The family of an AWIPS product category.
pub open spec fn awips_family(nnn: Seq<char>) -> ProductFamily {
    if nnn == "TOR"@ {
        ProductFamily::Tornado
    } else if nnn == "SVR"@ {
        ProductFamily::SevereThunderstorm
    } else if nnn == "FFW"@ {
        ProductFamily::FlashFlood
    } else if nnn == "FLW"@ || nnn == "FLS"@ {
        ProductFamily::Flood
    } else if nnn == "MWW"@ || nnn == "SMW"@ {
        ProductFamily::Marine
    } else if nnn == "AFD"@ {
        ProductFamily::Discussion
    } else if nnn == "SPS"@ || nnn == "SVS"@ {
        ProductFamily::Statement
    } else if nnn == "RVS"@ || nnn == "RVD"@ || nnn == "RVA"@ || nnn == "RWR"@ {
        ProductFamily::Hydrology
    } else if nnn == "HWO"@ || nnn == "NPW"@ || nnn == "CFW"@ {
        ProductFamily::Advisory
    } else if nnn == "WSW"@ || nnn == "FFA"@ {
        ProductFamily::Watch
    } else if nnn == "PNS"@ {
        ProductFamily::Administrative
    } else {
        ProductFamily::Unknown
    }
}

fn classify_awips_nnn(nnn: &[char]) -> (r: ProductFamily)
    ensures
        r == awips_family(nnn@),
{
    if text::is_str(nnn, "TOR") {
        ProductFamily::Tornado
    } else if text::is_str(nnn, "SVR") {
        ProductFamily::SevereThunderstorm
    } else if text::is_str(nnn, "FFW") {
        ProductFamily::FlashFlood
    } else if text::is_str(nnn, "FLW") || text::is_str(nnn, "FLS") {
        ProductFamily::Flood
    } else if text::is_str(nnn, "MWW") || text::is_str(nnn, "SMW") {
        ProductFamily::Marine
    } else if text::is_str(nnn, "AFD") {
        ProductFamily::Discussion
    } else if text::is_str(nnn, "SPS") || text::is_str(nnn, "SVS") {
        ProductFamily::Statement
    } else if text::is_str(nnn, "RVS") || text::is_str(nnn, "RVD") || text::is_str(nnn, "RVA")
        || text::is_str(nnn, "RWR") {
        ProductFamily::Hydrology
    } else if text::is_str(nnn, "HWO") || text::is_str(nnn, "NPW") || text::is_str(nnn, "CFW") {
        ProductFamily::Advisory
    } else if text::is_str(nnn, "WSW") || text::is_str(nnn, "FFA") {
        ProductFamily::Watch
    } else if text::is_str(nnn, "PNS") {
        ProductFamily::Administrative
    } else {
        ProductFamily::Unknown
    }
}

/// The family of a VTEC phenomenon.
pub open spec fn phenomenon_family(p: Phenomenon) -> ProductFamily {
    let code = p.code();
    if code == ('T', 'O') {
        ProductFamily::Tornado
    } else if code == ('S', 'V') {
        ProductFamily::SevereThunderstorm
    } else if code == ('F', 'F') {
        ProductFamily::FlashFlood
    } else if code == ('F', 'L') {
        ProductFamily::Flood
    } else if code == ('M', 'A') || code == ('S', 'C') || code == ('G', 'L') || code == ('S', 'R')
        || code == ('H', 'F') {
        ProductFamily::Marine
    } else {
        ProductFamily::Unknown
    }
}

fn classify_phenomenon(p: Phenomenon) -> (r: ProductFamily)
    ensures
        r == phenomenon_family(p),
{
    let (a, b) = p.letters();
    if a == 'T' && b == 'O' {
        ProductFamily::Tornado
    } else if a == 'S' && b == 'V' {
        ProductFamily::SevereThunderstorm
    } else if a == 'F' && b == 'F' {
        ProductFamily::FlashFlood
    } else if a == 'F' && b == 'L' {
        ProductFamily::Flood
    } else if (a == 'M' && b == 'A') || (a == 'S' && b == 'C') || (a == 'G' && b == 'L') || (a
        == 'S' && b == 'R') || (a == 'H' && b == 'F') {
        ProductFamily::Marine
    } else {
        ProductFamily::Unknown
    }
}

/// The first VTEC line among the segments from `i` on.
pub open spec fn first_pvtec(segments: Seq<ProductSegmentView>, i: int) -> Option<PvtecView>
    decreases segments.len() - i,
{
    if i < 0 || i >= segments.len() {
        None
    } else if segments[i].pvtec.len() > 0 {
        Some(segments[i].pvtec[0])
    } else {
        first_pvtec(segments, i + 1)
    }
}

/// The family that the first preamble line names.
pub open spec fn header_family(line: Seq<char>) -> ProductFamily {
    let upper = text::upper(line);
    if text::contains(upper, "TORNADO WARNING"@) {
        ProductFamily::Tornado
    } else if text::contains(upper, "SEVERE THUNDERSTORM WARNING"@) {
        ProductFamily::SevereThunderstorm
    } else if text::contains(upper, "FLASH FLOOD WARNING"@) {
        ProductFamily::FlashFlood
    } else {
        ProductFamily::Unknown
    }
}

/// The family of a product: by its AWIPS category, else by its first VTEC
/// line, else by its first preamble line.
pub open spec fn family_of(
    awips_id: Option<Seq<char>>,
    segments: Seq<ProductSegmentView>,
    preamble: Seq<Seq<char>>,
) -> ProductFamily {
    match awips_id {
        Some(id) => awips_family(header::awips_nnn(id)),
        None => match first_pvtec(segments, 0) {
            Some(p) => phenomenon_family(p.phenomenon),
            None => if preamble.len() > 0 {
                header_family(preamble[0])
            } else {
                ProductFamily::Unknown
            },
        },
    }
}

fn classify_family(
    awips_id: &Option<AwipsId>,
    segments: &Vec<ProductSegment>,
    preamble: &Vec<String>,
) -> (r: ProductFamily)
    ensures
        r == family_of(awips_id.deep_view(), segments.deep_view(), preamble.deep_view()),
{
    if let Some(id) = awips_id {
        let nnn = id.nnn();
        return classify_awips_nnn(nnn.as_slice());
    }
    let ghost all = segments.deep_view();
    let mut i: usize = 0;
    while i < segments.len()
        invariant
            i <= segments@.len(),
            all == segments.deep_view(),
            awips_id is None,
            first_pvtec(all, 0) == first_pvtec(all, i as int),
        decreases segments.len() - i,
    {
        assert(all[i as int].pvtec == segments@[i as int].pvtec.deep_view());
        if segments[i].pvtec.len() > 0 {
            return classify_phenomenon(segments[i].pvtec[0].phenomenon());
        }
        i += 1;
    }
    if preamble.len() > 0 {
        let line = text::to_chars(preamble[0].as_str());
        let upper = text::to_upper(line.as_slice());
        if text::contains_str(upper.as_slice(), "TORNADO WARNING") {
            return ProductFamily::Tornado;
        }
        if text::contains_str(upper.as_slice(), "SEVERE THUNDERSTORM WARNING") {
            return ProductFamily::SevereThunderstorm;
        }
        if text::contains_str(upper.as_slice(), "FLASH FLOOD WARNING") {
            return ProductFamily::FlashFlood;
        }
    }
    ProductFamily::Unknown
}

// ---------------------------------------------------------------------------
// Segment structure
// ---------------------------------------------------------------------------

/// Whether a line, without surrounding white space, ends a block of lines.
pub open spec fn ends_block(t: Seq<char>) -> bool {
    t.len() == 0 || t == "$$"@ || t == "&&"@ || t[0] == '/'
}

fn block_end(t: &[char]) -> (r: bool)
    ensures
        r == ends_block(t@),
{
    t.len() == 0 || text::is_str(t, "$$") || text::is_str(t, "&&") || t[0] == '/'
}

/// The UGC string that begins at line `start` and ends at line `end` or
/// after it, with the line behind it.
pub open spec fn ugc_block_to(
    body: Seq<char>,
    lines: Seq<(int, int)>,
    start: int,
    end: int,
) -> Option<(UgcStringView, int)>
    decreases lines.len() - end,
{
    if end < 0 || end >= lines.len() {
        None
    } else {
        match ugc::parse_ugc(body.subrange(lines[start].0, lines[end].1)) {
            Some(u) => Some((u, end + 1)),
            None => if end + 1 >= lines.len() || ends_block(
                lines::trimmed_at(body, lines, end + 1),
            ) {
                None
            } else {
                ugc_block_to(body, lines, start, end + 1)
            },
        }
    }
}

/// The UGC string that begins at line `start`, with the line behind it.
pub open spec fn ugc_block(body: Seq<char>, lines: Seq<(int, int)>, start: int) -> Option<
    (UgcStringView, int),
> {
    if start >= lines.len() || lines::trimmed_at(body, lines, start).len() == 0 {
        None
    } else {
        ugc_block_to(body, lines, start, start)
    }
}

pub proof fn lemma_ugc_block(body: Seq<char>, lines: Seq<(int, int)>, start: int, end: int)
    requires
        0 <= start <= end,
    ensures
        ugc_block_to(body, lines, start, end) matches Some((u, next)) ==> end < next <= lines.len(),
    decreases lines.len() - end,
{
    if end + 1 < lines.len() {
        lemma_ugc_block(body, lines, start, end + 1);
    }
}

fn parse_ugc_block(body: &[char], lines: &Vec<LineRef>, start: usize) -> (r: Option<
    (UgcString, usize),
>)
    requires
        lines::valid(body@.len() as int, lines::spans(lines@)),
    ensures
        match r {
            Some((u, next)) => ugc_block(body@, lines::spans(lines@), start as int) == Some(
                (u.deep_view(), next as int),
            ) && start < next <= lines@.len(),
            None => ugc_block(body@, lines::spans(lines@), start as int) is None,
        },
{
    let ghost all = lines::spans(lines@);
    let n: usize = lines.len();
    if start >= n {
        return None;
    }
    if text::trim_of(lines::line_at(body, lines, start)).len() == 0 {
        return None;
    }
    let mut end: usize = start;
    while end < n
        invariant
            n == lines@.len(),
            all == lines::spans(lines@),
            lines::valid(body@.len() as int, all),
            start <= end <= n,
            start < n,
            lines::trimmed_at(body@, all, start as int).len() > 0,
            ugc_block(body@, all, start as int) == ugc_block_to(
                body@,
                all,
                start as int,
                end as int,
            ),
        decreases n - end,
    {
        let raw = lines::between(body, lines, start, end);
        if let Ok(u) = UgcString::parse(raw) {
            return Some((u, end + 1));
        }
        if end + 1 >= n {
            return None;
        }
        if block_end(text::trim_of(lines::line_at(body, lines, end + 1))) {
            return None;
        }
        end += 1;
    }
    None
}

/// The line at which the segment whose content goes on at line `i` ends: a
/// `$$` line, the next UGC string, or the end of the text.
pub open spec fn segment_end(body: Seq<char>, lines: Seq<(int, int)>, i: int) -> int
    decreases lines.len() - i,
{
    if i >= lines.len() || lines::trimmed_at(body, lines, i) == "$$"@ || ugc_block(body, lines, i)
        is Some {
        i
    } else {
        segment_end(body, lines, i + 1)
    }
}

proof fn lemma_segment_end(body: Seq<char>, lines: Seq<(int, int)>, i: int)
    requires
        0 <= i <= lines.len(),
    ensures
        i <= segment_end(body, lines, i) <= lines.len(),
    decreases lines.len() - i,
{
    if i < lines.len() {
        lemma_segment_end(body, lines, i + 1);
    }
}

/// The VTEC lines from line `i` on, up to the first that is none, appended
/// to `done`, with the line behind them.
pub open spec fn pvtec_run(
    body: Seq<char>,
    lines: Seq<(int, int)>,
    i: int,
    to: int,
    done: Seq<PvtecView>,
) -> (Seq<PvtecView>, int)
    decreases to - i,
{
    if i >= to {
        (done, i)
    } else {
        match vtec::parse_pvtec(lines::trimmed_at(body, lines, i)) {
            Some(code) => pvtec_run(body, lines, i + 1, to, done.push(code)),
            None => (done, i),
        }
    }
}

/// The hydrologic VTEC lines from line `i` on, as `pvtec_run`.
pub open spec fn hvtec_run(
    body: Seq<char>,
    lines: Seq<(int, int)>,
    i: int,
    to: int,
    done: Seq<Seq<char>>,
) -> (Seq<Seq<char>>, int)
    decreases to - i,
{
    if i >= to {
        (done, i)
    } else {
        let t = lines::trimmed_at(body, lines, i);
        if vtec::is_hvtec(t) {
            hvtec_run(body, lines, i + 1, to, done.push(t))
        } else {
            (done, i)
        }
    }
}

fn read_pvtec_run(body: &[char], lines: &Vec<LineRef>, from: usize, to: usize) -> (r: (
    Vec<Pvtec>,
    usize,
))
    requires
        lines::valid(body@.len() as int, lines::spans(lines@)),
        from <= to <= lines@.len(),
    ensures
        (r.0.deep_view(), r.1 as int) == pvtec_run(
            body@,
            lines::spans(lines@),
            from as int,
            to as int,
            Seq::empty(),
        ),
        from <= r.1 <= to,
{
    let ghost all = lines::spans(lines@);
    let mut codes: Vec<Pvtec> = Vec::new();
    let mut i: usize = from;
    assert(codes.deep_view() =~= Seq::<PvtecView>::empty());
    while i < to
        invariant
            from <= i <= to <= lines@.len(),
            all == lines::spans(lines@),
            lines::valid(body@.len() as int, all),
            pvtec_run(body@, all, from as int, to as int, Seq::empty()) == pvtec_run(
                body@,
                all,
                i as int,
                to as int,
                codes.deep_view(),
            ),
        decreases to - i,
    {
        let ghost before = codes.deep_view();
        match Pvtec::parse(text::trim_of(lines::line_at(body, lines, i))) {
            Ok(code) => {
                codes.push(code);
                assert(codes.deep_view() =~= before.push(code.deep_view()));
            },
            Err(_) => {
                return (codes, i);
            },
        }
        i += 1;
    }
    (codes, i)
}

fn read_hvtec_run(body: &[char], lines: &Vec<LineRef>, from: usize, to: usize) -> (r: (
    Vec<Hvtec>,
    usize,
))
    requires
        lines::valid(body@.len() as int, lines::spans(lines@)),
        from <= to <= lines@.len(),
    ensures
        (r.0.deep_view(), r.1 as int) == hvtec_run(
            body@,
            lines::spans(lines@),
            from as int,
            to as int,
            Seq::empty(),
        ),
        from <= r.1 <= to,
{
    let ghost all = lines::spans(lines@);
    let mut codes: Vec<Hvtec> = Vec::new();
    let mut i: usize = from;
    assert(codes.deep_view() =~= Seq::<Seq<char>>::empty());
    while i < to
        invariant
            from <= i <= to <= lines@.len(),
            all == lines::spans(lines@),
            lines::valid(body@.len() as int, all),
            hvtec_run(body@, all, from as int, to as int, Seq::empty()) == hvtec_run(
                body@,
                all,
                i as int,
                to as int,
                codes.deep_view(),
            ),
        decreases to - i,
    {
        let ghost before = codes.deep_view();
        match Hvtec::parse(text::trim_of(lines::line_at(body, lines, i))) {
            Ok(code) => {
                codes.push(code);
                assert(codes.deep_view() =~= before.push(code.deep_view()));
            },
            Err(_) => {
                return (codes, i);
            },
        }
        i += 1;
    }
    (codes, i)
}

// ---------------------------------------------------------------------------
// Segment content
// ---------------------------------------------------------------------------

/// The texts of the lines `from..to`.
pub open spec fn texts(body: Seq<char>, lines: Seq<(int, int)>, from: int, to: int) -> Seq<
    Seq<char>,
> {
    Seq::new(
        if from <= to {
            (to - from) as nat
        } else {
            0
        },
        |i: int| lines::text_at(body, lines, from + i),
    )
}

/// The first text that is more than white space.
pub open spec fn first_nonblank(texts: Seq<Seq<char>>, i: int) -> Option<Seq<char>>
    decreases texts.len() - i,
{
    if i < 0 || i >= texts.len() {
        None
    } else if text::trim(texts[i]).len() > 0 {
        Some(texts[i])
    } else {
        first_nonblank(texts, i + 1)
    }
}

/// Whether `s` is made of digits and ASCII white space.
pub open spec fn digits_and_white(s: Seq<char>) -> bool {
    forall|i: int|
        0 <= i < s.len() ==> (text::is_digit(#[trigger] s[i]) || text::is_ascii_white(s[i]))
}

/// The last line of the `LAT...LON` block that reaches to line `e` at least.
pub open spec fn lat_lon_end(body: Seq<char>, lines: Seq<(int, int)>, e: int, to: int) -> int
    decreases to - e,
{
    if e + 1 >= to {
        e
    } else {
        let next = lines::trimmed_at(body, lines, e + 1);
        if ends_block(next) || text::starts_with(next, "TIME...MOT...LOC"@) || !digits_and_white(
            next,
        ) {
            e
        } else {
            lat_lon_end(body, lines, e + 1, to)
        }
    }
}

/// The first `LAT...LON` block among the lines `i..to`.
pub open spec fn lat_lon_in(body: Seq<char>, lines: Seq<(int, int)>, i: int, to: int) -> std::result::Result<
    Option<LatLonBlockView>,
    ErrorKind,
>
    decreases to - i,
{
    if i >= to {
        Ok(None)
    } else if text::starts_with(
        text::trim_start(lines::text_at(body, lines, i)),
        "LAT...LON"@,
    ) {
        match geo::parse_lat_lon(
            body.subrange(lines[i].0, lines[lat_lon_end(body, lines, i, to)].1),
        ) {
            Some(block) => Ok(Some(block)),
            None => Err(ErrorKind::InvalidField(Field::LatLon)),
        }
    } else {
        lat_lon_in(body, lines, i + 1, to)
    }
}

/// The first `TIME...MOT...LOC` line among the lines `i..to`.
pub open spec fn motion_in(body: Seq<char>, lines: Seq<(int, int)>, i: int, to: int) -> std::result::Result<
    Option<TimeMotLocView>,
    ErrorKind,
>
    decreases to - i,
{
    if i >= to {
        Ok(None)
    } else if text::starts_with(
        text::trim_start(lines::text_at(body, lines, i)),
        "TIME...MOT...LOC"@,
    ) {
        match geo::parse_motion(lines::trimmed_at(body, lines, i)) {
            Some(motion) => Ok(Some(motion)),
            None => Err(ErrorKind::InvalidField(Field::TimeMotLoc)),
        }
    } else {
        motion_in(body, lines, i + 1, to)
    }
}

fn texts_of(body: &[char], lines: &Vec<LineRef>, from: usize, to: usize) -> (r: Vec<String>)
    requires
        lines::valid(body@.len() as int, lines::spans(lines@)),
        from <= to <= lines@.len(),
    ensures
        r.deep_view() == texts(body@, lines::spans(lines@), from as int, to as int),
{
    let ghost all = lines::spans(lines@);
    let mut out: Vec<String> = Vec::new();
    let mut i: usize = from;
    assert(out.deep_view() =~= texts(body@, all, from as int, from as int));
    while i < to
        invariant
            from <= i <= to <= lines@.len(),
            all == lines::spans(lines@),
            lines::valid(body@.len() as int, all),
            out.deep_view() == texts(body@, all, from as int, i as int),
        decreases to - i,
    {
        let ghost before = out.deep_view();
        let t = text::to_text(lines::line_at(body, lines, i));
        out.push(t);
        assert(out.deep_view() =~= before.push(t@));
        assert(texts(body@, all, from as int, i + 1) =~= texts(
            body@,
            all,
            from as int,
            i as int,
        ).push(lines::text_at(body@, all, i as int)));
        i += 1;
    }
    out
}

fn first_nonblank_of(lines: &Vec<String>) -> (r: Option<String>)
    ensures
        r.deep_view() == first_nonblank(lines.deep_view(), 0),
{
    let ghost all = lines.deep_view();
    let mut i: usize = 0;
    while i < lines.len()
        invariant
            i <= lines@.len(),
            all == lines.deep_view(),
            first_nonblank(all, 0) == first_nonblank(all, i as int),
        decreases lines.len() - i,
    {
        let line = text::to_chars(lines[i].as_str());
        assert(all[i as int] == lines@[i as int]@);
        if text::trim_of(line.as_slice()).len() > 0 {
            return Some(lines[i].clone());
        }
        i += 1;
    }
    None
}

fn only_digits_and_white(s: &[char]) -> (r: bool)
    ensures
        r == digits_and_white(s@),
{
    let mut i: usize = 0;
    while i < s.len()
        invariant
            i <= s@.len(),
            forall|k: int|
                0 <= k < i ==> (text::is_digit(#[trigger] s@[k]) || text::is_ascii_white(s@[k])),
        decreases s.len() - i,
    {
        if !(text::digit(s[i]) || text::ascii_white(s[i])) {
            return false;
        }
        i += 1;
    }
    true
}

fn extract_lat_lon(body: &[char], lines: &Vec<LineRef>, from: usize, to: usize) -> (r: Result<
    Option<LatLonBlock>,
>)
    requires
        lines::valid(body@.len() as int, lines::spans(lines@)),
        from <= to <= lines@.len(),
    ensures
        lat_lon_in(body@, lines::spans(lines@), from as int, to as int) == (match r {
            Ok(block) => Ok::<Option<LatLonBlockView>, ErrorKind>(block.deep_view()),
            Err(e) => Err::<Option<LatLonBlockView>, ErrorKind>(e.kind),
        }),
{
    let ghost all = lines::spans(lines@);
    let mut i: usize = from;
    while i < to
        invariant
            from <= i <= to <= lines@.len(),
            all == lines::spans(lines@),
            lines::valid(body@.len() as int, all),
            lat_lon_in(body@, all, from as int, to as int) == lat_lon_in(
                body@,
                all,
                i as int,
                to as int,
            ),
        decreases to - i,
    {
        let line = lines::line_at(body, lines, i);
        if text::begins_str(text::trim_start_of(line), "LAT...LON") {
            let end: usize = find_lat_lon_end(body, lines, i, to);
            return match LatLonBlock::parse(lines::between(body, lines, i, end)) {
                Ok(block) => Ok(Some(block)),
                Err(e) => Err(e),
            };
        }
        i += 1;
    }
    Ok(None)
}

fn find_lat_lon_end(body: &[char], lines: &Vec<LineRef>, from: usize, to: usize) -> (r: usize)
    requires
        lines::valid(body@.len() as int, lines::spans(lines@)),
        from < to <= lines@.len(),
    ensures
        r == lat_lon_end(body@, lines::spans(lines@), from as int, to as int),
        from <= r < to,
{
    let ghost all = lines::spans(lines@);
    let mut e: usize = from;
    while e + 1 < to
        invariant
            from <= e < to <= lines@.len(),
            all == lines::spans(lines@),
            lines::valid(body@.len() as int, all),
            lat_lon_end(body@, all, from as int, to as int) == lat_lon_end(
                body@,
                all,
                e as int,
                to as int,
            ),
        decreases to - e,
    {
        let next = text::trim_of(lines::line_at(body, lines, e + 1));
        if block_end(next) || text::begins_str(next, "TIME...MOT...LOC") || !only_digits_and_white(
            next,
        ) {
            return e;
        }
        e += 1;
    }
    e
}

fn extract_time_mot_loc(body: &[char], lines: &Vec<LineRef>, from: usize, to: usize) -> (r: Result<
    Option<TimeMotLoc>,
>)
    requires
        lines::valid(body@.len() as int, lines::spans(lines@)),
        from <= to <= lines@.len(),
    ensures
        motion_in(body@, lines::spans(lines@), from as int, to as int) == (match r {
            Ok(motion) => Ok::<Option<TimeMotLocView>, ErrorKind>(motion.deep_view()),
            Err(e) => Err::<Option<TimeMotLocView>, ErrorKind>(e.kind),
        }),
{
    let ghost all = lines::spans(lines@);
    let mut i: usize = from;
    while i < to
        invariant
            from <= i <= to <= lines@.len(),
            all == lines::spans(lines@),
            lines::valid(body@.len() as int, all),
            motion_in(body@, all, from as int, to as int) == motion_in(
                body@,
                all,
                i as int,
                to as int,
            ),
        decreases to - i,
    {
        let line = lines::line_at(body, lines, i);
        if text::begins_str(text::trim_start_of(line), "TIME...MOT...LOC") {
            return match TimeMotLoc::parse(text::trim_of(line)) {
                Ok(motion) => Ok(Some(motion)),
                Err(e) => Err(e),
            };
        }
        i += 1;
    }
    Ok(None)
}

/// Whether one of the lines `from..to` is `&&`.
pub open spec fn has_andand(body: Seq<char>, lines: Seq<(int, int)>, from: int, to: int) -> bool {
    exists|i: int| from <= i < to && #[trigger] lines::trimmed_at(body, lines, i) == "&&"@
}

fn contains_andand(body: &[char], lines: &Vec<LineRef>, from: usize, to: usize) -> (r: bool)
    requires
        lines::valid(body@.len() as int, lines::spans(lines@)),
        from <= to <= lines@.len(),
    ensures
        r == has_andand(body@, lines::spans(lines@), from as int, to as int),
{
    let ghost all = lines::spans(lines@);
    let mut i: usize = from;
    while i < to
        invariant
            from <= i <= to <= lines@.len(),
            all == lines::spans(lines@),
            lines::valid(body@.len() as int, all),
            forall|k: int|
                from <= k < i ==> #[trigger] lines::trimmed_at(body@, all, k) != "&&"@,
        decreases to - i,
    {
        let t = text::trim_of(lines::line_at(body, lines, i));
        assert(t@ == lines::trimmed_at(body@, all, i as int));
        if text::is_str(t, "&&") {
            return true;
        }
        i += 1;
    }
    false
}

/// Reads the segment on the lines `from..to` whose UGC string reaches to
/// line `content`.
pub open spec fn parse_segment(
    body: Seq<char>,
    lines: Seq<(int, int)>,
    from: int,
    content: int,
    to: int,
    ugc: UgcStringView,
) -> std::result::Result<ProductSegmentView, ErrorKind> {
    let (pvtec, after_pvtec) = pvtec_run(body, lines, content, to, Seq::empty());
    let (hvtec, start) = hvtec_run(body, lines, after_pvtec, to, Seq::empty());
    let body_lines = texts(body, lines, start, to);
    match lat_lon_in(body, lines, start, to) {
        Err(kind) => Err(kind),
        Ok(lat_lon) => match motion_in(body, lines, start, to) {
            Err(kind) => Err(kind),
            Ok(time_mot_loc) => Ok(
                ProductSegmentView {
                    ugc,
                    pvtec,
                    hvtec,
                    headline: first_nonblank(body_lines, 0),
                    body_lines,
                    lat_lon,
                    time_mot_loc,
                    tags: tags::segment_tags(body_lines),
                    boundaries: SegmentBoundaries {
                        separated_by_dollars: to < lines.len() && lines::trimmed_at(body, lines, to)
                            == "$$"@,
                        contains_andand: has_andand(body, lines, from, to),
                    },
                },
            ),
        },
    }
}

/// Reads the lines from `cursor` on: segments, and preamble lines that
/// belong to none.
pub open spec fn parse_lines(
    body: Seq<char>,
    lines: Seq<(int, int)>,
    cursor: int,
    preamble: Seq<Seq<char>>,
    segments: Seq<ProductSegmentView>,
) -> std::result::Result<(Seq<Seq<char>>, Seq<ProductSegmentView>), ErrorKind>
    decreases lines.len() - cursor,
    when 0 <= cursor
    via parse_lines_decreases
{
    if cursor >= lines.len() {
        Ok((preamble, segments))
    } else if lines::trimmed_at(body, lines, cursor).len() == 0 {
        parse_lines(body, lines, cursor + 1, preamble, segments)
    } else {
        match ugc_block(body, lines, cursor) {
            Some((ugc, content)) => {
                let end = segment_end(body, lines, content);
                match parse_segment(body, lines, cursor, content, end, ugc) {
                    Err(kind) => Err(kind),
                    Ok(segment) => parse_lines(
                        body,
                        lines,
                        if segment.boundaries.separated_by_dollars {
                            end + 1
                        } else {
                            end
                        },
                        preamble,
                        segments.push(segment),
                    ),
                }
            },
            None => parse_lines(
                body,
                lines,
                cursor + 1,
                preamble.push(lines::text_at(body, lines, cursor)),
                segments,
            ),
        }
    }
}

#[via_fn]
proof fn parse_lines_decreases(
    body: Seq<char>,
    lines: Seq<(int, int)>,
    cursor: int,
    preamble: Seq<Seq<char>>,
    segments: Seq<ProductSegmentView>,
) {
    if cursor < lines.len() {
        lemma_ugc_block(body, lines, cursor, cursor);
        if let Some((ugc, content)) = ugc_block(body, lines, cursor) {
            lemma_segment_end(body, lines, content);
        }
    }
}

/// Reads the product in a bulletin.
pub open spec fn parse_product(message: WmoMessageView) -> std::result::Result<
    NwsProductView,
    ErrorKind,
> {
    match parse_lines(
        message.body,
        lines::lines_of(message.body),
        0,
        Seq::empty(),
        Seq::empty(),
    ) {
        Err(kind) => Err(kind),
        Ok((preamble, segments)) => Ok(
            NwsProductView {
                family: family_of(message.awips_id, segments, preamble),
                awips_id: message.awips_id,
                mnd_header: first_nonblank(preamble, 0),
                preamble,
                segments,
            },
        ),
    }
}

/// Reads a bulletin and the product in it.
pub open spec fn parse_content(input: Seq<u8>) -> std::result::Result<NwwsContentView, ErrorKind> {
    match wmo::parse_bytes(input) {
        Err(kind) => Err(kind),
        Ok(bulletin) => content_of(bulletin),
    }
}

/// A bulletin with the product in it.
pub open spec fn content_of(bulletin: WmoMessageView) -> std::result::Result<
    NwwsContentView,
    ErrorKind,
> {
    match parse_product(bulletin) {
        Err(kind) => Err(kind),
        Ok(product) => Ok(NwwsContentView { bulletin, product }),
    }
}

impl ProductSegment {
    /// The text tags and VTEC actions of the segment.
    pub fn warning_tags(&self) -> (r: WarningParsedTags)
        ensures
            r.text_tags.deep_view() == tags::text_tags(self.deep_view().body_lines),
            r.actions.deep_view() == tags::action_tags(self.deep_view().pvtec),
    {
        WarningParsedTags::from_segment(self)
    }

    fn parse(
        body: &[char],
        lines: &Vec<LineRef>,
        from: usize,
        content: usize,
        to: usize,
        ugc: UgcString,
    ) -> (r: Result<ProductSegment>)
        requires
            lines::valid(body@.len() as int, lines::spans(lines@)),
            from < content <= to <= lines@.len(),
        ensures
            parse_segment(
                body@,
                lines::spans(lines@),
                from as int,
                content as int,
                to as int,
                ugc.deep_view(),
            ) == (match r {
                Ok(segment) => Ok::<ProductSegmentView, ErrorKind>(segment.deep_view()),
                Err(e) => Err::<ProductSegmentView, ErrorKind>(e.kind),
            }),
    {
        let (pvtec, after_pvtec) = read_pvtec_run(body, lines, content, to);
        let (hvtec, start) = read_hvtec_run(body, lines, after_pvtec, to);
        let body_lines = texts_of(body, lines, start, to);
        let headline = first_nonblank_of(&body_lines);
        let lat_lon = match extract_lat_lon(body, lines, start, to) {
            Ok(v) => v,
            Err(e) => {
                return Err(e);
            },
        };
        let time_mot_loc = match extract_time_mot_loc(body, lines, start, to) {
            Ok(v) => v,
            Err(e) => {
                return Err(e);
            },
        };
        let tags = SegmentTags::extract(&body_lines);
        let separated_by_dollars: bool = to < lines.len() && text::is_str(
            text::trim_of(lines::line_at(body, lines, to)),
            "$$",
        );
        let contains_andand = contains_andand(body, lines, from, to);
        Ok(
            ProductSegment {
                ugc,
                pvtec,
                hvtec,
                headline,
                body_lines,
                lat_lon,
                time_mot_loc,
                tags,
                boundaries: SegmentBoundaries { separated_by_dollars, contains_andand },
            },
        )
    }
}

impl WarningParsedTags {
    /// The text tags and VTEC actions of a segment.
    pub fn from_segment(segment: &ProductSegment) -> (r: WarningParsedTags)
        ensures
            r.text_tags.deep_view() == tags::text_tags(segment.deep_view().body_lines),
            r.actions.deep_view() == tags::action_tags(segment.deep_view().pvtec),
    {
        WarningParsedTags::from_parts(&segment.body_lines, &segment.pvtec)
    }
}

fn find_segment_end(body: &[char], lines: &Vec<LineRef>, from: usize) -> (r: usize)
    requires
        lines::valid(body@.len() as int, lines::spans(lines@)),
        from <= lines@.len(),
    ensures
        r == segment_end(body@, lines::spans(lines@), from as int),
        from <= r <= lines@.len(),
{
    let ghost all = lines::spans(lines@);
    let n: usize = lines.len();
    let mut end: usize = from;
    while end < n
        invariant
            n == lines@.len(),
            from <= end <= n,
            all == lines::spans(lines@),
            lines::valid(body@.len() as int, all),
            segment_end(body@, all, from as int) == segment_end(body@, all, end as int),
        decreases n - end,
    {
        if text::is_str(text::trim_of(lines::line_at(body, lines, end)), "$$") {
            return end;
        }
        if parse_ugc_block(body, lines, end).is_some() {
            return end;
        }
        end += 1;
    }
    end
}

impl NwsProduct {
    /// Reads the product in a bulletin.
    pub fn parse(message: &WmoMessage) -> (r: Result<NwsProduct>)
        ensures
            parse_product(message.deep_view()) == (match r {
                Ok(product) => Ok::<NwsProductView, ErrorKind>(product.deep_view()),
                Err(e) => Err::<NwsProductView, ErrorKind>(e.kind),
            }),
    {
        let body_chars = text::to_chars(message.body.as_str());
        let body = body_chars.as_slice();
        let lines = lines::line_refs(body);
        let ghost all = lines::spans(lines@);
        let n: usize = lines.len();
        let mut preamble: Vec<String> = Vec::new();
        let mut segments: Vec<ProductSegment> = Vec::new();
        let mut cursor: usize = 0;
        assert(preamble.deep_view() =~= Seq::<Seq<char>>::empty());
        assert(segments.deep_view() =~= Seq::<ProductSegmentView>::empty());
        while cursor < n
            invariant
                n == lines@.len(),
                cursor <= n,
                all == lines::spans(lines@),
                all == lines::lines_of(body@),
                body@ == message.body@,
                lines::valid(body@.len() as int, all),
                parse_lines(body@, all, 0, Seq::empty(), Seq::empty()) == parse_lines(
                    body@,
                    all,
                    cursor as int,
                    preamble.deep_view(),
                    segments.deep_view(),
                ),
            decreases n - cursor,
        {
            let ghost preamble_before = preamble.deep_view();
            let ghost segments_before = segments.deep_view();
            let line = lines::line_at(body, &lines, cursor);
            if text::trim_of(line).len() == 0 {
                cursor += 1;
            } else {
                match parse_ugc_block(body, &lines, cursor) {
                    Some((ugc, content)) => {
                        let end: usize = find_segment_end(body, &lines, content);
                        match ProductSegment::parse(body, &lines, cursor, content, end, ugc) {
                            Err(e) => {
                                return Err(e);
                            },
                            Ok(segment) => {
                                let dollars: bool = segment.boundaries.separated_by_dollars;
                                segments.push(segment);
                                assert(segments.deep_view() =~= segments_before.push(
                                    segment.deep_view(),
                                ));
                                cursor = if dollars {
                                    end + 1
                                } else {
                                    end
                                };
                            },
                        }
                    },
                    None => {
                        let t = text::to_text(line);
                        preamble.push(t);
                        assert(preamble.deep_view() =~= preamble_before.push(t@));
                        cursor += 1;
                    },
                }
            }
        }
        let family = classify_family(&message.awips_id, &segments, &preamble);
        let mnd_header = first_nonblank_of(&preamble);
        let awips_id = match &message.awips_id {
            Some(id) => Some(id.copy()),
            None => None,
        };
        Ok(NwsProduct { family, awips_id, mnd_header, preamble, segments })
    }
}

impl NwwsContent {
    /// Reads a bulletin and the product in it.
    pub fn parse_bulletin(input: &[u8]) -> (r: Result<NwwsContent>)
        ensures
            parse_content(input@) == (match r {
                Ok(content) => Ok::<NwwsContentView, ErrorKind>(content.deep_view()),
                Err(e) => Err::<NwwsContentView, ErrorKind>(e.kind),
            }),
    {
        match WmoMessage::parse(input) {
            Ok(bulletin) => NwwsContent::from_bulletin(bulletin),
            Err(e) => Err(e),
        }
    }

    /// Adds to a bulletin the product in it.
    pub fn from_bulletin(bulletin: WmoMessage) -> (r: Result<NwwsContent>)
        ensures
            content_of(bulletin.deep_view()) == (match r {
                Ok(content) => Ok::<NwwsContentView, ErrorKind>(content.deep_view()),
                Err(e) => Err::<NwwsContentView, ErrorKind>(e.kind),
            }),
    {
        match NwsProduct::parse(&bulletin) {
            Ok(product) => Ok(NwwsContent { bulletin, product }),
            Err(e) => Err(e),
        }
    }
}

} // verus!
