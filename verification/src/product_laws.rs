//! What reading a product promises: every line of it is accounted for, and
//! every part of a segment is where the lines put it.

use vstd::prelude::*;

use crate::error::ErrorKind;
use crate::geo;
use crate::geo::{LatLonBlockView, TimeMotLocView};
use crate::lines;
use crate::product;
use crate::product::{NwsProductView, ProductSegmentView};
use crate::tags;
use crate::text;
use crate::ugc;
use crate::ugc::UgcStringView;
use crate::vtec;
use crate::vtec::PvtecView;
use crate::wmo::WmoMessageView;

verus! {

// ---------------------------------------------------------------------------
// Runs of VTEC lines
// ---------------------------------------------------------------------------

/// Whether the codes are the readings of the lines from `from` on, one for
/// each up to line `next`, and no code follows there before line `to`.
pub open spec fn is_pvtec_run(
    body: Seq<char>,
    lines: Seq<(int, int)>,
    from: int,
    to: int,
    codes: Seq<PvtecView>,
    next: int,
) -> bool {
    &&& from <= next <= to
    &&& codes.len() == next - from
    &&& forall|k: int|
        0 <= k < codes.len() ==> Some(#[trigger] codes[k]) == vtec::parse_pvtec(
            text::trim(body.subrange(lines[from + k].0, lines[from + k].1)),
        )
    &&& next < to ==> vtec::parse_pvtec(text::trim(body.subrange(lines[next].0, lines[next].1)))
        is None
}

/// Whether the codes are the hydrologic VTEC lines from `from` on, one for
/// each up to line `next`, and no other follows there before line `to`.
pub open spec fn is_hvtec_run(
    body: Seq<char>,
    lines: Seq<(int, int)>,
    from: int,
    to: int,
    codes: Seq<Seq<char>>,
    next: int,
) -> bool {
    &&& from <= next <= to
    &&& codes.len() == next - from
    &&& forall|k: int|
        0 <= k < codes.len() ==> vtec::is_hvtec(#[trigger] codes[k]) && codes[k] == text::trim(
            body.subrange(lines[from + k].0, lines[from + k].1),
        )
    &&& next < to ==> !vtec::is_hvtec(text::trim(body.subrange(lines[next].0, lines[next].1)))
}

proof fn lemma_pvtec_run(
    body: Seq<char>,
    lines: Seq<(int, int)>,
    from: int,
    i: int,
    to: int,
    done: Seq<PvtecView>,
)
    requires
        from <= i <= to,
        done.len() == i - from,
        forall|k: int|
            0 <= k < done.len() ==> Some(#[trigger] done[k]) == vtec::parse_pvtec(
                text::trim(body.subrange(lines[from + k].0, lines[from + k].1)),
            ),
    ensures
        ({
            let (codes, next) = product::pvtec_run(body, lines, i, to, done);
            is_pvtec_run(body, lines, from, to, codes, next)
        }),
    decreases to - i,
{
    if i < to {
        if let Some(code) = vtec::parse_pvtec(lines::trimmed_at(body, lines, i)) {
            lemma_pvtec_run(body, lines, from, i + 1, to, done.push(code));
        }
    }
}

proof fn lemma_hvtec_run(
    body: Seq<char>,
    lines: Seq<(int, int)>,
    from: int,
    i: int,
    to: int,
    done: Seq<Seq<char>>,
)
    requires
        from <= i <= to,
        done.len() == i - from,
        forall|k: int|
            0 <= k < done.len() ==> vtec::is_hvtec(#[trigger] done[k]) && done[k] == text::trim(
                body.subrange(lines[from + k].0, lines[from + k].1),
            ),
    ensures
        ({
            let (codes, next) = product::hvtec_run(body, lines, i, to, done);
            is_hvtec_run(body, lines, from, to, codes, next)
        }),
    decreases to - i,
{
    if i < to {
        let t = lines::trimmed_at(body, lines, i);
        if vtec::is_hvtec(t) {
            lemma_hvtec_run(body, lines, from, i + 1, to, done.push(t));
        }
    }
}

/// Every line of the unbroken run of primary VTEC lines is read: there are as
/// many codes as lines up to the first that is none, and each code is the
/// reading of its line.
pub proof fn every_pvtec_line_is_read(body: Seq<char>, lines: Seq<(int, int)>, from: int, to: int)
    requires
        from <= to,
    ensures
        ({
            let (codes, next) = product::pvtec_run(body, lines, from, to, Seq::empty());
            is_pvtec_run(body, lines, from, to, codes, next)
        }),
{
    lemma_pvtec_run(body, lines, from, from, to, Seq::empty());
}

/// Every line of the unbroken run of hydrologic VTEC lines is read.
pub proof fn every_hvtec_line_is_read(body: Seq<char>, lines: Seq<(int, int)>, from: int, to: int)
    requires
        from <= to,
    ensures
        ({
            let (codes, next) = product::hvtec_run(body, lines, from, to, Seq::empty());
            is_hvtec_run(body, lines, from, to, codes, next)
        }),
{
    lemma_hvtec_run(body, lines, from, from, to, Seq::empty());
}

// ---------------------------------------------------------------------------
// Segments
// ---------------------------------------------------------------------------

/// Whether line `i` begins with the words, white space before them aside.
pub open spec fn line_begins(
    body: Seq<char>,
    lines: Seq<(int, int)>,
    i: int,
    words: Seq<char>,
) -> bool {
    let t = text::trim_start(body.subrange(lines[i].0, lines[i].1));
    words.len() <= t.len() && t.subrange(0, words.len() as int) == words
}

/// Whether a text goes on with the numbers of a polygon: it is not empty and
/// made of digits and white space.
pub open spec fn is_number_line(t: Seq<char>) -> bool {
    &&& t.len() > 0
    &&& forall|i: int|
        0 <= i < t.len() ==> ('0' <= #[trigger] t[i] <= '9' || t[i] == ' ' || t[i] == '\t' || t[i]
            == '\n' || t[i] == '\r' || t[i] == '\x0c')
}

/// Whether the polygon is that of the first line among `from..to` that begins
/// one: read from that line and the lines of numbers that follow it.
pub open spec fn is_first_polygon(
    body: Seq<char>,
    lines: Seq<(int, int)>,
    from: int,
    to: int,
    polygon: Option<LatLonBlockView>,
) -> bool {
    match polygon {
        None => forall|i: int|
            from <= i < to ==> !#[trigger] line_begins(body, lines, i, "LAT...LON"@),
        Some(p) => exists|i: int, e: int|
            #![trigger line_begins(body, lines, i, "LAT...LON"@), lines[e]]
            from <= i <= e < to && line_begins(body, lines, i, "LAT...LON"@) && (forall|j: int|
                from <= j < i ==> !#[trigger] line_begins(body, lines, j, "LAT...LON"@))
                && geo::parse_lat_lon(body.subrange(lines[i].0, lines[e].1)) == Some(p) && (
            forall|j: int|
                i < j <= e ==> #[trigger] is_number_line(lines::trimmed_at(body, lines, j))) && (e
                + 1 < to ==> !is_number_line(lines::trimmed_at(body, lines, e + 1))),
    }
}

/// Whether the motion is that of the first line among `from..to` that begins
/// one.
pub open spec fn is_first_motion(
    body: Seq<char>,
    lines: Seq<(int, int)>,
    from: int,
    to: int,
    motion: Option<TimeMotLocView>,
) -> bool {
    match motion {
        None => forall|i: int|
            from <= i < to ==> !#[trigger] line_begins(body, lines, i, "TIME...MOT...LOC"@),
        Some(m) => exists|i: int|
            from <= i < to && #[trigger] line_begins(body, lines, i, "TIME...MOT...LOC"@) && (
            forall|j: int|
                from <= j < i ==> !#[trigger] line_begins(body, lines, j, "TIME...MOT...LOC"@))
                && geo::parse_motion(text::trim(body.subrange(lines[i].0, lines[i].1))) == Some(m),
    }
}

/// Whether the headline is the first of the texts that is more than white
/// space.
pub open spec fn is_first_text(texts: Seq<Seq<char>>, headline: Option<Seq<char>>) -> bool {
    match headline {
        None => forall|i: int| 0 <= i < texts.len() ==> text::trim(#[trigger] texts[i]).len() == 0,
        Some(h) => exists|i: int|
            0 <= i < texts.len() && #[trigger] texts[i] == h && text::trim(h).len() > 0 && (
            forall|j: int| 0 <= j < i ==> text::trim(#[trigger] texts[j]).len() == 0),
    }
}

/// Whether the segment is what stands on the lines `from..to`: the areas on
/// the lines before `content`, VTEC lines behind them, and the rest as text.
pub open spec fn segment_stands_at(
    body: Seq<char>,
    lines: Seq<(int, int)>,
    from: int,
    content: int,
    to: int,
    segment: ProductSegmentView,
) -> bool {
    let after = content + segment.pvtec.len();
    let start = after + segment.hvtec.len();
    &&& 0 <= from < content <= to <= lines.len()
    &&& ugc::parse_ugc(body.subrange(lines[from].0, lines[content - 1].1)) == Some(segment.ugc)
    &&& is_pvtec_run(body, lines, content, to, segment.pvtec, after)
    &&& is_hvtec_run(body, lines, after, to, segment.hvtec, start)
    &&& segment.body_lines.len() == to - start
    &&& forall|k: int|
        0 <= k < segment.body_lines.len() ==> #[trigger] segment.body_lines[k] == body.subrange(
            lines[start + k].0,
            lines[start + k].1,
        )
    &&& is_first_text(segment.body_lines, segment.headline)
    &&& is_first_polygon(body, lines, start, to, segment.lat_lon)
    &&& is_first_motion(body, lines, start, to, segment.time_mot_loc)
    &&& segment.tags == tags::segment_tags(segment.body_lines)
    &&& segment.boundaries.separated_by_dollars <==> to < lines.len() && text::trim(
        body.subrange(lines[to].0, lines[to].1),
    ) == seq!['$', '$']
    &&& segment.boundaries.contains_andand <==> exists|i: int|
        from <= i < to && text::trim(#[trigger] lines::text_at(body, lines, i)) == seq!['&', '&']
}

proof fn lemma_line_begins(body: Seq<char>, lines: Seq<(int, int)>, i: int, words: Seq<char>)
    ensures
        line_begins(body, lines, i, words) == text::starts_with(
            text::trim_start(lines::text_at(body, lines, i)),
            words,
        ),
{
    let t = text::trim_start(lines::text_at(body, lines, i));
    if words.len() <= t.len() {
        assert(t.take(words.len() as int) =~= t.subrange(0, words.len() as int));
    }
}

proof fn lemma_number_line(t: Seq<char>)
    ensures
        is_number_line(t) == !(product::ends_block(t) || text::starts_with(
            t,
            "TIME...MOT...LOC"@,
        ) || !product::digits_and_white(t)),
{
    reveal_strlit("$$");
    reveal_strlit("&&");
    reveal_strlit("TIME...MOT...LOC");
    assert("$$"@[0] == '$');
    assert("&&"@[0] == '&');
    assert("TIME...MOT...LOC"@[0] == 'T');
    if is_number_line(t) {
        let c = t[0];
        assert(c != '$' && c != '&' && c != '/' && c != 'T');
        if text::starts_with(t, "TIME...MOT...LOC"@) {
            assert(t.take(16)[0] == t[0]);
        }
        assert(product::digits_and_white(t));
    } else if product::digits_and_white(t) && t.len() > 0 {
        assert(is_number_line(t));
    }
}

proof fn lemma_lat_lon_end(body: Seq<char>, lines: Seq<(int, int)>, i: int, e: int, to: int)
    requires
        i <= e < to,
        forall|j: int|
            i < j <= e ==> #[trigger] is_number_line(lines::trimmed_at(body, lines, j)),
    ensures
        ({
            let r = product::lat_lon_end(body, lines, e, to);
            &&& e <= r < to
            &&& forall|j: int|
                i < j <= r ==> #[trigger] is_number_line(lines::trimmed_at(body, lines, j))
            &&& r + 1 < to ==> !is_number_line(lines::trimmed_at(body, lines, r + 1))
        }),
    decreases to - e,
{
    if e + 1 < to {
        lemma_number_line(lines::trimmed_at(body, lines, e + 1));
        if is_number_line(lines::trimmed_at(body, lines, e + 1)) {
            lemma_lat_lon_end(body, lines, i, e + 1, to);
        }
    }
}

proof fn lemma_first_polygon(body: Seq<char>, lines: Seq<(int, int)>, from: int, i: int, to: int)
    requires
        0 <= from <= i <= to <= lines.len(),
        forall|j: int| from <= j < i ==> !#[trigger] line_begins(body, lines, j, "LAT...LON"@),
    ensures
        product::lat_lon_in(body, lines, i, to) matches Ok(p) ==> is_first_polygon(
            body,
            lines,
            from,
            to,
            p,
        ),
    decreases to - i,
{
    if i < to {
        lemma_line_begins(body, lines, i, "LAT...LON"@);
        if line_begins(body, lines, i, "LAT...LON"@) {
            lemma_lat_lon_end(body, lines, i, i, to);
            let e = product::lat_lon_end(body, lines, i, to);
            assert(lines[e] == lines[e]);
        } else {
            lemma_first_polygon(body, lines, from, i + 1, to);
        }
    }
}

proof fn lemma_first_motion(body: Seq<char>, lines: Seq<(int, int)>, from: int, i: int, to: int)
    requires
        0 <= from <= i <= to <= lines.len(),
        forall|j: int|
            from <= j < i ==> !#[trigger] line_begins(body, lines, j, "TIME...MOT...LOC"@),
    ensures
        product::motion_in(body, lines, i, to) matches Ok(m) ==> is_first_motion(
            body,
            lines,
            from,
            to,
            m,
        ),
    decreases to - i,
{
    if i < to {
        lemma_line_begins(body, lines, i, "TIME...MOT...LOC"@);
        if !line_begins(body, lines, i, "TIME...MOT...LOC"@) {
            lemma_first_motion(body, lines, from, i + 1, to);
        }
    }
}

proof fn lemma_first_text(texts: Seq<Seq<char>>, i: int)
    requires
        0 <= i <= texts.len(),
        forall|j: int| 0 <= j < i ==> text::trim(#[trigger] texts[j]).len() == 0,
    ensures
        is_first_text(texts, product::first_nonblank(texts, i)),
    decreases texts.len() - i,
{
    if i < texts.len() && text::trim(texts[i]).len() == 0 {
        lemma_first_text(texts, i + 1);
    }
}

/// A segment that is read holds what stands on its lines: every VTEC line,
/// every line of text, the first polygon and the first motion line.
pub proof fn segments_hold_their_lines(
    body: Seq<char>,
    lines: Seq<(int, int)>,
    from: int,
    content: int,
    to: int,
    areas: UgcStringView,
    segment: ProductSegmentView,
)
    requires
        0 <= from < content <= to <= lines.len(),
        ugc::parse_ugc(body.subrange(lines[from].0, lines[content - 1].1)) == Some(areas),
        product::parse_segment(body, lines, from, content, to, areas) == Ok::<
            ProductSegmentView,
            ErrorKind,
        >(segment),
    ensures
        segment_stands_at(body, lines, from, content, to, segment),
{
    every_pvtec_line_is_read(body, lines, content, to);
    let after = product::pvtec_run(body, lines, content, to, Seq::empty()).1;
    every_hvtec_line_is_read(body, lines, after, to);
    let start = product::hvtec_run(body, lines, after, to, Seq::empty()).1;
    lemma_first_polygon(body, lines, start, start, to);
    lemma_first_motion(body, lines, start, start, to);
    lemma_first_text(segment.body_lines, 0);
    reveal_strlit("$$");
    reveal_strlit("&&");
    assert("$$"@ =~= seq!['$', '$']);
    assert("&&"@ =~= seq!['&', '&']);
    assert forall|k: int| 0 <= k < segment.body_lines.len() implies #[trigger] segment.body_lines[k]
        == body.subrange(lines[start + k].0, lines[start + k].1) by {
        assert(segment.body_lines[k] == lines::text_at(body, lines, start + k));
    }
    if segment.boundaries.contains_andand {
        let i = choose|i: int|
            from <= i < to && #[trigger] lines::trimmed_at(body, lines, i) == "&&"@;
        assert(text::trim(lines::text_at(body, lines, i)) == seq!['&', '&']);
    }
    if exists|i: int|
        from <= i < to && text::trim(#[trigger] lines::text_at(body, lines, i)) == seq!['&', '&'] {
        let i = choose|i: int|
            from <= i < to && text::trim(#[trigger] lines::text_at(body, lines, i)) == seq![
                '&',
                '&',
            ];
        assert(lines::trimmed_at(body, lines, i) == "&&"@);
    }
}

// ---------------------------------------------------------------------------
// Areas
// ---------------------------------------------------------------------------

/// Whether a line ends a block of lines: it is blank, a separator, or begins
/// with a slash.
pub open spec fn is_block_end(t: Seq<char>) -> bool {
    t.len() == 0 || t == seq!['$', '$'] || t == seq!['&', '&'] || t[0] == '/'
}

proof fn lemma_block_end(t: Seq<char>)
    ensures
        is_block_end(t) == product::ends_block(t),
{
    reveal_strlit("$$");
    reveal_strlit("&&");
    assert("$$"@ =~= seq!['$', '$']);
    assert("&&"@ =~= seq!['&', '&']);
}

/// Whether areas are read from line `from` up to line `next`: these lines are
/// areas, no fewer of them are, and none behind the first ends a block.
pub open spec fn areas_stand_at(
    body: Seq<char>,
    lines: Seq<(int, int)>,
    from: int,
    next: int,
    areas: UgcStringView,
) -> bool {
    &&& 0 <= from < next <= lines.len()
    &&& text::trim(lines::text_at(body, lines, from)).len() > 0
    &&& ugc::parse_ugc(body.subrange(lines[from].0, lines[next - 1].1)) == Some(areas)
    &&& forall|e: int|
        from <= e < next - 1 ==> ugc::parse_ugc(
            body.subrange(lines[from].0, (#[trigger] lines[e]).1),
        ) is None
    &&& forall|e: int|
        from < e < next ==> !is_block_end(text::trim(#[trigger] lines::text_at(body, lines, e)))
}

proof fn lemma_areas(body: Seq<char>, lines: Seq<(int, int)>, from: int, end: int)
    requires
        0 <= from <= end < lines.len(),
        text::trim(lines::text_at(body, lines, from)).len() > 0,
        forall|e: int|
            from <= e < end ==> ugc::parse_ugc(
                body.subrange(lines[from].0, (#[trigger] lines[e]).1),
            ) is None,
        forall|e: int|
            from < e <= end ==> !is_block_end(text::trim(#[trigger] lines::text_at(body, lines, e))),
    ensures
        match product::ugc_block_to(body, lines, from, end) {
            Some((areas, next)) => areas_stand_at(body, lines, from, next, areas),
            None => forall|areas: UgcStringView, next: int|
                end < next ==> !#[trigger] areas_stand_at(body, lines, from, next, areas),
        },
    decreases lines.len() - end,
{
    if end + 1 < lines.len() {
        lemma_block_end(lines::trimmed_at(body, lines, end + 1));
    }
    match ugc::parse_ugc(body.subrange(lines[from].0, lines[end].1)) {
        Some(areas) => {
            assert(areas_stand_at(body, lines, from, end + 1, areas));
        },
        None => {
            if end + 1 >= lines.len() || product::ends_block(
                lines::trimmed_at(body, lines, end + 1),
            ) {
                assert forall|areas: UgcStringView, next: int| end < next implies
                    !#[trigger] areas_stand_at(body, lines, from, next, areas) by {
                    if areas_stand_at(body, lines, from, next, areas) && next > end + 1 {
                        assert(is_block_end(text::trim(lines::text_at(body, lines, end + 1))));
                    }
                }
            } else {
                lemma_areas(body, lines, from, end + 1);
                if product::ugc_block_to(body, lines, from, end + 1) is None {
                    assert forall|areas: UgcStringView, next: int| end < next implies
                        !#[trigger] areas_stand_at(body, lines, from, next, areas) by {
                        if next == end + 1 && areas_stand_at(body, lines, from, next, areas) {
                            assert(false);
                        }
                    }
                }
            }
        },
    }
}

/// Areas are found at a line exactly where areas stand there, and they are
/// those that stand on the fewest lines.
pub proof fn areas_are_found_where_they_stand(body: Seq<char>, lines: Seq<(int, int)>, from: int)
    requires
        0 <= from,
    ensures
        match product::ugc_block(body, lines, from) {
            Some((areas, next)) => areas_stand_at(body, lines, from, next, areas),
            None => forall|areas: UgcStringView, next: int|
                !#[trigger] areas_stand_at(body, lines, from, next, areas),
        },
{
    if from < lines.len() && lines::trimmed_at(body, lines, from).len() > 0 {
        lemma_areas(body, lines, from, from);
    }
}

// ---------------------------------------------------------------------------
// Products
// ---------------------------------------------------------------------------

/// Where a segment stands: its first line, the line behind its areas, and the
/// line behind its last.
pub struct Place {
    pub from: int,
    pub content: int,
    pub to: int,
}

/// Whether a segment that goes on at line `content` ends at line `to`: there
/// and nowhere before is a `$$` line, the next areas, or the end of the text.
pub open spec fn segment_ends_at(
    body: Seq<char>,
    lines: Seq<(int, int)>,
    content: int,
    to: int,
) -> bool {
    &&& content <= to <= lines.len()
    &&& forall|i: int|
        content <= i < to ==> text::trim(#[trigger] lines::text_at(body, lines, i)) != seq!['$', '$']
            && product::ugc_block(body, lines, i) is None
    &&& to < lines.len() ==> text::trim(lines::text_at(body, lines, to)) == seq!['$', '$']
        || product::ugc_block(body, lines, to) is Some
}

proof fn lemma_segment_ends(body: Seq<char>, lines: Seq<(int, int)>, content: int, i: int)
    requires
        0 <= content <= i <= lines.len(),
        forall|j: int|
            content <= j < i ==> text::trim(#[trigger] lines::text_at(body, lines, j)) != seq![
                '$',
                '$',
            ] && product::ugc_block(body, lines, j) is None,
    ensures
        segment_ends_at(body, lines, content, product::segment_end(body, lines, i)),
    decreases lines.len() - i,
{
    reveal_strlit("$$");
    assert("$$"@ =~= seq!['$', '$']);
    if !(i >= lines.len() || lines::trimmed_at(body, lines, i) == "$$"@ || product::ugc_block(
        body,
        lines,
        i,
    ) is Some) {
        lemma_segment_ends(body, lines, content, i + 1);
    }
}

/// Whether line `i` belongs to a segment that stands at one of the places, the
/// `$$` line that ends it among it.
pub open spec fn in_segment(
    segments: Seq<ProductSegmentView>,
    places: Seq<Place>,
    i: int,
) -> bool {
    exists|k: int|
        0 <= k < places.len() && (#[trigger] places[k]).from <= i && (i < places[k].to || (i
            == places[k].to && segments[k].boundaries.separated_by_dollars))
}

/// Whether the lines before `end` are accounted for: the segments stand at the
/// places, one behind the other; the preamble is the text of the lines at
/// `outside`, in their order; and every other line is blank.
pub open spec fn accounted(
    body: Seq<char>,
    lines: Seq<(int, int)>,
    end: int,
    preamble: Seq<Seq<char>>,
    segments: Seq<ProductSegmentView>,
    places: Seq<Place>,
    outside: Seq<int>,
) -> bool {
    &&& places.len() == segments.len()
    &&& outside.len() == preamble.len()
    &&& forall|k: int|
        0 <= k < places.len() ==> {
            &&& segment_stands_at(
                body,
                lines,
                (#[trigger] places[k]).from,
                places[k].content,
                places[k].to,
                segments[k],
            )
            &&& areas_stand_at(body, lines, places[k].from, places[k].content, segments[k].ugc)
            &&& segment_ends_at(body, lines, places[k].content, places[k].to)
            &&& places[k].to <= end
            &&& segments[k].boundaries.separated_by_dollars ==> places[k].to < end
        }
    &&& forall|k: int, l: int|
        #![trigger places[k], places[l]]
        0 <= k < l < places.len() ==> places[k].to <= places[l].from
    &&& forall|k: int|
        0 <= k < outside.len() ==> {
            &&& 0 <= (#[trigger] outside[k]) < end
            &&& preamble[k] == lines::text_at(body, lines, outside[k])
            &&& text::trim(preamble[k]).len() > 0
            &&& product::ugc_block(body, lines, outside[k]) is None
            &&& !in_segment(segments, places, outside[k])
        }
    &&& forall|k: int, l: int|
        #![trigger outside[k], outside[l]]
        0 <= k < l < outside.len() ==> outside[k] < outside[l]
    &&& forall|i: int|
        0 <= i < end ==> text::trim(#[trigger] lines::text_at(body, lines, i)).len() == 0
            || in_segment(segments, places, i) || outside.contains(i)
}

proof fn lemma_in_segment_push(
    segments: Seq<ProductSegmentView>,
    places: Seq<Place>,
    segment: ProductSegmentView,
    place: Place,
    i: int,
)
    requires
        places.len() == segments.len(),
    ensures
        in_segment(segments.push(segment), places.push(place), i) == (in_segment(
            segments,
            places,
            i,
        ) || (place.from <= i && (i < place.to || (i == place.to
            && segment.boundaries.separated_by_dollars)))),
{
    let s = segments.push(segment);
    let p = places.push(place);
    if in_segment(segments, places, i) {
        let k = choose|k: int|
            0 <= k < places.len() && (#[trigger] places[k]).from <= i && (i < places[k].to || (i
                == places[k].to && segments[k].boundaries.separated_by_dollars));
        assert(p[k] == places[k] && s[k] == segments[k]);
    }
    if place.from <= i && (i < place.to || (i == place.to
        && segment.boundaries.separated_by_dollars)) {
        assert(p[places.len() as int] == place);
    }
    if in_segment(s, p, i) {
        let k = choose|k: int|
            0 <= k < p.len() && (#[trigger] p[k]).from <= i && (i < p[k].to || (i == p[k].to
                && s[k].boundaries.separated_by_dollars));
        if k < places.len() {
            assert(p[k] == places[k] && s[k] == segments[k]);
        }
    }
}

#[verifier::spinoff_prover]
proof fn lemma_account_blank(
    body: Seq<char>,
    lines: Seq<(int, int)>,
    cursor: int,
    preamble: Seq<Seq<char>>,
    segments: Seq<ProductSegmentView>,
    places: Seq<Place>,
    outside: Seq<int>,
)
    requires
        0 <= cursor < lines.len(),
        accounted(body, lines, cursor, preamble, segments, places, outside),
        lines::trimmed_at(body, lines, cursor).len() == 0,
    ensures
        accounted(body, lines, cursor + 1, preamble, segments, places, outside),
{
    assert forall|i: int| 0 <= i < cursor + 1 implies text::trim(
        #[trigger] lines::text_at(body, lines, i),
    ).len() == 0 || in_segment(segments, places, i) || outside.contains(i) by {}
}

#[verifier::spinoff_prover]
proof fn lemma_account_outside(
    body: Seq<char>,
    lines: Seq<(int, int)>,
    cursor: int,
    preamble: Seq<Seq<char>>,
    segments: Seq<ProductSegmentView>,
    places: Seq<Place>,
    outside: Seq<int>,
)
    requires
        0 <= cursor < lines.len(),
        accounted(body, lines, cursor, preamble, segments, places, outside),
        lines::trimmed_at(body, lines, cursor).len() > 0,
        product::ugc_block(body, lines, cursor) is None,
    ensures
        accounted(
            body,
            lines,
            cursor + 1,
            preamble.push(lines::text_at(body, lines, cursor)),
            segments,
            places,
            outside.push(cursor),
        ),
{
    let o = outside.push(cursor);
    if in_segment(segments, places, cursor) {
        let k = choose|k: int|
            0 <= k < places.len() && (#[trigger] places[k]).from <= cursor && (cursor
                < places[k].to || (cursor == places[k].to
                && segments[k].boundaries.separated_by_dollars));
        assert(false);
    }
    assert forall|i: int| 0 <= i < cursor + 1 implies text::trim(
        #[trigger] lines::text_at(body, lines, i),
    ).len() == 0 || in_segment(segments, places, i) || o.contains(i) by {
        if i == cursor {
            assert(o[outside.len() as int] == i);
        } else if outside.contains(i) {
            let k = outside.index_of(i);
            assert(o[k] == i);
        }
    }
}

#[verifier::spinoff_prover]
proof fn lemma_account_segment(
    body: Seq<char>,
    lines: Seq<(int, int)>,
    cursor: int,
    next: int,
    preamble: Seq<Seq<char>>,
    segments: Seq<ProductSegmentView>,
    places: Seq<Place>,
    outside: Seq<int>,
    place: Place,
    segment: ProductSegmentView,
)
    requires
        0 <= cursor < lines.len(),
        accounted(body, lines, cursor, preamble, segments, places, outside),
        place.from == cursor,
        segment_stands_at(body, lines, place.from, place.content, place.to, segment),
        areas_stand_at(body, lines, place.from, place.content, segment.ugc),
        segment_ends_at(body, lines, place.content, place.to),
        next == (if segment.boundaries.separated_by_dollars {
            place.to + 1
        } else {
            place.to
        }),
    ensures
        accounted(
            body,
            lines,
            next,
            preamble,
            segments.push(segment),
            places.push(place),
            outside,
        ),
{
    let s = segments.push(segment);
    let p = places.push(place);
    assert forall|k: int| 0 <= k < p.len() implies {
        &&& segment_stands_at(
            body,
            lines,
            (#[trigger] p[k]).from,
            p[k].content,
            p[k].to,
            s[k],
        )
        &&& areas_stand_at(body, lines, p[k].from, p[k].content, s[k].ugc)
        &&& segment_ends_at(body, lines, p[k].content, p[k].to)
        &&& p[k].to <= next
        &&& s[k].boundaries.separated_by_dollars ==> p[k].to < next
    } by {
        if k < places.len() {
            assert(p[k] == places[k] && s[k] == segments[k]);
        }
    }
    assert forall|k: int| 0 <= k < outside.len() implies !in_segment(
        s,
        p,
        #[trigger] outside[k],
    ) by {
        lemma_in_segment_push(segments, places, segment, place, outside[k]);
    }
    assert forall|i: int| 0 <= i < next implies text::trim(
        #[trigger] lines::text_at(body, lines, i),
    ).len() == 0 || in_segment(s, p, i) || outside.contains(i) by {
        lemma_in_segment_push(segments, places, segment, place, i);
    }
}

proof fn lemma_account(
    body: Seq<char>,
    lines: Seq<(int, int)>,
    cursor: int,
    preamble: Seq<Seq<char>>,
    segments: Seq<ProductSegmentView>,
    places: Seq<Place>,
    outside: Seq<int>,
) -> (w: (Seq<Place>, Seq<int>))
    requires
        0 <= cursor <= lines.len(),
        accounted(body, lines, cursor, preamble, segments, places, outside),
        product::parse_lines(body, lines, cursor, preamble, segments) is Ok,
    ensures
        product::parse_lines(body, lines, cursor, preamble, segments) matches Ok((p, s))
            && accounted(body, lines, lines.len() as int, p, s, w.0, w.1),
    decreases lines.len() - cursor,
{
    if cursor >= lines.len() {
        (places, outside)
    } else if lines::trimmed_at(body, lines, cursor).len() == 0 {
        lemma_account_blank(body, lines, cursor, preamble, segments, places, outside);
        lemma_account(body, lines, cursor + 1, preamble, segments, places, outside)
    } else {
        match product::ugc_block(body, lines, cursor) {
            Some((areas, content)) => {
                areas_are_found_where_they_stand(body, lines, cursor);
                let to = product::segment_end(body, lines, content);
                lemma_segment_ends(body, lines, content, content);
                let segment = product::parse_segment(
                    body,
                    lines,
                    cursor,
                    content,
                    to,
                    areas,
                )->Ok_0;
                segments_hold_their_lines(body, lines, cursor, content, to, areas, segment);
                let place = Place { from: cursor, content, to };
                let next = if segment.boundaries.separated_by_dollars {
                    to + 1
                } else {
                    to
                };
                lemma_account_segment(
                    body,
                    lines,
                    cursor,
                    next,
                    preamble,
                    segments,
                    places,
                    outside,
                    place,
                    segment,
                );
                lemma_account(
                    body,
                    lines,
                    next,
                    preamble,
                    segments.push(segment),
                    places.push(place),
                    outside,
                )
            },
            None => {
                lemma_account_outside(body, lines, cursor, preamble, segments, places, outside);
                lemma_account(
                    body,
                    lines,
                    cursor + 1,
                    preamble.push(lines::text_at(body, lines, cursor)),
                    segments,
                    places,
                    outside.push(cursor),
                )
            },
        }
    }
}

/// Every line of a body is accounted for in the product that is read from it:
/// it is part of one segment, a line of the preamble, or blank. Nothing is
/// lost, and nothing is read twice.
pub proof fn products_account_for_every_line(m: WmoMessageView, p: NwsProductView) -> (w: (
    Seq<Place>,
    Seq<int>,
))
    requires
        product::parse_product(m) == Ok::<NwsProductView, ErrorKind>(p),
    ensures
        ({
            let lines = lines::lines_of(m.body);
            accounted(
                m.body,
                lines,
                lines.len() as int,
                p.preamble,
                p.segments,
                w.0,
                w.1,
            )
        }),
        is_first_text(p.preamble, p.mnd_header),
        p.awips_id == m.awips_id,
{
    let lines = lines::lines_of(m.body);
    let none = Seq::<Place>::empty();
    lemma_first_text(p.preamble, 0);
    lemma_account(m.body, lines, 0, Seq::empty(), Seq::empty(), none, Seq::empty())
}

} // verus!

