//! What warning records promise: which lines of a message give a record, what
//! the record says of its line, when it was issued, and what the tags and the
//! geometry of its segment amount to.

use vstd::prelude::*;

use crate::clock;
use crate::code_laws;
use crate::geo;
use crate::geo::{GeoPoint, LatLonBlockView, TimeMotLocView};
use crate::issue_time;
use crate::number;
use crate::product::{NwwsContentView, ProductSegmentView};
use crate::summary;
use crate::tags;
use crate::tags::{SegmentTagView, WarningTextTagView};
use crate::vtec::{PvtecView, Significance, VtecAction};
use crate::warning;
use crate::warning::{ContextView, StateView};
use crate::warning_tags;
use crate::warning_tags::{TagValues, WarningPoint, WindSpeedView};

verus! {

// ---------------------------------------------------------------------------
// Issue times
// ---------------------------------------------------------------------------

/// How far apart two instants are.
pub open spec fn apart(a: int, b: int) -> int {
    if a < b {
        b - a
    } else {
        a - b
    }
}

/// Whether a month is that of an instant, the one before it or the one after
/// it.
pub open spec fn near_month(year: int, month: int, reference: int) -> bool {
    let date = clock::calendar(clock::julian_of(reference));
    1 <= month <= 12 && -1 <= (year * 12 + month) - (date.0 * 12 + date.1) <= 1
}

/// The instant that a group of day, hour and minute names in a month.
pub open spec fn named_in(group: Seq<char>, year: int, month: int) -> Option<int> {
    clock::civil(
        year,
        month,
        code_laws::pair_at(group, 0),
        code_laws::pair_at(group, 2),
        code_laws::pair_at(group, 4),
    )
}

proof fn lemma_offset_month(group: Seq<char>, reference: int, offset: int) -> (at: (int, int))
    requires
        -1 <= offset <= 1,
    ensures
        near_month(at.0, at.1, reference),
        issue_time::candidate(group, reference, offset) == named_in(group, at.0, at.1),
{
    let date = clock::calendar(clock::julian_of(reference));
    let total = date.0 * 12 + (date.1 - 1) + offset;
    assert(total == (total / 12) * 12 + total % 12);
    (total / 12, total % 12 + 1)
}

proof fn lemma_month_offset(group: Seq<char>, reference: int, year: int, month: int) -> (offset: int)
    requires
        near_month(year, month, reference),
    ensures
        -1 <= offset <= 1,
        issue_time::candidate(group, reference, offset) == named_in(group, year, month),
{
    let date = clock::calendar(clock::julian_of(reference));
    let offset = (year * 12 + month) - (date.0 * 12 + date.1);
    let total = date.0 * 12 + (date.1 - 1) + offset;
    assert(total == year * 12 + (month - 1));
    assert(total / 12 == year && total % 12 == month - 1);
    offset
}

/// A group of six digits stands for an instant that it names, by day of
/// month, hour and minute, in the month of the reference or one next to it.
pub proof fn issue_times_are_named_by_their_group(group: Seq<char>, reference: int) -> (at: (
    int,
    int,
))
    ensures
        issue_time::inferred(group, reference) matches Some(n) ==> {
            &&& group.len() == 6
            &&& forall|i: int| 0 <= i < 6 ==> '0' <= #[trigger] group[i] <= '9'
            &&& near_month(at.0, at.1, reference)
            &&& named_in(group, at.0, at.1) == Some(n)
        },
{
    let a = issue_time::candidate(group, reference, -1);
    let b = issue_time::candidate(group, reference, 0);
    let c = issue_time::candidate(group, reference, 1);
    let x = lemma_offset_month(group, reference, -1);
    let y = lemma_offset_month(group, reference, 0);
    let z = lemma_offset_month(group, reference, 1);
    let r = issue_time::inferred(group, reference);
    if r == a {
        x
    } else if r == b {
        y
    } else {
        z
    }
}

/// Of the instants that a group names in the month of the reference and the
/// two next to it, none is nearer to the reference by a second or more than
/// the one it stands for; and where it names one, it stands for one.
pub proof fn issue_times_are_the_nearest(group: Seq<char>, reference: int, year: int, month: int)
    requires
        group.len() == 6,
        forall|i: int| 0 <= i < 6 ==> '0' <= #[trigger] group[i] <= '9',
        near_month(year, month, reference),
        named_in(group, year, month) is Some,
    ensures
        issue_time::inferred(group, reference) is Some,
        apart(issue_time::inferred(group, reference)->0, reference) < apart(
            named_in(group, year, month)->0,
            reference,
        ) + 1_000_000_000,
{
    assert(number::all_digits(group));
    let offset = lemma_month_offset(group, reference, year, month);
    issue_time::inferred_is_nearest(group, reference, offset);
}

/// A record was issued at the time of its wrapper. Without one, at the time
/// of the heading nearest to the query time; without that, nearest to the
/// start of the event, and without that, nearest to its end.
pub proof fn issue_times_come_from_the_best_source(
    group: Seq<char>,
    wrapper: Option<int>,
    query: Option<int>,
    p: PvtecView,
)
    ensures
        ({
            let issued = issue_time::issue_time(group, wrapper, query, p);
            &&& wrapper is Some ==> issued == wrapper
            &&& wrapper is None && query is Some && issue_time::inferred(group, query->0) is Some
                ==> issued == issue_time::inferred(group, query->0)
            &&& wrapper is None && query is None && p.start is Some && issue_time::inferred(
                group,
                p.start->0,
            ) is Some ==> issued == issue_time::inferred(group, p.start->0)
            &&& wrapper is None && query is None && p.start is None && p.end is Some
                ==> issued == issue_time::inferred(group, p.end->0)
            &&& wrapper is None && query is None && p.start is None && p.end is None
                ==> issued is None
        }),
{
}

// ---------------------------------------------------------------------------
// Records
// ---------------------------------------------------------------------------

/// Whether the record of a state tells of VTEC line `v` of segment `s`: it
/// repeats what the line, the segment and the bulletin say.
pub open spec fn tells_of(
    state: StateView,
    ctx: ContextView,
    content: NwwsContentView,
    s: int,
    v: int,
) -> bool {
    let segment = content.product.segments[s];
    let p = segment.pvtec[v];
    let r = state.record;
    &&& state.action == p.action
    &&& state.valid_start == p.start
    &&& state.valid_end == p.end
    &&& r.valid_start == clock::written(p.start)
    &&& r.valid_end == clock::written(p.end)
    &&& r.expires_at == r.valid_end
    &&& r.issued_at == clock::written(state.issued_at)
    &&& r.wrapper_id == ctx.wrapper_id
    &&& r.wrapper_issued_at == clock::written(ctx.wrapper_issue)
    &&& r.source_path == ctx.source_path
    &&& r.byte_range == ctx.byte_range
    &&& r.message_index == ctx.message_index
    &&& r.segment_index == s + 1
    &&& r.vtec_index == v + 1
    &&& r.office == p.office_id
    &&& r.message_office == content.bulletin.heading.cccc
    &&& r.awips_id == content.bulletin.awips_id
    &&& r.action == p.action.spec_str()
    &&& r.event_class == p.event_class.spec_str()
    &&& r.phenomenon == p.phenomenon.spec_str()
    &&& r.significance == seq!['W']
    &&& r.event_tracking_number == p.event_tracking_number
    &&& r.vtec == p.raw
    &&& r.ugc_raw == segment.ugc.raw
    &&& r.headline == segment.headline
    &&& r.lifecycle_status is None
    &&& r.canceled_at == if p.action.spec_str() == seq!['C', 'A', 'N'] {
        r.issued_at
    } else {
        None
    }
    &&& r.updated_at == if p.action.spec_str() == seq!['N', 'E', 'W'] || p.action.spec_str()
        == seq!['C', 'A', 'N'] || p.action.spec_str() == seq!['E', 'X', 'P'] {
        None
    } else {
        r.issued_at
    }
}

#[verifier::spinoff_prover]
#[verifier::rlimit(50)]
proof fn lemma_state_tells(ctx: ContextView, content: NwwsContentView, s: int, v: int)
    requires
        content.product.segments[s].pvtec[v].significance == Significance::Warning,
    ensures
        tells_of(warning::state_of(ctx, content, s, v), ctx, content, s, v),
{
    let p = content.product.segments[s].pvtec[v];
    reveal_strlit("W");
    reveal_strlit("NEW");
    reveal_strlit("CON");
    reveal_strlit("EXT");
    reveal_strlit("EXA");
    reveal_strlit("EXB");
    reveal_strlit("UPG");
    reveal_strlit("CAN");
    reveal_strlit("EXP");
    reveal_strlit("COR");
    reveal_strlit("ROU");
    assert("W"@ =~= seq!['W']);
    assert("NEW"@ =~= seq!['N', 'E', 'W']);
    assert("CAN"@ =~= seq!['C', 'A', 'N']);
    assert("EXP"@ =~= seq!['E', 'X', 'P']);
    let t = p.action.spec_str();
    let new = seq!['N', 'E', 'W'];
    let can = seq!['C', 'A', 'N'];
    let exp = seq!['E', 'X', 'P'];
    assert(new[0] == 'N' && can[0] == 'C' && exp[0] == 'E' && exp[2] == 'P' && can[1] == 'A');
    assert(t == new <==> p.action == VtecAction::New);
    assert(t == can <==> p.action == VtecAction::Cancel);
    assert(t == exp <==> p.action == VtecAction::Expire);
}

/// Whether line `v` of segment `s` is of a warning.
pub open spec fn is_warning_line(content: NwwsContentView, s: int, v: int) -> bool {
    &&& 0 <= s < content.product.segments.len()
    &&& 0 <= v < content.product.segments[s].pvtec.len()
    &&& content.product.segments[s].pvtec[v].significance == Significance::Warning
}

/// Whether one place stands before another: in an earlier segment, or on an
/// earlier line of the same segment.
pub open spec fn place_before(a: (int, int), b: (int, int)) -> bool {
    a.0 < b.0 || (a.0 == b.0 && a.1 < b.1)
}

/// Whether a state is that of the warning line at a place.
pub open spec fn is_state_at(
    state: StateView,
    place: (int, int),
    ctx: ContextView,
    content: NwwsContentView,
) -> bool {
    is_warning_line(content, place.0, place.1) && tells_of(state, ctx, content, place.0, place.1)
}

/// Whether the states are those of the lines at `places`, which are all the
/// warning lines before segment `s` and before line `v` of it, in their order.
pub open spec fn are_states_upto(
    states: Seq<StateView>,
    places: Seq<(int, int)>,
    ctx: ContextView,
    content: NwwsContentView,
    s: int,
    v: int,
) -> bool {
    &&& states.len() == places.len()
    &&& forall|k: int|
        0 <= k < places.len() ==> is_state_at(states[k], #[trigger] places[k], ctx, content)
            && place_before(places[k], (s, v))
    &&& forall|k: int, m: int|
        0 <= k < m < places.len() ==> place_before(#[trigger] places[k], #[trigger] places[m])
    &&& forall|a: int, b: int| #[trigger]
        is_warning_line(content, a, b) && place_before((a, b), (s, v)) ==> places.contains((a, b))
}

proof fn lemma_place_added(
    states: Seq<StateView>,
    places: Seq<(int, int)>,
    state: StateView,
    ctx: ContextView,
    content: NwwsContentView,
    s: int,
    v: int,
)
    requires
        are_states_upto(states, places, ctx, content, s, v),
        is_state_at(state, (s, v), ctx, content),
    ensures
        are_states_upto(states.push(state), places.push((s, v)), ctx, content, s, v + 1),
{
    let more = places.push((s, v));
    let all = states.push(state);
    assert forall|a: int, b: int| #[trigger]
        is_warning_line(content, a, b) && place_before((a, b), (s, v + 1)) implies more.contains(
        (a, b),
    ) by {
        if place_before((a, b), (s, v)) {
            assert(places.contains((a, b)));
            let k = choose|k: int| 0 <= k < places.len() && places[k] == (a, b);
            assert(more[k] == (a, b));
        } else {
            assert(more[places.len() as int] == (a, b));
        }
    }
    assert forall|k: int| 0 <= k < more.len() implies is_state_at(
        all[k],
        #[trigger] more[k],
        ctx,
        content,
    ) && place_before(more[k], (s, v + 1)) by {
        if k < places.len() {
            assert(more[k] == places[k]);
            assert(all[k] == states[k]);
        }
    }
    assert forall|k: int, m: int| 0 <= k < m < more.len() implies place_before(
        #[trigger] more[k],
        #[trigger] more[m],
    ) by {
        assert(more[k] == places[k]);
        if m < places.len() {
            assert(more[m] == places[m]);
        }
    }
}

proof fn lemma_place_passed(
    states: Seq<StateView>,
    places: Seq<(int, int)>,
    ctx: ContextView,
    content: NwwsContentView,
    from: (int, int),
    to: (int, int),
)
    requires
        are_states_upto(states, places, ctx, content, from.0, from.1),
        forall|p: (int, int)| #[trigger] place_before(p, from) ==> place_before(p, to),
        forall|a: int, b: int| #[trigger]
            is_warning_line(content, a, b) && place_before((a, b), to) ==> place_before(
                (a, b),
                from,
            ),
    ensures
        are_states_upto(states, places, ctx, content, to.0, to.1),
{
    assert forall|k: int| 0 <= k < places.len() implies is_state_at(
        states[k],
        #[trigger] places[k],
        ctx,
        content,
    ) && place_before(places[k], to) by {
        assert(place_before(places[k], from));
    }
}

#[verifier::spinoff_prover]
#[verifier::rlimit(50)]
proof fn lemma_segment_places(
    ctx: ContextView,
    content: NwwsContentView,
    s: int,
    v: int,
    before: Seq<StateView>,
    at: Seq<(int, int)>,
) -> (places: Seq<(int, int)>)
    requires
        0 <= s < content.product.segments.len(),
        0 <= v <= content.product.segments[s].pvtec.len(),
        are_states_upto(before, at, ctx, content, s, 0),
    ensures
        are_states_upto(
            before + warning::segment_states(ctx, content, s, v),
            places,
            ctx,
            content,
            s,
            v,
        ),
    decreases v,
{
    if v <= 0 {
        assert(before + warning::segment_states(ctx, content, s, v) =~= before);
        at
    } else {
        let earlier = lemma_segment_places(ctx, content, s, v - 1, before, at);
        let done = before + warning::segment_states(ctx, content, s, v - 1);
        let all = before + warning::segment_states(ctx, content, s, v);
        let one = warning::one_state(ctx, content, s, v - 1);
        assert(all =~= done + one);
        if content.product.segments[s].pvtec[v - 1].significance == Significance::Warning {
            let state = warning::state_of(ctx, content, s, v - 1);
            lemma_state_tells(ctx, content, s, v - 1);
            lemma_place_added(done, earlier, state, ctx, content, s, v - 1);
            assert(one =~= seq![state]);
            assert(all =~= done.push(state));
            earlier.push((s, v - 1))
        } else {
            assert(all =~= done);
            lemma_place_passed(done, earlier, ctx, content, (s, v - 1), (s, v));
            earlier
        }
    }
}

#[verifier::spinoff_prover]
#[verifier::rlimit(50)]
proof fn lemma_content_places(ctx: ContextView, content: NwwsContentView, n: int) -> (places: Seq<
    (int, int),
>)
    requires
        0 <= n <= content.product.segments.len(),
    ensures
        are_states_upto(warning::content_states(ctx, content, n), places, ctx, content, n, 0),
    decreases n,
{
    if n <= 0 {
        Seq::empty()
    } else {
        let at = lemma_content_places(ctx, content, n - 1);
        let len = content.product.segments[n - 1].pvtec.len() as int;
        let before = warning::content_states(ctx, content, n - 1);
        let places = lemma_segment_places(ctx, content, n - 1, len, before, at);
        let all = warning::content_states(ctx, content, n);
        lemma_place_passed(all, places, ctx, content, (n - 1, len), (n, 0));
        places
    }
}

/// Every VTEC line of a warning gives one record, and no other line gives
/// one; the records come in the order of their lines, and each repeats what
/// its line, its segment and the bulletin say.
pub proof fn every_warning_line_gives_one_record(ctx: ContextView, content: NwwsContentView) -> (
    places: Seq<(int, int)>)
    ensures
        are_states_upto(
            warning::message_states(ctx, content),
            places,
            ctx,
            content,
            content.product.segments.len() as int,
            0,
        ),
        forall|s: int, v: int| #[trigger]
            is_warning_line(content, s, v) ==> places.contains((s, v)),
{
    let places = lemma_content_places(ctx, content, content.product.segments.len() as int);
    assert forall|s: int, v: int| #[trigger] is_warning_line(content, s, v) implies places.contains(
        (s, v),
    ) by {
        assert(place_before((s, v), (content.product.segments.len() as int, 0)));
    }
    places
}

proof fn lemma_join_injective(a: Seq<char>, b: Seq<char>, c: char, x: Seq<char>, y: Seq<char>)
    requires
        a + seq![c] + b == x + seq![c] + y,
        b.len() == y.len(),
    ensures
        a == x,
        b == y,
{
    let l = a + seq![c] + b;
    let r = x + seq![c] + y;
    assert(l.len() == r.len());
    assert(a =~= l.take(a.len() as int));
    assert(x =~= r.take(a.len() as int));
    assert(b =~= l.skip(a.len() as int + 1));
    assert(y =~= r.skip(a.len() as int + 1));
}

/// An event goes by its office, class, phenomenon, significance and tracking
/// number: two lines are of one event exactly if they agree in these. The
/// action, the times and the rest of a line play no part.
pub proof fn events_go_by_office_kind_and_number(a: PvtecView, b: PvtecView)
    requires
        a.event_tracking_number <= 9999,
        b.event_tracking_number <= 9999,
    ensures
        warning::event_id_text(a) == warning::event_id_text(b) <==> {
            &&& a.office_id == b.office_id
            &&& a.event_class == b.event_class
            &&& a.phenomenon.spec_str() == b.phenomenon.spec_str()
            &&& a.significance == b.significance
            &&& a.event_tracking_number == b.event_tracking_number
        },
{
    lemma_four_digits(a.event_tracking_number as nat);
    lemma_four_digits(b.event_tracking_number as nat);
    reveal_strlit("O");
    reveal_strlit("T");
    reveal_strlit("E");
    reveal_strlit("X");
    reveal_strlit("W");
    reveal_strlit("A");
    reveal_strlit("Y");
    reveal_strlit("S");
    reveal_strlit("F");
    reveal_strlit("N");
    if warning::event_id_text(a) == warning::event_id_text(b) {
        let na = number::padded(a.event_tracking_number as nat, 4);
        let nb = number::padded(b.event_tracking_number as nat, 4);
        let sa = a.significance.spec_str();
        let sb = b.significance.spec_str();
        let pa = a.phenomenon.spec_str();
        let pb = b.phenomenon.spec_str();
        let ca = a.event_class.spec_str();
        let cb = b.event_class.spec_str();
        let dot = seq!['.'];
        let a4 = a.office_id + dot + ca + dot + pa + dot + sa;
        let b4 = b.office_id + dot + cb + dot + pb + dot + sb;
        lemma_join_injective(a4, na, '.', b4, nb);
        let a3 = a.office_id + dot + ca + dot + pa;
        let b3 = b.office_id + dot + cb + dot + pb;
        lemma_join_injective(a3, sa, '.', b3, sb);
        let a2 = a.office_id + dot + ca;
        let b2 = b.office_id + dot + cb;
        lemma_join_injective(a2, pa, '.', b2, pb);
        lemma_join_injective(a.office_id, ca, '.', b.office_id, cb);
        assert(sa[0] == sb[0]);
        assert(ca[0] == cb[0]);
        number::lemma_padded_reads_back(a.event_tracking_number as nat, 4);
        number::lemma_padded_reads_back(b.event_tracking_number as nat, 4);
    }
}

proof fn lemma_four_digits(n: nat)
    requires
        n <= 9999,
    ensures
        number::padded(n, 4).len() == 4,
{
    reveal_with_fuel(number::decimal, 5);
}

// ---------------------------------------------------------------------------
// Tags
// ---------------------------------------------------------------------------

/// What a tag says of a tornado.
pub open spec fn tornado_said(tag: SegmentTagView) -> Option<Seq<char>> {
    if tag is TornadoObserved {
        Some("OBSERVED"@)
    } else if tag is TornadoRadarIndicated {
        Some("RADAR INDICATED"@)
    } else if tag is TornadoPossible {
        Some("POSSIBLE"@)
    } else {
        None
    }
}

pub open spec fn hail_said(tag: SegmentTagView) -> Option<Seq<char>> {
    if tag is HailInches {
        Some(tag->HailInches_0)
    } else {
        None
    }
}

pub open spec fn wind_said(tag: SegmentTagView) -> Option<WindSpeedView> {
    if tag is WindMph {
        Some(WindSpeedView::Mph(tag->WindMph_0))
    } else {
        None
    }
}

pub open spec fn damage_said(tag: SegmentTagView) -> Option<Seq<char>> {
    if tag is DamageThreat {
        Some(tag->DamageThreat_0)
    } else {
        None
    }
}

proof fn lemma_no_segment_tag(v: TagValues, tags: Seq<SegmentTagView>)
    ensures
        (forall|j: int| 0 <= j < tags.len() ==> tornado_said(#[trigger] tags[j]) is None)
            ==> warning_tags::with_segment_tags(v, tags).tornado == v.tornado,
        (forall|j: int| 0 <= j < tags.len() ==> hail_said(#[trigger] tags[j]) is None)
            ==> warning_tags::with_segment_tags(v, tags).hail == v.hail,
        (forall|j: int| 0 <= j < tags.len() ==> wind_said(#[trigger] tags[j]) is None)
            ==> warning_tags::with_segment_tags(v, tags).wind == v.wind,
        (forall|j: int| 0 <= j < tags.len() ==> damage_said(#[trigger] tags[j]) is None)
            ==> warning_tags::with_segment_tags(v, tags).damage == v.damage,
        warning_tags::with_segment_tags(v, tags).flash_flood_observed <==> v.flash_flood_observed
            || exists|j: int| 0 <= j < tags.len() && (#[trigger] tags[j]) is FlashFloodObserved,
        warning_tags::with_segment_tags(v, tags).flash_flood_emergency <==> v.flash_flood_emergency
            || exists|j: int| 0 <= j < tags.len() && (#[trigger] tags[j]) is FlashFloodEmergency,
    decreases tags.len(),
{
    if tags.len() > 0 {
        let rest = tags.drop_last();
        lemma_no_segment_tag(v, rest);
        assert(forall|j: int| 0 <= j < rest.len() ==> rest[j] == tags[j]);
        assert(tags.last() == tags[tags.len() - 1]);
    }
}

proof fn lemma_last_segment_tag(v: TagValues, tags: Seq<SegmentTagView>, i: int)
    requires
        0 <= i < tags.len(),
    ensures
        tornado_said(tags[i]) is Some && (forall|j: int|
            i < j < tags.len() ==> tornado_said(#[trigger] tags[j]) is None)
            ==> warning_tags::with_segment_tags(v, tags).tornado == tornado_said(tags[i]),
        hail_said(tags[i]) is Some && (forall|j: int|
            i < j < tags.len() ==> hail_said(#[trigger] tags[j]) is None)
            ==> warning_tags::with_segment_tags(v, tags).hail == hail_said(tags[i]),
        wind_said(tags[i]) is Some && (forall|j: int|
            i < j < tags.len() ==> wind_said(#[trigger] tags[j]) is None)
            ==> warning_tags::with_segment_tags(v, tags).wind == wind_said(tags[i]),
        damage_said(tags[i]) is Some && (forall|j: int|
            i < j < tags.len() ==> damage_said(#[trigger] tags[j]) is None)
            ==> warning_tags::with_segment_tags(v, tags).damage == damage_said(tags[i]),
    decreases tags.len(),
{
    let rest = tags.drop_last();
    assert(forall|j: int| 0 <= j < rest.len() ==> rest[j] == tags[j]);
    assert(tags.last() == tags[tags.len() - 1]);
    if i < rest.len() {
        lemma_last_segment_tag(v, rest, i);
    }
}

/// What a written tag says of a tornado, of hail, of wind and of damage.
pub open spec fn tornado_written(tag: WarningTextTagView) -> Option<Seq<char>> {
    if tag.kind is Tornado {
        Some(tag.normalized_value)
    } else {
        None
    }
}

pub open spec fn hail_written(tag: WarningTextTagView) -> Option<Seq<char>> {
    if tag.kind is MaxHailSize {
        tag.numeric_value
    } else {
        None
    }
}

pub open spec fn wind_written(tag: WarningTextTagView) -> Option<WindSpeedView> {
    if tag.kind is MaxWindGust && tag.numeric_value is Some {
        Some(WindSpeedView::Gust(tag.numeric_value->0))
    } else {
        None
    }
}

pub open spec fn damage_written(tag: WarningTextTagView) -> Option<Seq<char>> {
    if tag.kind is FlashFloodDamageThreat || tag.kind is TstmDamageThreat
        || tag.kind is TornadoDamageThreat {
        Some(tag.normalized_value)
    } else {
        None
    }
}

proof fn lemma_no_text_tag(v: TagValues, tags: Seq<WarningTextTagView>)
    ensures
        (forall|j: int| 0 <= j < tags.len() ==> tornado_written(#[trigger] tags[j]) is None)
            ==> warning_tags::with_text_tags(v, tags).tornado == v.tornado,
        (forall|j: int| 0 <= j < tags.len() ==> hail_written(#[trigger] tags[j]) is None)
            ==> warning_tags::with_text_tags(v, tags).hail == v.hail,
        (forall|j: int| 0 <= j < tags.len() ==> wind_written(#[trigger] tags[j]) is None)
            ==> warning_tags::with_text_tags(v, tags).wind == v.wind,
        (forall|j: int| 0 <= j < tags.len() ==> damage_written(#[trigger] tags[j]) is None)
            ==> warning_tags::with_text_tags(v, tags).damage == v.damage,
        warning_tags::with_text_tags(v, tags).flash_flood_observed == v.flash_flood_observed,
        warning_tags::with_text_tags(v, tags).flash_flood_emergency == v.flash_flood_emergency,
    decreases tags.len(),
{
    if tags.len() > 0 {
        let rest = tags.drop_last();
        lemma_no_text_tag(v, rest);
        assert(forall|j: int| 0 <= j < rest.len() ==> rest[j] == tags[j]);
        assert(tags.last() == tags[tags.len() - 1]);
    }
}

proof fn lemma_last_text_tag(v: TagValues, tags: Seq<WarningTextTagView>, i: int)
    requires
        0 <= i < tags.len(),
    ensures
        tornado_written(tags[i]) is Some && (forall|j: int|
            i < j < tags.len() ==> tornado_written(#[trigger] tags[j]) is None)
            ==> warning_tags::with_text_tags(v, tags).tornado == tornado_written(tags[i]),
        hail_written(tags[i]) is Some && (forall|j: int|
            i < j < tags.len() ==> hail_written(#[trigger] tags[j]) is None)
            ==> warning_tags::with_text_tags(v, tags).hail == hail_written(tags[i]),
        wind_written(tags[i]) is Some && (forall|j: int|
            i < j < tags.len() ==> wind_written(#[trigger] tags[j]) is None)
            ==> warning_tags::with_text_tags(v, tags).wind == wind_written(tags[i]),
        damage_written(tags[i]) is Some && (forall|j: int|
            i < j < tags.len() ==> damage_written(#[trigger] tags[j]) is None)
            ==> warning_tags::with_text_tags(v, tags).damage == damage_written(tags[i]),
    decreases tags.len(),
{
    let rest = tags.drop_last();
    assert(forall|j: int| 0 <= j < rest.len() ==> rest[j] == tags[j]);
    assert(tags.last() == tags[tags.len() - 1]);
    if i < rest.len() {
        lemma_last_text_tag(v, rest, i);
    }
}

/// Whether a segment has a VTEC line of a flash flood, whose letters are FF.
pub open spec fn of_flash_flood(segment: ProductSegmentView) -> bool {
    exists|i: int|
        0 <= i < segment.pvtec.len() && (#[trigger] segment.pvtec[i]).phenomenon.spec_str()
            == seq!['F', 'F']
}

proof fn lemma_flash_flood(segment: ProductSegmentView)
    ensures
        of_flash_flood(segment) == warning_tags::is_flash_flood(segment.pvtec),
{
    assert forall|i: int| 0 <= i < segment.pvtec.len() implies ((
    #[trigger] segment.pvtec[i]).phenomenon.spec_str() == seq!['F', 'F']
        <==> segment.pvtec[i].phenomenon.code() == ('F', 'F')) by {
        let s = segment.pvtec[i].phenomenon.spec_str();
        let ff = seq!['F', 'F'];
        assert(ff[0] == 'F' && ff[1] == 'F');
        if s == ff {
            assert(s[0] == 'F' && s[1] == 'F');
        } else {
            assert(!(s =~= ff));
        }
    }
}

/// Of the tags of a segment the last one of a kind counts, tag `i` here. What
/// it says of tornado, hail and wind is what the warning says; what it says
/// of damage too, unless the segment is of a flash flood, which has no damage
/// threat of its own. A summary of the segment says the same, and tells wind
/// speeds in miles per hour.
pub proof fn the_last_tag_counts(segment: ProductSegmentView, i: int, office: Seq<char>)
    requires
        0 <= i < segment.tags.len(),
    ensures
        ({
            let w = warning_tags::warning_tags_of(segment);
            let b = summary::segment_summary(segment, office);
            let tag = segment.tags[i];
            &&& tornado_said(tag) is Some && (forall|j: int|
                i < j < segment.tags.len() ==> tornado_said(#[trigger] segment.tags[j]) is None)
                ==> w.tornado == tornado_said(tag) && b.tornado_tag == tornado_said(tag)
            &&& hail_said(tag) is Some && (forall|j: int|
                i < j < segment.tags.len() ==> hail_said(#[trigger] segment.tags[j]) is None)
                ==> w.hail_inches == hail_said(tag) && b.hail_inches == hail_said(tag)
            &&& wind_said(tag) is Some && (forall|j: int|
                i < j < segment.tags.len() ==> wind_said(#[trigger] segment.tags[j]) is None)
                ==> w.wind_mph == wind_said(tag) && b.wind_mph == Some(tag->WindMph_0)
            &&& damage_said(tag) is Some && (forall|j: int|
                i < j < segment.tags.len() ==> damage_said(#[trigger] segment.tags[j]) is None)
                && !of_flash_flood(segment) ==> w.damage_threat == damage_said(tag)
                && b.damage_threat == damage_said(tag)
        }),
{
    let texts = tags::text_tags(segment.body_lines);
    let written = warning_tags::with_text_tags(warning_tags::no_values(), texts);
    lemma_last_segment_tag(written, segment.tags, i);
    lemma_last_segment_tag(warning_tags::no_values(), segment.tags, i);
    lemma_flash_flood(segment);
}

/// What no tag of the segment says, the last written tag that says it says,
/// written tag `i` here.
pub proof fn written_tags_say_the_rest(segment: ProductSegmentView, i: int)
    requires
        0 <= i < tags::text_tags(segment.body_lines).len(),
    ensures
        ({
            let w = warning_tags::warning_tags_of(segment);
            let written = tags::text_tags(segment.body_lines);
            &&& w.text_tags == written
            &&& tornado_written(written[i]) is Some && (forall|j: int|
                i < j < written.len() ==> tornado_written(#[trigger] written[j]) is None) && (
            forall|j: int|
                0 <= j < segment.tags.len() ==> tornado_said(#[trigger] segment.tags[j]) is None)
                ==> w.tornado == tornado_written(written[i])
            &&& hail_written(written[i]) is Some && (forall|j: int|
                i < j < written.len() ==> hail_written(#[trigger] written[j]) is None) && (
            forall|j: int|
                0 <= j < segment.tags.len() ==> hail_said(#[trigger] segment.tags[j]) is None)
                ==> w.hail_inches == hail_written(written[i])
            &&& wind_written(written[i]) is Some && (forall|j: int|
                i < j < written.len() ==> wind_written(#[trigger] written[j]) is None) && (
            forall|j: int|
                0 <= j < segment.tags.len() ==> wind_said(#[trigger] segment.tags[j]) is None)
                ==> w.wind_mph == wind_written(written[i])
            &&& damage_written(written[i]) is Some && (forall|j: int|
                i < j < written.len() ==> damage_written(#[trigger] written[j]) is None) && (
            forall|j: int|
                0 <= j < segment.tags.len() ==> damage_said(#[trigger] segment.tags[j]) is None)
                && !of_flash_flood(segment) ==> w.damage_threat == damage_written(written[i])
        }),
{
    let texts = tags::text_tags(segment.body_lines);
    let written = warning_tags::with_text_tags(warning_tags::no_values(), texts);
    lemma_last_text_tag(warning_tags::no_values(), texts, i);
    lemma_no_segment_tag(written, segment.tags);
    lemma_flash_flood(segment);
}

/// What neither a tag nor a written tag says, the warning does not say.
pub proof fn nothing_is_said_without_a_tag(segment: ProductSegmentView, office: Seq<char>)
    ensures
        ({
            let w = warning_tags::warning_tags_of(segment);
            let b = summary::segment_summary(segment, office);
            let written = tags::text_tags(segment.body_lines);
            &&& (forall|j: int|
                0 <= j < segment.tags.len() ==> tornado_said(#[trigger] segment.tags[j]) is None)
                ==> b.tornado_tag is None && ((forall|j: int|
                0 <= j < written.len() ==> tornado_written(#[trigger] written[j]) is None)
                ==> w.tornado is None)
            &&& (forall|j: int|
                0 <= j < segment.tags.len() ==> hail_said(#[trigger] segment.tags[j]) is None)
                ==> b.hail_inches is None && ((forall|j: int|
                0 <= j < written.len() ==> hail_written(#[trigger] written[j]) is None)
                ==> w.hail_inches is None)
            &&& (forall|j: int|
                0 <= j < segment.tags.len() ==> wind_said(#[trigger] segment.tags[j]) is None)
                ==> b.wind_mph is None && ((forall|j: int|
                0 <= j < written.len() ==> wind_written(#[trigger] written[j]) is None)
                ==> w.wind_mph is None)
            &&& (forall|j: int|
                0 <= j < segment.tags.len() ==> damage_said(#[trigger] segment.tags[j]) is None)
                ==> b.damage_threat is None && ((forall|j: int|
                0 <= j < written.len() ==> damage_written(#[trigger] written[j]) is None)
                ==> w.damage_threat is None)
        }),
{
    let texts = tags::text_tags(segment.body_lines);
    let written = warning_tags::with_text_tags(warning_tags::no_values(), texts);
    lemma_no_text_tag(warning_tags::no_values(), texts);
    lemma_no_segment_tag(written, segment.tags);
    lemma_no_segment_tag(warning_tags::no_values(), segment.tags);
}

/// A flash flood was observed exactly where a tag says so. An emergency is
/// declared where a tag declares it; without such a tag it is declared only
/// in a segment of a flash flood, and there exactly where the damage threat
/// that counts is catastrophic. A segment of a flash flood has no damage
/// threat.
pub proof fn emergencies_are_declared_or_catastrophic(
    segment: ProductSegmentView,
    i: int,
    office: Seq<char>,
)
    ensures
        ({
            let w = warning_tags::warning_tags_of(segment);
            let b = summary::segment_summary(segment, office);
            let observed = exists|j: int|
                0 <= j < segment.tags.len() && (#[trigger] segment.tags[j]) is FlashFloodObserved;
            let declared = exists|j: int|
                0 <= j < segment.tags.len() && (#[trigger] segment.tags[j]) is FlashFloodEmergency;
            &&& w.flash_flood_observed == observed && b.flash_flood_observed == observed
            &&& declared ==> w.flash_flood_emergency && b.flash_flood_emergency
            &&& !declared && !of_flash_flood(segment) ==> !w.flash_flood_emergency
                && !b.flash_flood_emergency
            &&& of_flash_flood(segment) ==> w.damage_threat is None && b.damage_threat is None
            &&& of_flash_flood(segment) && !declared && 0 <= i < segment.tags.len() && damage_said(
                segment.tags[i],
            ) is Some && (forall|j: int|
                i < j < segment.tags.len() ==> damage_said(#[trigger] segment.tags[j]) is None)
                ==> w.flash_flood_emergency == (damage_said(segment.tags[i])->0
                == "CATASTROPHIC"@) && b.flash_flood_emergency == w.flash_flood_emergency
        }),
{
    let texts = tags::text_tags(segment.body_lines);
    let written = warning_tags::with_text_tags(warning_tags::no_values(), texts);
    lemma_no_text_tag(warning_tags::no_values(), texts);
    lemma_no_segment_tag(written, segment.tags);
    lemma_no_segment_tag(warning_tags::no_values(), segment.tags);
    if 0 <= i < segment.tags.len() {
        lemma_last_segment_tag(written, segment.tags, i);
        lemma_last_segment_tag(warning_tags::no_values(), segment.tags, i);
    }
    lemma_flash_flood(segment);
}

// ---------------------------------------------------------------------------
// Geometry
// ---------------------------------------------------------------------------

/// Whether a signed point is the one written as `p`: the latitude stands as
/// written; a longitude below forty degrees lacks its leading hundred; and
/// the point lies east of Greenwich if the office is Guam's and west of it
/// otherwise.
pub open spec fn is_place_of(q: WarningPoint, p: GeoPoint, office: Seq<char>) -> bool {
    let east = office == seq!['P', 'G', 'U', 'M'];
    &&& q.lat == p.latitude
    &&& east && p.longitude >= 4000 ==> q.lon == p.longitude
    &&& east && p.longitude < 4000 ==> q.lon == p.longitude + 10000
    &&& !east && p.longitude >= 4000 ==> q.lon + p.longitude == 0
    &&& !east && p.longitude < 4000 ==> q.lon + p.longitude + 10000 == 0
}

/// The outline of a warning has the points of the polygon, in their order and
/// signed; so has that of a summary.
pub proof fn outlines_have_the_points_written(block: LatLonBlockView, office: Seq<char>, i: int)
    requires
        geo::all_fit(block.points),
        0 <= i < block.points.len(),
    ensures
        warning_tags::polygon_of(Some(block), office) is Some,
        warning_tags::polygon_of(Some(block), office)->0.raw == block.raw,
        warning_tags::polygon_of(Some(block), office)->0.points.len() == block.points.len(),
        is_place_of(
            warning_tags::polygon_of(Some(block), office)->0.points[i],
            block.points[i],
            office,
        ),
        summary::outline_summary(Some(block), office) is Some,
        summary::outline_summary(Some(block), office)->0.len() == block.points.len(),
        summary::outline_summary(Some(block), office)->0[i].lat == block.points[i].latitude,
        summary::outline_summary(Some(block), office)->0[i].lon == warning_tags::polygon_of(
            Some(block),
            office,
        )->0.points[i].lon,
        warning_tags::polygon_of(None, office) is None,
        summary::outline_summary(None, office) is None,
{
    reveal_strlit("PGUM");
    assert("PGUM"@ =~= seq!['P', 'G', 'U', 'M']);
    assert(geo::fits(block.points[i]));
}

/// The motion of a warning has the direction, the speed and the locations of
/// the line, in their order and signed; so has that of a summary.
pub proof fn motions_have_the_places_written(line: TimeMotLocView, office: Seq<char>, i: int)
    requires
        geo::all_fit(line.locations),
        0 <= i < line.locations.len(),
    ensures
        ({
            let w = warning_tags::motion_of(Some(line), office);
            let b = summary::motion_summary(Some(line), office);
            &&& w is Some && b is Some
            &&& w->0.raw == line.raw
            &&& w->0.direction_degrees == line.direction_degrees
            &&& b->0.direction_degrees == line.direction_degrees
            &&& w->0.speed_knots == line.speed_knots
            &&& b->0.speed_knots == line.speed_knots
            &&& w->0.locations.len() == line.locations.len()
            &&& b->0.locations.len() == line.locations.len()
            &&& is_place_of(w->0.locations[i], line.locations[i], office)
            &&& b->0.locations[i].lat == line.locations[i].latitude
            &&& b->0.locations[i].lon == w->0.locations[i].lon
            &&& w->0.time == b->0.time
        }),
        warning_tags::motion_of(None, office) is None,
        summary::motion_summary(None, office) is None,
{
    reveal_strlit("PGUM");
    assert("PGUM"@ =~= seq!['P', 'G', 'U', 'M']);
    assert(geo::fits(line.locations[i]));
}

/// The time of a motion is written in four digits, hour before minute, and a
/// Z.
pub proof fn motion_times_are_four_digits(hour: u8, minute: u8)
    requires
        hour < 24,
        minute < 60,
    ensures
        warning_tags::motion_clock(hour, minute).len() == 5,
        code_laws::pair_at(warning_tags::motion_clock(hour, minute), 0) == hour,
        code_laws::pair_at(warning_tags::motion_clock(hour, minute), 2) == minute,
        warning_tags::motion_clock(hour, minute)[4] == 'Z',
{
    reveal_with_fuel(number::decimal, 3);
    lemma_two_digits(hour as nat);
    lemma_two_digits(minute as nat);
}

proof fn lemma_two_digits(n: nat)
    requires
        n < 100,
    ensures
        number::padded(n, 2).len() == 2,
        code_laws::pair_at(number::padded(n, 2), 0) == n,
{
    reveal_with_fuel(number::decimal, 3);
}

} // verus!
