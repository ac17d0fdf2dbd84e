//! Warning timelines: one record per warning VTEC line, in order, with the
//! state of each at a query time.

use vstd::prelude::*;

use crate::clock;
use crate::digest;
use crate::families;
use crate::header;
use crate::issue_time;
use crate::number;
use crate::product::{NwwsContent, NwwsContentView};
use crate::text;
use crate::ugc;
use crate::vtec::{Pvtec, PvtecView, Significance, VtecAction};
use crate::warning_tags;
use crate::warning_tags::{
    WarningPolygon, WarningPolygonView, WarningTags, WarningTagsView, WarningTimeMotion,
    WarningTimeMotionView,
};

verus! {

/// Where a message lies in its source.
#[derive(Debug, Clone, Copy, PartialEq, Eq, Structural)]
pub struct WarningByteRange {
    pub start: usize,
    pub end: usize,
}

/// The state of a record at a query time.
#[derive(Debug, Clone, Copy, PartialEq, Eq, Structural)]
pub enum WarningLifecycleStatus {
    Future,
    Pending,
    Active,
    Superseded,
    Canceled,
    Expired,
}

impl WarningLifecycleStatus {
    pub open spec fn spec_label(self) -> Seq<char> {
        match self {
            WarningLifecycleStatus::Future => "future"@,
            WarningLifecycleStatus::Pending => "pending"@,
            WarningLifecycleStatus::Active => "active"@,
            WarningLifecycleStatus::Superseded => "superseded"@,
            WarningLifecycleStatus::Canceled => "canceled"@,
            WarningLifecycleStatus::Expired => "expired"@,
        }
    }

    /// The label of the status in reports.
    pub fn label(self) -> (r: &'static str)
        ensures
            r@ == self.spec_label(),
    {
        match self {
            WarningLifecycleStatus::Future => "future",
            WarningLifecycleStatus::Pending => "pending",
            WarningLifecycleStatus::Active => "active",
            WarningLifecycleStatus::Superseded => "superseded",
            WarningLifecycleStatus::Canceled => "canceled",
            WarningLifecycleStatus::Expired => "expired",
        }
    }
}

/// One warning VTEC line with the segment, product and message it stands in.
#[derive(Debug, Clone, PartialEq, Eq)]
pub struct WarningTimelineRecord {
    pub record_key: String,
    pub event_id: String,
    pub source_path: String,
    pub byte_range: Option<WarningByteRange>,
    pub message_index: usize,
    pub segment_index: usize,
    pub vtec_index: usize,
    pub heading: String,
    pub issued_at: Option<String>,
    pub wrapper_id: Option<String>,
    pub wrapper_issued_at: Option<String>,
    pub office: String,
    pub message_office: String,
    pub awips_id: Option<String>,
    pub product_family: String,
    pub event_family: String,
    pub event_class: String,
    pub action: String,
    pub phenomenon: String,
    pub significance: String,
    pub event_tracking_number: u16,
    pub valid_start: Option<String>,
    pub valid_end: Option<String>,
    pub expires_at: Option<String>,
    pub canceled_at: Option<String>,
    pub updated_at: Option<String>,
    pub lifecycle_status: Option<WarningLifecycleStatus>,
    pub vtec: String,
    pub ugc_raw: String,
    pub ugc_purge_time: String,
    pub ugcs: Vec<String>,
    pub headline: Option<String>,
    pub tags: WarningTags,
    pub polygon: Option<WarningPolygon>,
    pub time_mot_loc: Option<WarningTimeMotion>,
    pub raw_bulletin_blake3: String,
}

/// What a timeline record holds.
pub struct RecordView {
    pub record_key: Seq<char>,
    pub event_id: Seq<char>,
    pub source_path: Seq<char>,
    pub byte_range: Option<WarningByteRange>,
    pub message_index: int,
    pub segment_index: int,
    pub vtec_index: int,
    pub heading: Seq<char>,
    pub issued_at: Option<Seq<char>>,
    pub wrapper_id: Option<Seq<char>>,
    pub wrapper_issued_at: Option<Seq<char>>,
    pub office: Seq<char>,
    pub message_office: Seq<char>,
    pub awips_id: Option<Seq<char>>,
    pub product_family: Seq<char>,
    pub event_family: Seq<char>,
    pub event_class: Seq<char>,
    pub action: Seq<char>,
    pub phenomenon: Seq<char>,
    pub significance: Seq<char>,
    pub event_tracking_number: u16,
    pub valid_start: Option<Seq<char>>,
    pub valid_end: Option<Seq<char>>,
    pub expires_at: Option<Seq<char>>,
    pub canceled_at: Option<Seq<char>>,
    pub updated_at: Option<Seq<char>>,
    pub lifecycle_status: Option<WarningLifecycleStatus>,
    pub vtec: Seq<char>,
    pub ugc_raw: Seq<char>,
    pub ugc_purge_time: Seq<char>,
    pub ugcs: Seq<Seq<char>>,
    pub headline: Option<Seq<char>>,
    pub tags: WarningTagsView,
    pub polygon: Option<WarningPolygonView>,
    pub time_mot_loc: Option<WarningTimeMotionView>,
    pub raw_bulletin_blake3: Seq<char>,
}

impl DeepView for WarningTimelineRecord {
    type V = RecordView;

    open spec fn deep_view(&self) -> RecordView {
        RecordView {
            record_key: self.record_key@,
            event_id: self.event_id@,
            source_path: self.source_path@,
            byte_range: self.byte_range,
            message_index: self.message_index as int,
            segment_index: self.segment_index as int,
            vtec_index: self.vtec_index as int,
            heading: self.heading@,
            issued_at: self.issued_at.deep_view(),
            wrapper_id: self.wrapper_id.deep_view(),
            wrapper_issued_at: self.wrapper_issued_at.deep_view(),
            office: self.office@,
            message_office: self.message_office@,
            awips_id: self.awips_id.deep_view(),
            product_family: self.product_family@,
            event_family: self.event_family@,
            event_class: self.event_class@,
            action: self.action@,
            phenomenon: self.phenomenon@,
            significance: self.significance@,
            event_tracking_number: self.event_tracking_number,
            valid_start: self.valid_start.deep_view(),
            valid_end: self.valid_end.deep_view(),
            expires_at: self.expires_at.deep_view(),
            canceled_at: self.canceled_at.deep_view(),
            updated_at: self.updated_at.deep_view(),
            lifecycle_status: self.lifecycle_status,
            vtec: self.vtec@,
            ugc_raw: self.ugc_raw@,
            ugc_purge_time: self.ugc_purge_time@,
            ugcs: self.ugcs.deep_view(),
            headline: self.headline.deep_view(),
            tags: self.tags.deep_view(),
            polygon: self.polygon.deep_view(),
            time_mot_loc: self.time_mot_loc.deep_view(),
            raw_bulletin_blake3: self.raw_bulletin_blake3@,
        }
    }
}

// ---------------------------------------------------------------------------
// Records
// ---------------------------------------------------------------------------

/// Where a message came from.
#[derive(Debug, Clone, PartialEq, Eq)]
pub struct MessageContext {
    pub source_path: String,
    pub byte_range: Option<WarningByteRange>,
    pub message_index: usize,
    pub wrapper_id: Option<String>,
    pub wrapper_issue: Option<i128>,
    pub query_time: Option<i128>,
}

/// What a message context holds.
pub struct ContextView {
    pub source_path: Seq<char>,
    pub byte_range: Option<WarningByteRange>,
    pub message_index: int,
    pub wrapper_id: Option<Seq<char>>,
    pub wrapper_issue: Option<int>,
    pub query_time: Option<int>,
}

impl DeepView for MessageContext {
    type V = ContextView;

    open spec fn deep_view(&self) -> ContextView {
        ContextView {
            source_path: self.source_path@,
            byte_range: self.byte_range,
            message_index: self.message_index as int,
            wrapper_id: self.wrapper_id.deep_view(),
            wrapper_issue: clock::opt_int(self.wrapper_issue),
            query_time: clock::opt_int(self.query_time),
        }
    }
}

/// A record with what orders it and decides its state.
#[derive(Debug, Clone, PartialEq, Eq)]
pub struct TimelineRecordState {
    pub issued_at: Option<i128>,
    pub valid_start: Option<i128>,
    pub valid_end: Option<i128>,
    pub action: VtecAction,
    pub record: WarningTimelineRecord,
}

/// What a record state holds.
pub struct StateView {
    pub issued_at: Option<int>,
    pub valid_start: Option<int>,
    pub valid_end: Option<int>,
    pub action: VtecAction,
    pub record: RecordView,
}

impl DeepView for TimelineRecordState {
    type V = StateView;

    open spec fn deep_view(&self) -> StateView {
        StateView {
            issued_at: clock::opt_int(self.issued_at),
            valid_start: clock::opt_int(self.valid_start),
            valid_end: clock::opt_int(self.valid_end),
            action: self.action,
            record: self.record.deep_view(),
        }
    }
}

/// The identifier of an event: office, class, phenomenon, significance and
/// tracking number.
pub open spec fn event_id_text(p: PvtecView) -> Seq<char> {
    p.office_id + seq!['.'] + p.event_class.spec_str() + seq!['.'] + p.phenomenon.spec_str()
        + seq!['.'] + p.significance.spec_str() + seq!['.'] + number::padded(
        p.event_tracking_number as nat,
        4,
    )
}

pub fn warning_event_id(p: &Pvtec) -> (r: String)
    ensures
        r@ == event_id_text(p.deep_view()),
{
    let mut v: Vec<char> = Vec::new();
    text::push_str(&mut v, p.office_id());
    v.push('.');
    text::push_str(&mut v, p.event_class().as_str());
    v.push('.');
    let phenomenon = p.phenomenon().as_text();
    text::push_str(&mut v, phenomenon.as_str());
    v.push('.');
    text::push_str(&mut v, p.significance().as_str());
    v.push('.');
    let etn = number::to_padded(p.event_tracking_number() as u64, 4);
    text::push_all(&mut v, etn.as_slice());
    assert(v@ =~= event_id_text(p.deep_view()));
    text::to_text(v.as_slice())
}

/// The key of a record: event, source, message, segment and VTEC line.
pub open spec fn record_key_text(
    event_id: Seq<char>,
    source_path: Seq<char>,
    message_index: int,
    segment_index: int,
    vtec_index: int,
) -> Seq<char> {
    event_id + "|source="@ + source_path + "|message="@ + number::decimal(message_index as nat)
        + "|segment="@ + number::decimal(segment_index as nat) + "|vtec="@ + number::decimal(
        vtec_index as nat,
    )
}

pub fn warning_record_key(
    event_id: &str,
    source_path: &str,
    message_index: usize,
    segment_index: usize,
    vtec_index: usize,
) -> (r: String)
    ensures
        r@ == record_key_text(
            event_id@,
            source_path@,
            message_index as int,
            segment_index as int,
            vtec_index as int,
        ),
{
    let mut v: Vec<char> = Vec::new();
    text::push_str(&mut v, event_id);
    text::push_str(&mut v, "|source=");
    text::push_str(&mut v, source_path);
    text::push_str(&mut v, "|message=");
    let m = number::to_decimal(message_index as u64);
    text::push_all(&mut v, m.as_slice());
    text::push_str(&mut v, "|segment=");
    let s = number::to_decimal(segment_index as u64);
    text::push_all(&mut v, s.as_slice());
    text::push_str(&mut v, "|vtec=");
    let x = number::to_decimal(vtec_index as u64);
    text::push_all(&mut v, x.as_slice());
    assert(v@ =~= record_key_text(
        event_id@,
        source_path@,
        message_index as int,
        segment_index as int,
        vtec_index as int,
    ));
    text::to_text(v.as_slice())
}

/// Whether an action updates an event that goes on.
pub open spec fn is_update(action: VtecAction) -> bool {
    action != VtecAction::New && action != VtecAction::Cancel && action != VtecAction::Expire
}

pub fn is_update_action(action: VtecAction) -> (r: bool)
    ensures
        r == is_update(action),
{
    match action {
        VtecAction::New | VtecAction::Cancel | VtecAction::Expire => false,
        _ => true,
    }
}

/// The family of an event: that of its phenomenon, else that of the product.
pub open spec fn event_family_text(p: PvtecView, product_family: Seq<char>) -> Seq<char> {
    match families::phenomenon_text(p.phenomenon) {
        Some(name) => name,
        None => product_family,
    }
}

/// The state of the record of VTEC line `v` in segment `s`.
pub open spec fn state_of(ctx: ContextView, content: NwwsContentView, s: int, v: int) -> StateView {
    let bulletin = content.bulletin;
    let segment = content.product.segments[s];
    let p = segment.pvtec[v];
    let office = bulletin.heading.cccc;
    let issued_at = issue_time::issue_time(
        bulletin.heading.yygggg,
        ctx.wrapper_issue,
        ctx.query_time,
        p,
    );
    let issued_text = clock::written(issued_at);
    let end_text = clock::written(p.end);
    let product_family = families::family_text(content.product.family);
    let event_id = event_id_text(p);
    StateView {
        issued_at,
        valid_start: p.start,
        valid_end: p.end,
        action: p.action,
        record: RecordView {
            record_key: record_key_text(event_id, ctx.source_path, ctx.message_index, s + 1, v + 1),
            event_id,
            source_path: ctx.source_path,
            byte_range: ctx.byte_range,
            message_index: ctx.message_index,
            segment_index: s + 1,
            vtec_index: v + 1,
            heading: header::heading_text(bulletin.heading),
            issued_at: issued_text,
            wrapper_id: ctx.wrapper_id,
            wrapper_issued_at: clock::written(ctx.wrapper_issue),
            office: p.office_id,
            message_office: office,
            awips_id: bulletin.awips_id,
            product_family,
            event_family: event_family_text(p, product_family),
            event_class: p.event_class.spec_str(),
            action: p.action.spec_str(),
            phenomenon: p.phenomenon.spec_str(),
            significance: p.significance.spec_str(),
            event_tracking_number: p.event_tracking_number,
            valid_start: clock::written(p.start),
            valid_end: end_text,
            expires_at: end_text,
            canceled_at: if p.action == VtecAction::Cancel {
                issued_text
            } else {
                None
            },
            updated_at: if is_update(p.action) {
                issued_text
            } else {
                None
            },
            lifecycle_status: None,
            vtec: p.raw,
            ugc_raw: segment.ugc.raw,
            ugc_purge_time: ugc::purge_text(segment.ugc.purge_time),
            ugcs: ugc::expand_codes(segment.ugc.codes),
            headline: segment.headline,
            tags: warning_tags::warning_tags_of(segment),
            polygon: warning_tags::polygon_of(segment.lat_lon, office),
            time_mot_loc: warning_tags::motion_of(segment.time_mot_loc, office),
            raw_bulletin_blake3: digest::blake3_hex(digest::utf8(bulletin.bulletin)),
        },
    }
}

/// The state of the record of VTEC line `v` in segment `s`, if the line is of
/// a warning.
pub open spec fn one_state(ctx: ContextView, content: NwwsContentView, s: int, v: int) -> Seq<
    StateView,
> {
    if content.product.segments[s].pvtec[v].significance == Significance::Warning {
        seq![state_of(ctx, content, s, v)]
    } else {
        Seq::empty()
    }
}

/// The states of the warnings among the first `n` VTEC lines of segment `s`.
pub open spec fn segment_states(ctx: ContextView, content: NwwsContentView, s: int, n: int) -> Seq<
    StateView,
>
    decreases n,
{
    if n <= 0 {
        Seq::empty()
    } else {
        segment_states(ctx, content, s, n - 1) + one_state(ctx, content, s, n - 1)
    }
}

/// The states of the warnings of the first `n` segments.
pub open spec fn content_states(ctx: ContextView, content: NwwsContentView, n: int) -> Seq<
    StateView,
>
    decreases n,
{
    if n <= 0 {
        Seq::empty()
    } else {
        content_states(ctx, content, n - 1) + segment_states(
            ctx,
            content,
            n - 1,
            content.product.segments[n - 1].pvtec.len() as int,
        )
    }
}

/// The states of all warnings of a message.
pub open spec fn message_states(ctx: ContextView, content: NwwsContentView) -> Seq<StateView> {
    content_states(ctx, content, content.product.segments.len() as int)
}

fn make_state(ctx: &MessageContext, content: &NwwsContent, s: usize, v: usize) -> (r:
    TimelineRecordState)
    requires
        s < content.product.segments@.len(),
        v < content.product.segments@[s as int].pvtec@.len(),
        issue_time::opt_representable(ctx.query_time),
    ensures
        r.deep_view() == state_of(ctx.deep_view(), content.deep_view(), s as int, v as int),
{
    let bulletin = &content.bulletin;
    let segment = &content.product.segments[s];
    let p = &segment.pvtec[v];
    assert(s < content.product.segments.len());
    assert(v < segment.pvtec.len());
    let office = bulletin.heading.cccc();
    let issued_at = issue_time::issue_time_for_record(
        bulletin.heading.yygggg(),
        ctx.wrapper_issue,
        ctx.query_time,
        p,
    );
    let valid_start = p.start_time().datetime();
    let valid_end = p.end_time().datetime();
    let product_family = families::family_name(content.product.family);
    let event_family: String = match families::family_name_for_phenomenon(p.phenomenon()) {
        Some(name) => name.to_owned(),
        None => product_family.clone(),
    };
    let event_id = warning_event_id(p);
    let record_key = warning_record_key(
        event_id.as_str(),
        ctx.source_path.as_str(),
        ctx.message_index,
        s + 1,
        v + 1,
    );
    let canceled_at = if p.action() == VtecAction::Cancel {
        clock::write_opt(issued_at)
    } else {
        None
    };
    let updated_at = if is_update_action(p.action()) {
        clock::write_opt(issued_at)
    } else {
        None
    };
    let awips_id = match &bulletin.awips_id {
        Some(id) => Some(id.raw().to_owned()),
        None => None,
    };
    let ghost c = content.deep_view();
    assert(c.product.segments[s as int] == segment.deep_view());
    assert(segment.deep_view().pvtec[v as int] == p.deep_view());
    let record = WarningTimelineRecord {
        record_key,
        event_id,
        source_path: ctx.source_path.clone(),
        byte_range: ctx.byte_range,
        message_index: ctx.message_index,
        segment_index: s + 1,
        vtec_index: v + 1,
        heading: bulletin.heading.canonical(),
        issued_at: clock::write_opt(issued_at),
        wrapper_id: text::copy_opt(&ctx.wrapper_id),
        wrapper_issued_at: clock::write_opt(ctx.wrapper_issue),
        office: p.office_id().to_owned(),
        message_office: office.to_owned(),
        awips_id,
        product_family,
        event_family,
        event_class: p.event_class().as_str().to_owned(),
        action: p.action().as_str().to_owned(),
        phenomenon: p.phenomenon().as_text(),
        significance: p.significance().as_str().to_owned(),
        event_tracking_number: p.event_tracking_number(),
        valid_start: clock::write_opt(valid_start),
        valid_end: clock::write_opt(valid_end),
        expires_at: clock::write_opt(valid_end),
        canceled_at,
        updated_at,
        lifecycle_status: None,
        vtec: p.raw().to_owned(),
        ugc_raw: segment.ugc.raw().to_owned(),
        ugc_purge_time: segment.ugc.purge_time().to_text(),
        ugcs: ugc::expand_ugc_codes(&segment.ugc),
        headline: text::copy_opt(&segment.headline),
        tags: WarningTags::from_segment(segment),
        polygon: warning_tags::polygon_from_block(&segment.lat_lon, office),
        time_mot_loc: warning_tags::time_motion_from_line(&segment.time_mot_loc, office),
        raw_bulletin_blake3: digest::raw_bulletin_blake3(content),
    };
    TimelineRecordState {
        issued_at,
        valid_start,
        valid_end,
        action: p.action(),
        record,
    }
}

fn push_state(
    ctx: &MessageContext,
    content: &NwwsContent,
    s: usize,
    v: usize,
    states: &mut Vec<TimelineRecordState>,
)
    requires
        s < content.product.segments@.len(),
        v < content.product.segments@[s as int].pvtec@.len(),
        issue_time::opt_representable(ctx.query_time),
    ensures
        final(states).deep_view() == old(states).deep_view() + one_state(
            ctx.deep_view(),
            content.deep_view(),
            s as int,
            v as int,
        ),
{
    let ghost before = states.deep_view();
    let ghost c = content.deep_view();
    let segment = &content.product.segments[s];
    proof {
        assert(c.product.segments[s as int] == segment.deep_view());
        assert(segment.deep_view().pvtec[v as int] == segment.pvtec@[v as int].deep_view());
    }
    if segment.pvtec[v].significance() == Significance::Warning {
        let state = make_state(ctx, content, s, v);
        let ghost one = state.deep_view();
        states.push(state);
        assert(states.deep_view() =~= before + seq![one]);
    } else {
        assert(states.deep_view() =~= before + Seq::<StateView>::empty());
    }
}

fn push_segment_states(
    ctx: &MessageContext,
    content: &NwwsContent,
    s: usize,
    states: &mut Vec<TimelineRecordState>,
)
    requires
        s < content.product.segments@.len(),
        issue_time::opt_representable(ctx.query_time),
    ensures
        final(states).deep_view() == old(states).deep_view() + segment_states(
            ctx.deep_view(),
            content.deep_view(),
            s as int,
            content.deep_view().product.segments[s as int].pvtec.len() as int,
        ),
{
    let ghost before = states.deep_view();
    let ghost x = ctx.deep_view();
    let ghost c = content.deep_view();
    let n: usize = content.product.segments[s].pvtec.len();
    let mut v: usize = 0;
    assert(states.deep_view() =~= before + segment_states(x, c, s as int, 0));
    while v < n
        invariant
            v <= n,
            s < content.product.segments@.len(),
            n == content.product.segments@[s as int].pvtec@.len(),
            x == ctx.deep_view(),
            c == content.deep_view(),
            issue_time::opt_representable(ctx.query_time),
            states.deep_view() == before + segment_states(x, c, s as int, v as int),
        decreases n - v,
    {
        let ghost mid = segment_states(x, c, s as int, v as int);
        push_state(ctx, content, s, v, states);
        proof {
            let one = one_state(x, c, s as int, v as int);
            lemma_append(before, mid, one);
        }
        v += 1;
    }
}

proof fn lemma_append(a: Seq<StateView>, b: Seq<StateView>, c: Seq<StateView>)
    ensures
        (a + b) + c == a + (b + c),
{
    assert((a + b) + c =~= a + (b + c));
}

proof fn lemma_no_segment(start: Seq<StateView>, ctx: ContextView, content: NwwsContentView)
    ensures
        start + content_states(ctx, content, 0) == start,
{
    assert(start + content_states(ctx, content, 0) =~= start);
}

proof fn lemma_next_segment(
    start: Seq<StateView>,
    ctx: ContextView,
    content: NwwsContentView,
    s: int,
)
    requires
        0 <= s,
    ensures
        (start + content_states(ctx, content, s)) + segment_states(
            ctx,
            content,
            s,
            content.product.segments[s].pvtec.len() as int,
        ) == start + content_states(ctx, content, s + 1),
{
    lemma_append(
        start,
        content_states(ctx, content, s),
        segment_states(ctx, content, s, content.product.segments[s].pvtec.len() as int),
    );
}

/// Appends the states of all warnings of a message.
#[verifier::spinoff_prover]
pub fn collect_content_records(
    ctx: &MessageContext,
    content: &NwwsContent,
    states: &mut Vec<TimelineRecordState>,
)
    requires
        issue_time::opt_representable(ctx.query_time),
    ensures
        final(states).deep_view() == old(states).deep_view() + message_states(
            ctx.deep_view(),
            content.deep_view(),
        ),
{
    let ghost start = states.deep_view();
    let ghost x = ctx.deep_view();
    let ghost c = content.deep_view();
    let n: usize = content.product.segments.len();
    assert(n == c.product.segments.len());
    let mut s: usize = 0;
    proof {
        lemma_no_segment(start, x, c);
    }
    while s < n
        invariant
            s <= n,
            n == content.product.segments@.len(),
            x == ctx.deep_view(),
            c == content.deep_view(),
            issue_time::opt_representable(ctx.query_time),
            states.deep_view() == start + content_states(x, c, s as int),
        decreases n - s,
    {
        push_segment_states(ctx, content, s, states);
        proof {
            lemma_next_segment(start, x, c, s as int);
        }
        s += 1;
    }
}

} // verus!
