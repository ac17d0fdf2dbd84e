//! The warnings that are in effect at a reference time.

use vstd::hash_map::StringHashMap;
use vstd::prelude::*;

use crate::text;
use crate::timeline;
use crate::timeline_report::WarningTimelineFailure;
use crate::warning::{RecordView, StateView, TimelineRecordState, WarningLifecycleStatus};

verus! {

/// A warning in effect.
#[derive(Debug, Clone, PartialEq, Eq)]
pub struct ActiveWarningRecord {
    pub key: String,
    pub source_path: String,
    pub heading: String,
    pub issued_at: Option<String>,
    pub office: String,
    pub awips_id: Option<String>,
    pub product_family: String,
    pub event_family: String,
    pub action: String,
    pub vtec: String,
    pub ugcs: Vec<String>,
    pub headline: Option<String>,
}

/// What a warning in effect holds.
pub struct ActiveRecordView {
    pub key: Seq<char>,
    pub source_path: Seq<char>,
    pub heading: Seq<char>,
    pub issued_at: Option<Seq<char>>,
    pub office: Seq<char>,
    pub awips_id: Option<Seq<char>>,
    pub product_family: Seq<char>,
    pub event_family: Seq<char>,
    pub action: Seq<char>,
    pub vtec: Seq<char>,
    pub ugcs: Seq<Seq<char>>,
    pub headline: Option<Seq<char>>,
}

impl DeepView for ActiveWarningRecord {
    type V = ActiveRecordView;

    open spec fn deep_view(&self) -> ActiveRecordView {
        ActiveRecordView {
            key: self.key@,
            source_path: self.source_path@,
            heading: self.heading@,
            issued_at: self.issued_at.deep_view(),
            office: self.office@,
            awips_id: self.awips_id.deep_view(),
            product_family: self.product_family@,
            event_family: self.event_family@,
            action: self.action@,
            vtec: self.vtec@,
            ugcs: self.ugcs.deep_view(),
            headline: self.headline.deep_view(),
        }
    }
}

/// The warnings of a set of inputs that are in effect at a reference time.
#[derive(Debug, Clone, PartialEq, Eq)]
pub struct ActiveWarningReport {
    pub root: String,
    pub reference_utc: Option<String>,
    pub scanned_files: usize,
    pub parsed_files: usize,
    pub messages: usize,
    pub warning_vtec_segments: usize,
    pub future_messages: usize,
    pub active_records: usize,
    pub failures: usize,
    pub records: Vec<ActiveWarningRecord>,
    pub errors: Vec<WarningTimelineFailure>,
}

// ---------------------------------------------------------------------------
// Which records count
// ---------------------------------------------------------------------------

/// What records are collapsed by: the event (which names the office), the UGC
/// list and the event family.
pub open spec fn active_key(r: RecordView) -> Seq<char> {
    r.event_id + "|"@ + text::join(r.ugcs, ","@) + "|"@ + r.event_family
}

/// Among the first `n` records, the last with a key that was not issued after
/// the reference time.
pub open spec fn last_with_key(states: Seq<StateView>, key: Seq<char>, reference: int, n: int) -> Option<
    int,
>
    decreases n,
{
    if n <= 0 {
        None
    } else if !timeline::is_future(states[n - 1], reference) && active_key(states[n - 1].record)
        == key {
        Some(n - 1)
    } else {
        last_with_key(states, key, reference, n - 1)
    }
}

/// Whether record `i` is a warning in effect: issued by the reference time,
/// not followed by another of its key, and within its time.
pub open spec fn is_active(states: Seq<StateView>, i: int, reference: int) -> bool {
    &&& !timeline::is_future(states[i], reference)
    &&& last_with_key(states, active_key(states[i].record), reference, states.len() as int)
        == Some(i)
    &&& timeline::current_status(states[i], reference) == WarningLifecycleStatus::Active
}

/// A record as a warning in effect.
pub open spec fn active_record(r: RecordView) -> ActiveRecordView {
    ActiveRecordView {
        key: active_key(r),
        source_path: r.source_path,
        heading: r.heading,
        issued_at: r.issued_at,
        office: r.office,
        awips_id: r.awips_id,
        product_family: r.product_family,
        event_family: r.event_family,
        action: r.action,
        vtec: r.vtec,
        ugcs: r.ugcs,
        headline: r.headline,
    }
}

/// The warnings in effect among the first `n` records.
pub open spec fn active_among(states: Seq<StateView>, reference: int, n: int) -> Seq<
    ActiveRecordView,
>
    decreases n,
{
    if n <= 0 {
        Seq::empty()
    } else {
        let before = active_among(states, reference, n - 1);
        if is_active(states, n - 1, reference) {
            before.push(active_record(states[n - 1].record))
        } else {
            before
        }
    }
}

/// The warnings in effect, in the order of the records.
pub open spec fn active_records(states: Seq<StateView>, reference: int) -> Seq<ActiveRecordView> {
    active_among(states, reference, states.len() as int)
}

/// Whether two records stand in one message.
pub open spec fn same_message(a: StateView, b: StateView) -> bool {
    a.record.source_path == b.record.source_path && a.record.message_index
        == b.record.message_index
}

/// How many messages among the first `n` records, which stand message by
/// message, were issued after the reference time.
pub open spec fn future_messages(states: Seq<StateView>, reference: int, n: int) -> int
    decreases n,
{
    if n <= 0 {
        0
    } else {
        let before = future_messages(states, reference, n - 1);
        let counted = n >= 2 && same_message(states[n - 2], states[n - 1]) && timeline::is_future(
            states[n - 2],
            reference,
        );
        if timeline::is_future(states[n - 1], reference) && !counted {
            before + 1
        } else {
            before
        }
    }
}

// ---------------------------------------------------------------------------
// Laws
// ---------------------------------------------------------------------------

proof fn lemma_last_is_last(states: Seq<StateView>, key: Seq<char>, reference: int, n: int, i: int)
    requires
        0 <= i < n <= states.len(),
        !timeline::is_future(states[i], reference),
        active_key(states[i].record) == key,
        forall|j: int|
            i < j < n ==> timeline::is_future(#[trigger] states[j], reference) || active_key(
                states[j].record,
            ) != key,
    ensures
        last_with_key(states, key, reference, n) == Some(i),
    decreases n,
{
    if i < n - 1 {
        lemma_last_is_last(states, key, reference, n - 1, i);
    }
}

/// Every key is handed out at most once.
pub proof fn active_keys_are_distinct(states: Seq<StateView>, reference: int, i: int, j: int)
    requires
        0 <= i < states.len(),
        0 <= j < states.len(),
        i != j,
        is_active(states, i, reference),
        is_active(states, j, reference),
    ensures
        active_key(states[i].record) != active_key(states[j].record),
{
}

/// A warning in effect was issued by the reference time, which lies within
/// the time of the warning, and it neither cancels nor ends one.
pub proof fn active_warnings_cover_the_reference(states: Seq<StateView>, reference: int, i: int)
    requires
        0 <= i < states.len(),
        is_active(states, i, reference),
    ensures
        states[i].issued_at matches Some(issued) ==> issued <= reference,
        states[i].valid_start matches Some(start) ==> start <= reference,
        states[i].valid_end matches Some(end) ==> reference < end,
        states[i].action != crate::vtec::VtecAction::Cancel,
        states[i].action != crate::vtec::VtecAction::Expire,
{
}

/// Whether a text is free of the mark that parts a key.
pub open spec fn plain(s: Seq<char>) -> bool {
    forall|i: int| 0 <= i < s.len() ==> #[trigger] s[i] != '|'
}

proof fn lemma_same_event(a: RecordView, b: RecordView)
    requires
        plain(a.event_id),
        plain(b.event_id),
        active_key(a) == active_key(b),
    ensures
        a.event_id == b.event_id,
{
    reveal_strlit("|");
    let x = active_key(a);
    let y = active_key(b);
    assert(x[a.event_id.len() as int] == '|');
    assert(y[b.event_id.len() as int] == '|');
    if a.event_id.len() < b.event_id.len() {
        assert(y[a.event_id.len() as int] == b.event_id[a.event_id.len() as int]);
    } else if b.event_id.len() < a.event_id.len() {
        assert(x[b.event_id.len() as int] == a.event_id[b.event_id.len() as int]);
    }
    assert forall|i: int| 0 <= i < a.event_id.len() implies a.event_id[i] == b.event_id[i] by {
        assert(x[i] == a.event_id[i]);
        assert(y[i] == b.event_id[i]);
    }
    assert(a.event_id =~= b.event_id);
}

/// A record that the timeline shows as active is a warning in effect.
pub proof fn timeline_active_records_are_active(states: Seq<StateView>, reference: int, i: int)
    requires
        timeline::in_order(states),
        0 <= i < states.len(),
        forall|j: int| 0 <= j < states.len() ==> plain((#[trigger] states[j]).record.event_id),
        timeline::status_of(states, i, reference) == WarningLifecycleStatus::Active,
    ensures
        is_active(states, i, reference),
{
    let key = active_key(states[i].record);
    assert forall|j: int| i < j < states.len() implies timeline::is_future(
        #[trigger] states[j],
        reference,
    ) || active_key(states[j].record) != key by {
        if !timeline::is_future(states[j], reference) && active_key(states[j].record) == key {
            lemma_same_event(states[i].record, states[j].record);
            timeline::current_record_is_last(states, reference, i, j);
        }
    }
    lemma_last_is_last(states, key, reference, states.len() as int, i);
}

// ---------------------------------------------------------------------------
// Collecting
// ---------------------------------------------------------------------------

fn key_of(state: &TimelineRecordState) -> (r: String)
    ensures
        r@ == active_key(state.deep_view().record),
{
    let record = &state.record;
    let mut v: Vec<char> = Vec::new();
    text::push_str(&mut v, record.event_id.as_str());
    text::push_str(&mut v, "|");
    let ghost head = v@;
    assert(head =~= record.event_id@ + "|"@);
    let ghost ugcs = record.ugcs.deep_view();
    let mut i: usize = 0;
    while i < record.ugcs.len()
        invariant
            i <= record.ugcs@.len(),
            ugcs == record.ugcs.deep_view(),
            ugcs.len() == record.ugcs@.len(),
            v@ == head + text::join(ugcs.take(i as int), ","@),
        decreases record.ugcs.len() - i,
    {
        let ghost upto = ugcs.take(i + 1);
        let ghost before = v@;
        assert(upto.drop_last() =~= ugcs.take(i as int));
        if i > 0 {
            text::push_str(&mut v, ",");
        }
        text::push_str(&mut v, record.ugcs[i].as_str());
        proof {
            assert(upto.last() == record.ugcs@[i as int]@);
            if i == 0 {
                assert(upto[0] == upto.last());
                assert(before =~= head);
                assert(v@ =~= head + upto[0]);
            } else {
                assert(v@ =~= head + (text::join(ugcs.take(i as int), ","@) + ","@
                    + upto.last()));
            }
        }
        i += 1;
    }
    assert(ugcs.take(ugcs.len() as int) =~= ugcs);
    text::push_str(&mut v, "|");
    text::push_str(&mut v, record.event_family.as_str());
    assert(v@ =~= active_key(state.deep_view().record));
    text::to_text(v.as_slice())
}

fn make_active(state: &TimelineRecordState, key: String) -> (r: ActiveWarningRecord)
    requires
        key@ == active_key(state.deep_view().record),
    ensures
        r.deep_view() == active_record(state.deep_view().record),
{
    let record = &state.record;
    ActiveWarningRecord {
        key,
        source_path: record.source_path.clone(),
        heading: record.heading.clone(),
        issued_at: text::copy_opt(&record.issued_at),
        office: record.office.clone(),
        awips_id: text::copy_opt(&record.awips_id),
        product_family: record.product_family.clone(),
        event_family: record.event_family.clone(),
        action: record.action.clone(),
        vtec: record.vtec.clone(),
        ugcs: text::copy_texts(&record.ugcs),
        headline: text::copy_opt(&record.headline),
    }
}

/// The value at a key, if there is one.
spec fn entry(map: Map<Seq<char>, usize>, key: Seq<char>) -> Option<int> {
    if map.contains_key(key) {
        Some(map[key] as int)
    } else {
        None
    }
}

fn last_by_key(states: &Vec<TimelineRecordState>, reference: i128) -> (r: StringHashMap<usize>)
    ensures
        forall|key: Seq<char>| #[trigger]
            entry(r@, key) == last_with_key(
                states.deep_view(),
                key,
                reference as int,
                states@.len() as int,
            ),
{
    let ghost all = states.deep_view();
    let mut map: StringHashMap<usize> = StringHashMap::new();
    let mut i: usize = 0;
    while i < states.len()
        invariant
            i <= states@.len(),
            all == states.deep_view(),
            forall|key: Seq<char>| #[trigger]
                entry(map@, key) == last_with_key(all, key, reference as int, i as int),
        decreases states.len() - i,
    {
        let ghost before = map@;
        assert(all[i as int] == states@[i as int].deep_view());
        if !timeline::issued_after(&states[i], reference) {
            let key = key_of(&states[i]);
            map.insert(key, i);
        }
        proof {
            assert forall|key: Seq<char>| #[trigger]
                entry(map@, key) == last_with_key(all, key, reference as int, i + 1) by {
                assert(entry(before, key) == last_with_key(all, key, reference as int, i as int));
            }
        }
        i += 1;
    }
    map
}

/// The warnings in effect at the reference time among ordered records.
pub fn collect_active(states: &Vec<TimelineRecordState>, reference: i128) -> (r: Vec<
    ActiveWarningRecord,
>)
    ensures
        r.deep_view() == active_records(states.deep_view(), reference as int),
{
    let ghost all = states.deep_view();
    let map = last_by_key(states, reference);
    let mut out: Vec<ActiveWarningRecord> = Vec::new();
    let mut i: usize = 0;
    assert(out.deep_view() =~= Seq::<ActiveRecordView>::empty());
    while i < states.len()
        invariant
            i <= states@.len(),
            all == states.deep_view(),
            all.len() == states@.len(),
            forall|key: Seq<char>| #[trigger]
                entry(map@, key) == last_with_key(
                    all,
                    key,
                    reference as int,
                    all.len() as int,
                ),
            out.deep_view() == active_among(all, reference as int, i as int),
        decreases states.len() - i,
    {
        let state = &states[i];
        assert(all[i as int] == state.deep_view());
        if !timeline::issued_after(state, reference) {
            let key = key_of(state);
            assert(entry(map@, key@) == last_with_key(
                all,
                key@,
                reference as int,
                all.len() as int,
            ));
            let last: bool = match map.get(key.as_str()) {
                Some(k) => *k == i,
                None => false,
            };
            if last {
                match timeline::latest_record_status(state, reference) {
                    WarningLifecycleStatus::Active => {
                        let ghost before = out.deep_view();
                        let record = make_active(state, key);
                        out.push(record);
                        assert(out.deep_view() =~= before.push(record.deep_view()));
                    },
                    _ => {},
                }
            }
        }
        i += 1;
    }
    out
}

fn in_one_message(a: &TimelineRecordState, b: &TimelineRecordState) -> (r: bool)
    ensures
        r == same_message(a.deep_view(), b.deep_view()),
{
    a.record.message_index == b.record.message_index && text::same(
        text::to_chars(a.record.source_path.as_str()).as_slice(),
        text::to_chars(b.record.source_path.as_str()).as_slice(),
    )
}

/// How many messages were issued after the reference time.
pub fn count_future_messages(states: &Vec<TimelineRecordState>, reference: i128) -> (r: usize)
    ensures
        r == future_messages(states.deep_view(), reference as int, states@.len() as int),
{
    let ghost all = states.deep_view();
    let mut n: usize = 0;
    let mut i: usize = 0;
    while i < states.len()
        invariant
            i <= states@.len(),
            all == states.deep_view(),
            all.len() == states@.len(),
            n <= i,
            n == future_messages(all, reference as int, i as int),
        decreases states.len() - i,
    {
        assert(all[i as int] == states@[i as int].deep_view());
        if timeline::issued_after(&states[i], reference) {
            let counted: bool = if i > 0 {
                assert(all[i - 1] == states@[i - 1].deep_view());
                in_one_message(&states[i - 1], &states[i]) && timeline::issued_after(
                    &states[i - 1],
                    reference,
                )
            } else {
                false
            };
            if !counted {
                n += 1;
            }
        }
        i += 1;
    }
    n
}

} // verus!
