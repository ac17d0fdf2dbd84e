//! What reports promise: what each input adds to a timeline, what scans,
//! captures and sessions count, and what the results of operations tell.

use vstd::prelude::*;

use crate::api::{InputKind, InspectionView};
use crate::capture;
use crate::capture::{CaptureEventView, CaptureLimit, CaptureView};
use crate::clock;
use crate::families;
use crate::ingest;
use crate::ingest::{FramedStreamView, IngestHint, ParsedInputView};
use crate::lead_time;
use crate::metrics;
use crate::number;
use crate::oi;
use crate::oi::OiPayloadView;
use crate::product;
use crate::product::NwwsContentView;
use crate::report;
use crate::report::{EvidenceView, MetricParts, Operation, ResultParts};
use crate::runtime::{ArchiveRecordView, PreparedView, RecordSource};
use crate::scan;
use crate::scan::{ScanCountView, ScanView};
use crate::session;
use crate::summary::MessageSummaryView;
use crate::tally;
use crate::timeline_report;
use crate::timeline_report::GatheredView;
use crate::warning;
use crate::warning::{ContextView, RecordView, StateView, WarningByteRange};

verus! {

// ---------------------------------------------------------------------------
// Timelines
// ---------------------------------------------------------------------------

/// The context of message `k` of a stream.
pub open spec fn frame_context(
    query: Option<int>,
    path: Seq<char>,
    f: FramedStreamView,
    k: int,
) -> ContextView {
    ContextView {
        source_path: path,
        byte_range: Some(
            WarningByteRange { start: f.ranges[k].0 as usize, end: f.ranges[k].1 as usize },
        ),
        message_index: k + 1,
        wrapper_id: None,
        wrapper_issue: None,
        query_time: query,
    }
}

/// Whether the states from `at` on are those of the message.
pub open spec fn holds_at(
    states: Seq<StateView>,
    at: int,
    ctx: ContextView,
    content: NwwsContentView,
) -> bool {
    let added = warning::message_states(ctx, content);
    &&& 0 <= at
    &&& at + added.len() <= states.len()
    &&& forall|j: int| 0 <= j < added.len() ==> states[at + j] == #[trigger] added[j]
}

pub open spec fn begins_as(states: Seq<StateView>, before: Seq<StateView>) -> bool {
    before.len() <= states.len() && forall|j: int|
        0 <= j < before.len() ==> #[trigger] states[j] == before[j]
}

pub open spec fn begins_with_errors(
    errors: Seq<(Seq<char>, Seq<char>)>,
    before: Seq<(Seq<char>, Seq<char>)>,
) -> bool {
    before.len() <= errors.len() && forall|j: int|
        0 <= j < before.len() ==> #[trigger] errors[j] == before[j]
}

proof fn lemma_frames_kept(g: GatheredView, path: Seq<char>, f: FramedStreamView, i: int)
    requires
        0 <= i,
    ensures
        ({
            let w = timeline_report::with_frames(g, path, f, i);
            &&& begins_as(w.states, g.states)
            &&& begins_with_errors(w.errors, g.errors)
            &&& w.query_time == g.query_time
            &&& w.scanned == g.scanned
            &&& w.parsed == g.parsed
        }),
    decreases f.messages.len() - i,
{
    if i < f.messages.len() {
        let read = product::parse_content(f.messages[i]);
        let next = if read is Ok {
            timeline_report::with_message(
                g,
                frame_context(g.query_time, path, f, i),
                read->Ok_0,
            )
        } else {
            timeline_report::with_failure(
                g,
                path,
                timeline_report::frame_failure_text(i + 1, read->Err_0),
            )
        };
        lemma_frames_kept(next, path, f, i + 1);
    }
}

proof fn lemma_frame_added(
    g: GatheredView,
    path: Seq<char>,
    f: FramedStreamView,
    i: int,
    k: int,
) -> (at: int)
    requires
        0 <= i <= k < f.messages.len(),
    ensures
        ({
            let w = timeline_report::with_frames(g, path, f, i);
            let read = product::parse_content(f.messages[k]);
            &&& read is Ok ==> holds_at(
                w.states,
                at,
                frame_context(g.query_time, path, f, k),
                read->Ok_0,
            )
            &&& read is Err ==> 0 <= at < w.errors.len() && w.errors[at] == (
                path,
                timeline_report::frame_failure_text(k + 1, read->Err_0),
            )
        }),
    decreases k - i,
{
    let read = product::parse_content(f.messages[i]);
    let next = if read is Ok {
        timeline_report::with_message(g, frame_context(g.query_time, path, f, i), read->Ok_0)
    } else {
        timeline_report::with_failure(
            g,
            path,
            timeline_report::frame_failure_text(i + 1, read->Err_0),
        )
    };
    if i < k {
        lemma_frame_added(next, path, f, i + 1, k)
    } else {
        lemma_frames_kept(next, path, f, i + 1);
        let w = timeline_report::with_frames(g, path, f, i);
        if read is Ok {
            let ctx = frame_context(g.query_time, path, f, i);
            let added = warning::message_states(ctx, read->Ok_0);
            let at = g.states.len() as int;
            assert forall|j: int| 0 <= j < added.len() implies w.states[at + j]
                == #[trigger] added[j] by {
                assert(next.states[at + j] == added[j]);
            }
            at
        } else {
            let at = g.errors.len() as int;
            assert(next.errors[at] == (
                path,
                timeline_report::frame_failure_text(i + 1, read->Err_0),
            ));
            at
        }
    }
}

proof fn lemma_frames_counted(g: GatheredView, path: Seq<char>, f: FramedStreamView, i: int)
    requires
        0 <= i <= f.messages.len(),
        g.messages + (f.messages.len() - i) <= usize::MAX,
        g.failures + (f.messages.len() - i) <= usize::MAX,
    ensures
        ({
            let w = timeline_report::with_frames(g, path, f, i);
            (w.messages - g.messages) + (w.failures - g.failures) == f.messages.len() - i
                && w.messages >= g.messages && w.failures >= g.failures
        }),
    decreases f.messages.len() - i,
{
    if i < f.messages.len() {
        let read = product::parse_content(f.messages[i]);
        let next = if read is Ok {
            timeline_report::with_message(
                g,
                frame_context(g.query_time, path, f, i),
                read->Ok_0,
            )
        } else {
            timeline_report::with_failure(
                g,
                path,
                timeline_report::frame_failure_text(i + 1, read->Err_0),
            )
        };
        lemma_frames_counted(next, path, f, i + 1);
    }
}

/// Every message of a stream adds to a timeline: message `k` its records,
/// from `at` on, if it is read, and an error if it is not; so all of them are
/// counted, as messages or as failures, and what was gathered before stays.
pub proof fn every_message_of_a_stream_is_gathered(
    g: GatheredView,
    path: Seq<char>,
    f: FramedStreamView,
    k: int,
) -> (at: int)
    requires
        0 <= k < f.messages.len(),
        g.messages + f.messages.len() <= usize::MAX,
        g.failures + f.messages.len() <= usize::MAX,
    ensures
        ({
            let w = timeline_report::with_frames(g, path, f, 0);
            let read = product::parse_content(f.messages[k]);
            &&& begins_as(w.states, g.states)
            &&& begins_with_errors(w.errors, g.errors)
            &&& (w.messages - g.messages) + (w.failures - g.failures) == f.messages.len()
            &&& read is Ok ==> holds_at(
                w.states,
                at,
                frame_context(g.query_time, path, f, k),
                read->Ok_0,
            )
            &&& read is Err ==> 0 <= at < w.errors.len() && w.errors[at] == (
                path,
                timeline_report::frame_failure_text(k + 1, read->Err_0),
            )
        }),
{
    lemma_frames_kept(g, path, f, 0);
    lemma_frames_counted(g, path, f, 0);
    lemma_frame_added(g, path, f, 0, k)
}

/// What an input adds to a timeline. Each is counted as scanned. One that is
/// not read adds an error and no record, and so do a message of the open
/// interface without content and a stream without frames. Any other is counted
/// as parsed; a bulletin and a message of the open interface are one message
/// and add its records, and a stream adds what its messages add.
pub proof fn inputs_add_their_records(
    g: GatheredView,
    path: Seq<char>,
    hint: IngestHint,
    bytes: Seq<u8>,
)
    requires
        g.scanned < usize::MAX,
        g.parsed < usize::MAX,
        g.messages < usize::MAX,
        g.failures < usize::MAX,
    ensures
        ({
            let w = timeline_report::with_input(g, path, hint, bytes);
            let failed = w.parsed == g.parsed && w.messages == g.messages && w.states == g.states
                && w.failures == g.failures + 1 && w.errors.len() == g.errors.len() + 1
                && w.errors.drop_last() == g.errors && w.errors.last().0 == path && w.scanned
                == g.scanned + 1;
            match ingest::parse_input(hint, bytes) {
                Err(_) => failed,
                Ok(ParsedInputView::Bulletin { transport, content }) => w.scanned == g.scanned + 1
                    && w.parsed == g.parsed + 1 && w.messages == g.messages + 1 && w.failures
                    == g.failures && w.errors == g.errors && w.states == g.states
                    + warning::message_states(
                    ContextView {
                        source_path: path,
                        byte_range: None,
                        message_index: 1,
                        wrapper_id: None,
                        wrapper_issue: None,
                        query_time: g.query_time,
                    },
                    content,
                ),
                Ok(ParsedInputView::OpenInterface { transport, message, wrapper_id }) => match oi::message_content(
                    message,
                ) {
                    Err(_) => failed,
                    Ok(content) => w.scanned == g.scanned + 1 && w.parsed == g.parsed + 1
                        && w.messages == g.messages + 1 && w.failures == g.failures && w.errors
                        == g.errors && w.states == g.states + warning::message_states(
                        ContextView {
                            source_path: path,
                            byte_range: None,
                            message_index: 1,
                            wrapper_id,
                            wrapper_issue: Some(message.payload->0.instant),
                            query_time: g.query_time,
                        },
                        content,
                    ),
                },
                Ok(ParsedInputView::FramedStream(f)) => if f.messages.len() == 0 {
                    failed
                } else {
                    w.scanned == g.scanned + 1 && w.parsed == g.parsed + 1 && w
                        == timeline_report::with_frames(
                        GatheredView {
                            scanned: (g.scanned + 1) as usize,
                            parsed: (g.parsed + 1) as usize,
                            ..g
                        },
                        path,
                        f,
                        0,
                    )
                },
            }
        }),
{
    let scanned = GatheredView { scanned: timeline_report::bumped(g.scanned), ..g };
    if let Ok(ParsedInputView::FramedStream(f)) = ingest::parse_input(hint, bytes) {
        let parsed = GatheredView { parsed: timeline_report::bumped(g.parsed), ..scanned };
        lemma_frames_kept(parsed, path, f, 0);
    }
    assert forall|e: (Seq<char>, Seq<char>)| #[trigger]
        g.errors.push(e).drop_last() == g.errors by {
        assert(g.errors.push(e).drop_last() =~= g.errors);
    }
}

/// A timeline tells the records that were gathered, each once, in the order of
/// their states.
pub proof fn timelines_tell_every_record(states: Seq<StateView>, i: int)
    requires
        0 <= i < states.len(),
    ensures
        timeline_report::records_of(states).len() == states.len(),
        timeline_report::records_of(states)[i] == states[i].record,
{
}

// ---------------------------------------------------------------------------
// Scans
// ---------------------------------------------------------------------------

/// How often a name was counted.
pub open spec fn count_in(counts: Map<Seq<char>, usize>, name: Seq<char>) -> int {
    if counts.dom().contains(name) {
        counts[name] as int
    } else {
        0
    }
}

/// To count a name adds one to its count and leaves every other count as it
/// is.
pub proof fn names_are_counted_one_by_one(
    counts: Map<Seq<char>, usize>,
    name: Seq<char>,
    other: Seq<char>,
)
    requires
        count_in(counts, name) < usize::MAX,
    ensures
        count_in(tally::counted(counts, name), other) == count_in(counts, other) + if other == name {
            1int
        } else {
            0int
        },
{
}

/// How many of the messages are of a family.
pub open spec fn of_family(messages: Seq<MessageSummaryView>, family: Seq<char>) -> int {
    messages.filter(|m: MessageSummaryView| m.family == family).len() as int
}

/// The families of a scan count each message once, under its family.
pub proof fn families_count_their_messages(
    counts: Map<Seq<char>, usize>,
    messages: Seq<MessageSummaryView>,
    family: Seq<char>,
)
    requires
        forall|f: Seq<char>| #[trigger] count_in(counts, f) + messages.len() <= usize::MAX,
    ensures
        count_in(scan::with_families(counts, messages), family) == count_in(counts, family)
            + of_family(messages, family),
    decreases messages.len(),
{
    reveal(Seq::filter);
    if messages.len() > 0 {
        let rest = messages.drop_last();
        families_count_their_messages(counts, rest, family);
        families_count_their_messages(counts, rest, messages.last().family);
        lemma_filter_len(rest, messages.last().family);
        assert(count_in(counts, messages.last().family) + messages.len() <= usize::MAX);
        names_are_counted_one_by_one(
            scan::with_families(counts, rest),
            messages.last().family,
            family,
        );
    }
}

proof fn lemma_filter_len(messages: Seq<MessageSummaryView>, family: Seq<char>)
    ensures
        of_family(messages, family) <= messages.len(),
    decreases messages.len(),
{
    reveal(Seq::filter);
    if messages.len() > 0 {
        lemma_filter_len(messages.drop_last(), family);
    }
}

proof fn lemma_place(s: Seq<ScanCountView>, kind: InputKind, transport: Seq<char>, i: int)
    requires
        0 <= i <= s.len(),
    ensures
        i <= scan::count_place(s, kind, transport, i) <= s.len(),
        forall|k: int|
            i <= k < scan::count_place(s, kind, transport, i) ==> scan::stands_before(
                #[trigger] s[k],
                kind,
                transport,
            ),
        scan::count_place(s, kind, transport, i) < s.len() ==> !scan::stands_before(
            s[scan::count_place(s, kind, transport, i)],
            kind,
            transport,
        ),
    decreases s.len() - i,
{
    if i < s.len() && scan::stands_before(s[i], kind, transport) {
        lemma_place(s, kind, transport, i + 1);
    }
}

/// A file is counted under its kind and transport, at `p`: where these have a
/// count, at `q` here, it is the one that grows, by one file and so many
/// messages; where they have none, one with this file alone is put in. All
/// other counts stay.
pub proof fn files_are_counted_under_kind_and_transport(
    s: Seq<ScanCountView>,
    kind: InputKind,
    transport: Seq<char>,
    messages: usize,
    q: int,
) -> (p: int)
    requires
        scan::counts_in_order(s),
    ensures
        ({
            let t = scan::with_file(s, kind, transport, messages);
            &&& 0 <= p < t.len()
            &&& t[p].input_kind == kind
            &&& t[p].transport == transport
            &&& 0 <= q < s.len() && s[q].input_kind == kind && s[q].transport == transport ==> {
                &&& p == q
                &&& t.len() == s.len()
                &&& s[q].files < usize::MAX ==> t[q].files == s[q].files + 1
                &&& s[q].messages + messages <= usize::MAX ==> t[q].messages == s[q].messages
                    + messages
                &&& forall|i: int| 0 <= i < s.len() && i != q ==> #[trigger] t[i] == s[i]
            }
            &&& (forall|i: int|
                0 <= i < s.len() ==> (#[trigger] s[i]).input_kind != kind || s[i].transport
                    != transport) ==> {
                &&& t.len() == s.len() + 1
                &&& t[p].files == 1
                &&& t[p].messages == messages
                &&& forall|i: int| 0 <= i < p ==> #[trigger] t[i] == s[i]
                &&& forall|i: int| p < i < t.len() ==> #[trigger] t[i] == s[i - 1]
            }
        }),
{
    let p = scan::count_place(s, kind, transport, 0);
    lemma_place(s, kind, transport, 0);
    if 0 <= q < s.len() && s[q].input_kind == kind && s[q].transport == transport {
        tally::before_is_irreflexive(transport);
        assert(!scan::stands_before(s[q], kind, transport));
        if p < q {
            assert(scan::stands_before(s[p], s[q].input_kind, s[q].transport));
        }
        if q < p {
            assert(scan::stands_before(s[q], kind, transport));
        }
        assert(p == q);
    }
    p
}

/// A scan counts each file as scanned, one that is read as parsed with its
/// messages, any other as a failure; and lists it with its report or with the
/// error.
pub proof fn scans_count_their_files(
    v: ScanView,
    path: Seq<char>,
    report: InspectionView,
    error: Seq<char>,
)
    requires
        v.scanned_files < usize::MAX,
        v.parsed_files < usize::MAX,
        v.failures < usize::MAX,
        v.messages + report.messages.len() <= usize::MAX,
    ensures
        ({
            let read = scan::with_report(v, path, report);
            let failed = scan::with_failed_file(v, path, error);
            &&& read.scanned_files == v.scanned_files + 1
            &&& read.parsed_files == v.parsed_files + 1
            &&& read.failures == v.failures
            &&& read.messages == v.messages + report.messages.len()
            &&& read.files.len() == v.files.len() + 1
            &&& read.files.last().path == path
            &&& read.files.last().report == Some(report)
            &&& read.files.last().error is None
            &&& failed.scanned_files == v.scanned_files + 1
            &&& failed.parsed_files == v.parsed_files
            &&& failed.failures == v.failures + 1
            &&& failed.messages == v.messages
            &&& failed.counts == v.counts
            &&& failed.families == v.families
            &&& failed.files.len() == v.files.len() + 1
            &&& failed.files.last().path == path
            &&& failed.files.last().report is None
            &&& failed.files.last().error == Some(error)
        }),
{
}

// ---------------------------------------------------------------------------
// Captures and sessions
// ---------------------------------------------------------------------------

/// A capture counts what happens. A message that is read adds one to those
/// read. One that is archived adds its new copies and its duplicates. One that
/// is not adds a failure and an error and goes on; a read that fails does so
/// too and stops. Only a failed read and the end of the time stop a capture.
pub proof fn captures_count_what_happens(c: CaptureView, event: CaptureEventView)
    requires
        c.messages_read < usize::MAX,
        c.failures < usize::MAX,
        event matches CaptureEventView::Archived(r) ==> 0 <= r.archived_records && 0
            <= r.duplicate_records && c.archived_records + r.archived_records <= usize::MAX
            && c.duplicate_records + r.duplicate_records <= usize::MAX,
    ensures
        ({
            let after = capture::capture_after(c, event);
            let time_is_up = (event matches CaptureEventView::BeforeRead { time_is_up }
                && time_is_up) || (event matches CaptureEventView::TimedOut { time_is_up }
                && time_is_up);
            let failed = event is ReadFailed || event is ArchiveFailed;
            &&& after.messages_read == c.messages_read + if event is MessageRead {
                1int
            } else {
                0int
            }
            &&& after.failures == c.failures + if failed {
                1int
            } else {
                0int
            }
            &&& after.errors.len() == c.errors.len() + if failed {
                1int
            } else {
                0int
            }
            &&& after.stopped == (c.stopped || time_is_up || event is ReadFailed)
            &&& after.limit_reached == if time_is_up {
                Some(CaptureLimit::Duration)
            } else {
                c.limit_reached
            }
            &&& event matches CaptureEventView::Archived(r) ==> after.archived_records
                == c.archived_records + r.archived_records && after.duplicate_records
                == c.duplicate_records + r.duplicate_records && after.messages == c.messages.push(
                r,
            )
            &&& !(event is Archived) ==> after.archived_records == c.archived_records
                && after.duplicate_records == c.duplicate_records && after.messages == c.messages
            &&& after.max_messages == c.max_messages
        }),
{
}

/// A capture goes on until it has stopped or has read as many messages as it
/// was asked for. At its end it says that it reached that number, unless its
/// time was up before.
pub proof fn captures_end_at_their_limits(c: CaptureView)
    ensures
        capture::goes_on(c) <==> !c.stopped && c.messages_read < c.max_messages,
        c.limit_reached is Some ==> capture::capture_end(c) == c,
        c.limit_reached is None && c.messages_read >= c.max_messages ==> capture::capture_end(
            c,
        ).limit_reached == Some(CaptureLimit::MaxMessages),
        c.messages_read < c.max_messages ==> capture::capture_end(c) == c,
        capture::capture_end(c).messages_read == c.messages_read,
        capture::capture_end(c).archived_records == c.archived_records,
        capture::capture_end(c).duplicate_records == c.duplicate_records,
        capture::capture_end(c).failures == c.failures,
{
}

proof fn lemma_copies(records: Seq<ArchiveRecordView>, duplicate: bool)
    ensures
        capture::copies_that_are(records, duplicate) == records.filter(
            |r: ArchiveRecordView| r.duplicate == duplicate,
        ).len(),
    decreases records.len(),
{
    reveal(Seq::filter);
    if records.len() > 0 {
        lemma_copies(records.drop_last(), duplicate);
    }
}

/// The report on a message counts its new copies and its duplicates; one of
/// which nothing was written is one duplicate. It names the payload and tells
/// every copy as it is.
pub proof fn message_reports_tell_every_copy(
    index: int,
    payload: OiPayloadView,
    issue: Seq<char>,
    records: Seq<ArchiveRecordView>,
    i: int,
)
    ensures
        ({
            let r = capture::message_report(index, payload, issue, records);
            &&& r.message_index == index
            &&& r.issue_utc == issue
            &&& r.ttaaii == payload.ttaaii
            &&& r.cccc == payload.cccc
            &&& r.awips_id == payload.awips_id
            &&& r.archived_records == records.filter(
                |r: ArchiveRecordView| r.duplicate == false,
            ).len()
            &&& records.len() > 0 ==> r.duplicate_records == records.filter(
                |r: ArchiveRecordView| r.duplicate == true,
            ).len()
            &&& records.len() == 0 ==> r.archived_records == 0 && r.duplicate_records == 1
            &&& r.records.len() == records.len()
            &&& 0 <= i < records.len() ==> {
                let t = r.records[i];
                let m = records[i].metadata;
                &&& t.fingerprint == records[i].fingerprint
                &&& t.duplicate == records[i].duplicate
                &&& t.raw_path == records[i].raw_path
                &&& t.metadata_path == records[i].metadata_path
                &&& t.transport == m.transport
                &&& t.frame_kind == m.frame_kind
                &&& t.sequence_number == m.sequence_number
                &&& t.ttaaii == m.ttaaii
                &&& t.cccc == m.cccc
                &&& t.heading == m.ttaaii + seq![' '] + m.cccc
                &&& t.awips_id == m.awips_id
                &&& t.family == families::family_text(m.family)
                &&& t.segment_count == m.segment_count
                &&& t.wrapper_id == m.wrapper_id
                &&& t.wrapper_issue == m.wrapper_issue
            }
        }),
{
    lemma_copies(records, false);
    lemma_copies(records, true);
}

proof fn lemma_readable(
    messages: Seq<Seq<u8>>,
    now: int,
    i: int,
    done: Seq<PreparedView>,
) -> (k: int)
    requires
        0 <= i <= messages.len(),
        done.len() == i,
        forall|j: int| 0 <= j < i ==> is_record_of(#[trigger] done[j], messages[j], now),
    ensures
        ({
            let r = session::readable(messages, now, i, done);
            &&& i <= k <= messages.len()
            &&& r.0.len() == k
            &&& forall|j: int| 0 <= j < k ==> is_record_of(#[trigger] r.0[j], messages[j], now)
            &&& r.1 is None <==> k == messages.len()
            &&& k < messages.len() ==> session::prepared_message(messages[k], now) is Err
                && session::prepared_message(messages[k], now)->Err_0 == r.1->0
        }),
    decreases messages.len() - i,
{
    if i < messages.len() {
        let read = session::prepared_message(messages[i], now);
        if read is Ok {
            let more = done.push(read->Ok_0);
            assert forall|j: int| 0 <= j < i + 1 implies is_record_of(
                #[trigger] more[j],
                messages[j],
                now,
            ) by {
                if j < i {
                    assert(more[j] == done[j]);
                }
            }
            lemma_readable(messages, now, i + 1, more)
        } else {
            i
        }
    } else {
        i
    }
}

/// Whether a record is that of a framed message.
pub open spec fn is_record_of(record: PreparedView, message: Seq<u8>, now: int) -> bool {
    session::prepared_message(message, now) is Ok && session::prepared_message(message, now)->Ok_0
        == record
}

/// A session makes a record of every message up to the first that cannot be
/// read, message `k` here, and tells why that one cannot.
pub proof fn sessions_stop_at_the_first_unreadable_message(
    messages: Seq<Seq<u8>>,
    now: int,
) -> (k: int)
    ensures
        ({
            let r = session::readable(messages, now, 0, Seq::empty());
            &&& 0 <= k <= messages.len()
            &&& r.0.len() == k
            &&& forall|j: int| 0 <= j < k ==> is_record_of(#[trigger] r.0[j], messages[j], now)
            &&& r.1 is None <==> k == messages.len()
            &&& k < messages.len() ==> session::prepared_message(messages[k], now) is Err
                && session::prepared_message(messages[k], now)->Err_0 == r.1->0
        }),
{
    lemma_readable(messages, now, 0, Seq::empty())
}

/// The record of a framed message holds the message and repeats what its
/// bulletin says.
pub proof fn framed_messages_are_kept(message: Seq<u8>, now: int, record: PreparedView)
    requires
        is_record_of(record, message, now),
    ensures
        product::parse_content(message) is Ok,
        record.raw_bytes == message,
        record.metadata.source == RecordSource::SatellitePid201,
        record.metadata.transport == "satellite-pid201"@,
        record.metadata.captured_at == clock::utc_text(now),
        record.metadata.cccc == product::parse_content(message)->Ok_0.bulletin.heading.cccc,
        record.metadata.ttaaii == product::parse_content(message)->Ok_0.bulletin.heading.ttaaii,
        record.metadata.awips_id == product::parse_content(message)->Ok_0.bulletin.awips_id,
        record.metadata.family == product::parse_content(message)->Ok_0.product.family,
        record.metadata.wrapper_id is None,
        record.metadata.wrapper_issue is None,
{
}

// ---------------------------------------------------------------------------
// Results
// ---------------------------------------------------------------------------

/// Lead-time metrics are flagged for a record without a polygon, and for one
/// without an interval, and for nothing else.
pub proof fn metrics_are_flagged_for_what_is_missing(records: Seq<RecordView>)
    ensures
        ({
            let flags = lead_time::quality_flags(records);
            let shapeless = exists|i: int|
                0 <= i < records.len() && (#[trigger] records[i]).polygon is None;
            let endless = exists|i: int|
                0 <= i < records.len() && metrics::interval_of(#[trigger] records[i]) is None;
            &&& shapeless && endless ==> flags == seq![
                "records-without-polygon"@,
                "records-without-interval"@,
            ]
            &&& shapeless && !endless ==> flags == seq!["records-without-polygon"@]
            &&& !shapeless && endless ==> flags == seq!["records-without-interval"@]
            &&& !shapeless && !endless ==> flags.len() == 0
        }),
{
    let flags = lead_time::quality_flags(records);
    if lead_time::lacks_polygon(records, records.len() as int) {
        if lead_time::lacks_interval(records, records.len() as int) {
            assert(flags =~= seq!["records-without-polygon"@, "records-without-interval"@]);
        } else {
            assert(flags =~= seq!["records-without-polygon"@]);
        }
    } else if lead_time::lacks_interval(records, records.len() as int) {
        assert(flags =~= seq!["records-without-interval"@]);
    }
}

pub open spec fn one_if(b: bool) -> int {
    if b {
        1
    } else {
        0
    }
}

/// Whether a piece of evidence tells a count.
pub open spec fn tells(
    e: EvidenceView,
    kind: Seq<char>,
    before: Seq<char>,
    after: Seq<char>,
    n: u64,
) -> bool {
    &&& e.evidence_type == kind
    &&& e.summary == before + number::decimal(n as nat) + after
    &&& e.count == Some(n)
    &&& e.metrics is None
}

/// The evidence of a result has one piece for each part it has, in this order:
/// the messages read, the records archived, the active ones, those of the
/// timeline, the metrics, the messages parsed, the files scanned and the
/// records listed. A result without any part has one piece that says so.
#[verifier::spinoff_prover]
#[verifier::rlimit(50)]
pub proof fn evidence_is_one_piece_for_each_part(parts: ResultParts)
    ensures
        ({
            let e = report::evidence_of(parts);
            let n0 = one_if(parts.messages_read is Some);
            let n1 = n0 + one_if(parts.archived_records is Some);
            let n2 = n1 + one_if(parts.active_records is Some);
            let n3 = n2 + one_if(parts.warning_records is Some);
            let n4 = n3 + one_if(parts.metrics is Some);
            let n5 = n4 + one_if(parts.messages is Some);
            let n6 = n5 + one_if(parts.scanned_files is Some);
            let n7 = n6 + one_if(parts.records is Some);
            &&& n7 > 0 ==> e.len() == n7
            &&& n7 == 0 ==> e.len() == 1 && e[0].evidence_type == "parser_output"@
            &&& parts.messages_read matches Some(n) ==> tells(
                e[0],
                "live_messages_read"@,
                "Read "@,
                " live NWWS-OI message(s)."@,
                n,
            )
            &&& parts.archived_records matches Some(n) ==> tells(
                e[n0],
                "archived_records"@,
                "Archived "@,
                " new record(s)."@,
                n,
            )
            &&& parts.active_records matches Some(n) ==> tells(
                e[n1],
                "active_warning_records"@,
                "Returned "@,
                " active warning record(s)."@,
                n,
            )
            &&& parts.warning_records matches Some(n) ==> tells(
                e[n2],
                "warning_timeline_records"@,
                "Returned "@,
                " warning timeline record(s)."@,
                n,
            )
            &&& parts.metrics matches Some(m) ==> e[n3].evidence_type
                == "warning_lead_time_metrics"@ && e[n3].metrics == Some(m) && e[n3].count is None
                && e[n3].summary == report::metric_summary(m)
            &&& parts.messages matches Some(n) ==> tells(
                e[n4],
                "parsed_messages"@,
                "Parsed "@,
                " warning message(s)."@,
                n,
            )
            &&& parts.scanned_files matches Some(n) ==> tells(
                e[n5],
                "scanned_files"@,
                "Scanned "@,
                " input file(s)."@,
                n,
            )
            &&& parts.records matches Some(n) ==> tells(
                e[n6],
                "records"@,
                "Returned "@,
                " archive record(s)."@,
                n,
            )
        }),
{
    let s0 = report::counted_evidence(
        "live_messages_read"@,
        "Read "@,
        " live NWWS-OI message(s)."@,
        parts.messages_read,
    );
    let s1 = report::counted_evidence(
        "archived_records"@,
        "Archived "@,
        " new record(s)."@,
        parts.archived_records,
    );
    let s2 = report::counted_evidence(
        "active_warning_records"@,
        "Returned "@,
        " active warning record(s)."@,
        parts.active_records,
    );
    let s3 = report::counted_evidence(
        "warning_timeline_records"@,
        "Returned "@,
        " warning timeline record(s)."@,
        parts.warning_records,
    );
    let s4 = report::metric_evidence(parts.metrics);
    let s5 = report::counted_evidence(
        "parsed_messages"@,
        "Parsed "@,
        " warning message(s)."@,
        parts.messages,
    );
    let s6 = report::counted_evidence(
        "scanned_files"@,
        "Scanned "@,
        " input file(s)."@,
        parts.scanned_files,
    );
    let s7 = report::counted_evidence(
        "records"@,
        "Returned "@,
        " archive record(s)."@,
        parts.records,
    );
    let t1 = s0 + s1;
    let t2 = t1 + s2;
    let t3 = t2 + s3;
    let t4 = t3 + s4;
    let t5 = t4 + s5;
    let t6 = t5 + s6;
    let t7 = t6 + s7;
    assert(report::evidence_parts(parts) == t7);
    if parts.messages_read is Some {
        assert(t7[0] == s0[0]);
    }
    if parts.archived_records is Some {
        assert(t7[s0.len() as int] == s1[0]);
    }
    if parts.active_records is Some {
        assert(t7[t1.len() as int] == s2[0]);
    }
    if parts.warning_records is Some {
        assert(t7[t2.len() as int] == s3[0]);
    }
    if parts.metrics is Some {
        assert(t7[t3.len() as int] == s4[0]);
    }
    if parts.messages is Some {
        assert(t7[t4.len() as int] == s5[0]);
    }
    if parts.scanned_files is Some {
        assert(t7[t5.len() as int] == s6[0]);
    }
    if parts.records is Some {
        assert(t7[t6.len() as int] == s7[0]);
    }
}

/// Metrics with a lead time tell it, with its sign; without one they tell
/// whether the event was missed.
pub proof fn metrics_tell_their_lead_time(m: MetricParts)
    ensures
        m.lead_time_seconds matches Some(n) ==> report::metric_summary(m)
            == "Computed warning lead time of "@ + (if n < 0 {
            seq!['-'] + number::decimal((0 - n) as nat)
        } else {
            number::decimal(n as nat)
        }) + " second(s)."@,
        m.lead_time_seconds is None && m.missed_event ==> report::metric_summary(m)
            == "No valid warning covered the supplied event point/time."@,
        m.lead_time_seconds is None && !m.missed_event ==> report::metric_summary(m)
            == "Computed warning lead-time metrics without a finite lead-time value."@,
{
}

/// Every result but that of a live capture says that it rests on the local
/// input alone, and those of queries say what they query.
pub proof fn results_say_what_they_leave_out(operation: Operation)
    ensures
        ({
            let l = report::limitations(operation);
            &&& operation != Operation::OiArchive ==> l.len() >= 2 && l[0]
                == "Output reflects parser results for the supplied local input only."@ && l[1]
                == "No external NWS source-of-truth or network delivery validation is performed."@
            &&& operation == Operation::OiArchive ==> l.len() == 3
            &&& operation == Operation::ActiveAt ==> l.len() == 3 && l[2]
                == "Active-at queries use local WMO heading times and VTEC intervals; records without warning P-VTEC are not returned."@
            &&& operation == Operation::Timeline || operation == Operation::LeadTime ==> l.len()
                >= 3 && l[2]
                == "Timeline queries return warning-significance P-VTEC records; non-warning products are not verification records."@
            &&& operation == Operation::Timeline ==> l.len() == 3
            &&& operation == Operation::LeadTime ==> l.len() == 6
        }),
{
}

/// The line of a replay tells the file, what it was read as and how many
/// messages it has; then the heading, the AWIPS identifier where there is one,
/// the family and the summary where there is one of the first message; then,
/// each only where it is not zero, the number of further messages, of bytes
/// before the first frame and of bytes behind the last.
pub proof fn replays_tell_the_first_message(name: Seq<char>, r: InspectionView)
    ensures
        ({
            let f = report::replay_fields(name, r);
            let first = r.messages[0];
            let has = r.messages.len() > 0;
            let awips = one_if(has && first.awips_id is Some);
            let said = first.wrapper is Some && first.wrapper->0.summary is Some;
            let base = 3 + if has {
                2 + awips + one_if(said)
            } else {
                0
            };
            let extra = one_if(r.messages.len() > 1);
            let junk = one_if(r.junk_bytes > 0);
            let pending = one_if(r.pending_bytes > 0);
            &&& f.len() == base + extra + junk + pending
            &&& f[0] == name
            &&& f[1] == r.input_kind.spec_label() + seq!['/'] + r.transport.kind
            &&& f[2] == "messages="@ + number::decimal(r.messages.len())
            &&& has ==> f[3] == "heading="@ + first.heading
            &&& has && first.awips_id is Some ==> f[4] == "awips="@ + first.awips_id->0
            &&& has ==> f[4 + awips] == "family="@ + first.family
            &&& has && said ==> f[5 + awips] == "summary="@ + first.wrapper->0.summary->0
            &&& r.messages.len() > 1 ==> f[base] == "extra="@ + number::decimal(
                (r.messages.len() - 1) as nat,
            )
            &&& r.junk_bytes > 0 ==> f[base + extra] == "junk="@ + number::decimal(
                r.junk_bytes as nat,
            )
            &&& r.pending_bytes > 0 ==> f[base + extra + junk] == "pending="@ + number::decimal(
                r.pending_bytes as nat,
            )
        }),
{
}

} // verus!
