//! A bounded live capture: NWWS-OI messages that are read and archived.

use vstd::prelude::*;

use crate::clock;
use crate::digest;
use crate::error::{ErrorKind, ParseError};
use crate::families;
use crate::ingest::{IngestHint, TransportKind};
use crate::oi;
use crate::oi::{NwwsOiMessage, NwwsOiPayload, OiMessageView, OiPayloadView};
use crate::oi_archive;
use crate::oi_archive::OiArchiveError;
use crate::pid201;
use crate::runtime;
use crate::runtime::{
    ArchiveRecord, ArchiveRecordView, IngestService, PreparedView, RecordPlan, RecordSource,
    RuntimeError,
};
use crate::text;
use crate::timeline_report;

verus! {

// ---------------------------------------------------------------------------
// Messages
// ---------------------------------------------------------------------------

/// A copy of a message, as capture reports show it.
#[derive(Debug, Clone, PartialEq, Eq)]
pub struct OiArchiveRecordReport {
    pub fingerprint: String,
    pub duplicate: bool,
    pub raw_path: String,
    pub metadata_path: String,
    pub source: &'static str,
    pub transport: &'static str,
    pub frame_kind: &'static str,
    pub sequence_number: Option<u16>,
    pub heading: String,
    pub ttaaii: String,
    pub cccc: String,
    pub awips_id: Option<String>,
    pub family: String,
    pub segment_count: usize,
    pub wrapper_id: Option<String>,
    pub wrapper_issue: Option<String>,
}

pub struct RecordReportView {
    pub fingerprint: Seq<char>,
    pub duplicate: bool,
    pub raw_path: Seq<char>,
    pub metadata_path: Seq<char>,
    pub source: Seq<char>,
    pub transport: Seq<char>,
    pub frame_kind: Seq<char>,
    pub sequence_number: Option<u16>,
    pub heading: Seq<char>,
    pub ttaaii: Seq<char>,
    pub cccc: Seq<char>,
    pub awips_id: Option<Seq<char>>,
    pub family: Seq<char>,
    pub segment_count: int,
    pub wrapper_id: Option<Seq<char>>,
    pub wrapper_issue: Option<Seq<char>>,
}

impl DeepView for OiArchiveRecordReport {
    type V = RecordReportView;

    open spec fn deep_view(&self) -> RecordReportView {
        RecordReportView {
            fingerprint: self.fingerprint@,
            duplicate: self.duplicate,
            raw_path: self.raw_path@,
            metadata_path: self.metadata_path@,
            source: self.source@,
            transport: self.transport@,
            frame_kind: self.frame_kind@,
            sequence_number: self.sequence_number,
            heading: self.heading@,
            ttaaii: self.ttaaii@,
            cccc: self.cccc@,
            awips_id: self.awips_id.deep_view(),
            family: self.family@,
            segment_count: self.segment_count as int,
            wrapper_id: self.wrapper_id.deep_view(),
            wrapper_issue: self.wrapper_issue.deep_view(),
        }
    }
}

/// The name of a source in reports.
pub open spec fn source_text(source: RecordSource) -> Seq<char> {
    match source {
        RecordSource::OpenInterface => "open-interface"@,
        RecordSource::RawBulletin => "raw-bulletin"@,
        RecordSource::SatellitePid201 => "satellite-pid201"@,
    }
}

/// The report on a copy of a message.
pub open spec fn record_report(record: ArchiveRecordView) -> RecordReportView {
    let m = record.metadata;
    RecordReportView {
        fingerprint: record.fingerprint,
        duplicate: record.duplicate,
        raw_path: record.raw_path,
        metadata_path: record.metadata_path,
        source: source_text(m.source),
        transport: m.transport,
        frame_kind: m.frame_kind,
        sequence_number: m.sequence_number,
        heading: m.ttaaii + seq![' '] + m.cccc,
        ttaaii: m.ttaaii,
        cccc: m.cccc,
        awips_id: m.awips_id,
        family: families::family_text(m.family),
        segment_count: m.segment_count,
        wrapper_id: m.wrapper_id,
        wrapper_issue: m.wrapper_issue,
    }
}

impl OiArchiveRecordReport {
    /// The report on a copy of a message.
    pub fn from_runtime(record: &ArchiveRecord) -> (r: OiArchiveRecordReport)
        ensures
            r.deep_view() == record_report(record.deep_view()),
    {
        let m = &record.metadata;
        let source: &'static str = match m.source {
            RecordSource::OpenInterface => "open-interface",
            RecordSource::RawBulletin => "raw-bulletin",
            RecordSource::SatellitePid201 => "satellite-pid201",
        };
        let mut heading = text::to_chars(m.ttaaii.as_str());
        heading.push(' ');
        text::push_str(&mut heading, m.cccc.as_str());
        assert(heading@ =~= m.ttaaii@ + seq![' '] + m.cccc@);
        OiArchiveRecordReport {
            fingerprint: record.fingerprint.clone(),
            duplicate: record.duplicate,
            raw_path: record.raw_path.clone(),
            metadata_path: record.metadata_path.clone(),
            source,
            transport: m.transport,
            frame_kind: m.frame_kind,
            sequence_number: m.sequence_number,
            heading: text::to_text(heading.as_slice()),
            ttaaii: m.ttaaii.clone(),
            cccc: m.cccc.clone(),
            awips_id: text::copy_opt(&m.awips_id),
            family: families::family_name(m.family),
            segment_count: m.segment_count,
            wrapper_id: text::copy_opt(&m.wrapper_id),
            wrapper_issue: text::copy_opt(&m.wrapper_issue),
        }
    }
}

/// What became of a message.
#[derive(Debug, Clone, PartialEq, Eq)]
pub struct OiArchiveMessageReport {
    pub message_index: usize,
    pub wrapper_id: String,
    pub issue_utc: String,
    pub ttaaii: String,
    pub cccc: String,
    pub awips_id: String,
    pub archived_records: usize,
    pub duplicate_records: usize,
    pub records: Vec<OiArchiveRecordReport>,
}

pub struct MessageReportView {
    pub message_index: int,
    pub wrapper_id: Seq<char>,
    pub issue_utc: Seq<char>,
    pub ttaaii: Seq<char>,
    pub cccc: Seq<char>,
    pub awips_id: Seq<char>,
    pub archived_records: int,
    pub duplicate_records: int,
    pub records: Seq<RecordReportView>,
}

impl DeepView for OiArchiveMessageReport {
    type V = MessageReportView;

    open spec fn deep_view(&self) -> MessageReportView {
        MessageReportView {
            message_index: self.message_index as int,
            wrapper_id: self.wrapper_id@,
            issue_utc: self.issue_utc@,
            ttaaii: self.ttaaii@,
            cccc: self.cccc@,
            awips_id: self.awips_id@,
            archived_records: self.archived_records as int,
            duplicate_records: self.duplicate_records as int,
            records: self.records.deep_view(),
        }
    }
}

/// How many copies are duplicates, or are not.
pub open spec fn copies_that_are(records: Seq<ArchiveRecordView>, duplicate: bool) -> int
    decreases records.len(),
{
    if records.len() == 0 {
        0
    } else {
        copies_that_are(records.drop_last(), duplicate) + (if records.last().duplicate == duplicate {
            1int
        } else {
            0int
        })
    }
}

pub open spec fn record_reports(records: Seq<ArchiveRecordView>) -> Seq<RecordReportView> {
    Seq::new(records.len(), |i: int| record_report(records[i]))
}

/// The report on a message: a message of which nothing was written counts as
/// one duplicate.
pub open spec fn message_report(
    index: int,
    payload: OiPayloadView,
    issue: Seq<char>,
    records: Seq<ArchiveRecordView>,
) -> MessageReportView {
    MessageReportView {
        message_index: index,
        wrapper_id: oi_archive::id_text(payload.id),
        issue_utc: issue,
        ttaaii: payload.ttaaii,
        cccc: payload.cccc,
        awips_id: payload.awips_id,
        archived_records: copies_that_are(records, false),
        duplicate_records: if records.len() == 0 {
            1
        } else {
            copies_that_are(records, true)
        },
        records: record_reports(records),
    }
}

/// Every copy of a message is counted once, and no message goes uncounted.
pub proof fn copies_are_counted(
    index: int,
    payload: OiPayloadView,
    issue: Seq<char>,
    records: Seq<ArchiveRecordView>,
)
    ensures
        ({
            let report = message_report(index, payload, issue, records);
            &&& report.archived_records + report.duplicate_records == (if records.len() == 0 {
                1
            } else {
                records.len() as int
            })
            &&& report.archived_records >= 0
            &&& report.duplicate_records >= 0
        }),
{
    lemma_copies(records);
}

proof fn lemma_copies(records: Seq<ArchiveRecordView>)
    ensures
        copies_that_are(records, true) + copies_that_are(records, false) == records.len(),
        copies_that_are(records, true) >= 0,
        copies_that_are(records, false) >= 0,
    decreases records.len(),
{
    if records.len() > 0 {
        lemma_copies(records.drop_last());
    }
}

/// Reports on a message.
pub fn oi_archive_message_report(
    index: usize,
    payload: &NwwsOiPayload,
    issue: String,
    records: &Vec<ArchiveRecord>,
) -> (r: OiArchiveMessageReport)
    ensures
        r.deep_view() == message_report(
            index as int,
            payload.deep_view(),
            issue@,
            records.deep_view(),
        ),
{
    let ghost all = records.deep_view();
    let mut reports: Vec<OiArchiveRecordReport> = Vec::new();
    let mut archived: usize = 0;
    let mut duplicates: usize = 0;
    let mut i: usize = 0;
    assert(all.len() == records@.len());
    while i < records.len()
        invariant
            i <= records@.len(),
            all == records.deep_view(),
            all.len() == records@.len(),
            archived == copies_that_are(all.take(i as int), false),
            duplicates == copies_that_are(all.take(i as int), true),
            archived + duplicates == i,
            reports@.len() == i,
            forall|k: int| 0 <= k < i ==> (#[trigger] reports@[k]).deep_view() == record_report(all[k]),
        decreases records.len() - i,
    {
        assert(all.take(i + 1).drop_last() =~= all.take(i as int));
        assert(all[i as int] == records@[i as int].deep_view());
        if records[i].duplicate {
            duplicates += 1;
        } else {
            archived += 1;
        }
        reports.push(OiArchiveRecordReport::from_runtime(&records[i]));
        i += 1;
    }
    assert(all.take(i as int) =~= all);
    assert(reports.deep_view() =~= record_reports(all));
    if records.len() == 0 {
        duplicates = 1;
    }
    OiArchiveMessageReport {
        message_index: index,
        wrapper_id: oi_archive::wrapper_id(payload.id),
        issue_utc: issue,
        ttaaii: payload.ttaaii.clone(),
        cccc: payload.cccc.clone(),
        awips_id: payload.awips_id.clone(),
        archived_records: archived,
        duplicate_records: duplicates,
        records: reports,
    }
}

/// Why a message cannot be archived.
#[derive(Debug, Clone, Copy, PartialEq, Eq, Structural)]
pub enum LiveError {
    Message(OiArchiveError),
    Ingest(RuntimeError),
}

impl LiveError {
    pub open spec fn spec_message(self) -> Seq<char> {
        match self {
            LiveError::Message(e) => e.spec_message(),
            LiveError::Ingest(e) => "runtime ingest failed: "@ + e.spec_message(),
        }
    }

    pub fn message(&self) -> (r: String)
        ensures
            r@ == self.spec_message(),
    {
        match self {
            LiveError::Message(e) => e.message(),
            LiveError::Ingest(e) => {
                let mut v = text::to_chars("runtime ingest failed: ");
                let m = e.message();
                text::push_str(&mut v, m.as_str());
                text::to_text(v.as_slice())
            },
        }
    }
}

/// The archive form of a message, as bytes.
pub open spec fn archive_bytes(m: OiMessageView, p: OiPayloadView) -> Seq<u8> {
    digest::utf8(oi_archive::archive_xml(m, p, clock::rfc3339_text(p.instant, p.utc_offset)))
}

/// The record of a live message that was captured at the instant: the message
/// in its archive form, with the bulletin, identifier and issue time that it
/// came with.
pub open spec fn live_record(m: OiMessageView, now: int) -> Result<PreparedView, LiveError> {
    match m.payload {
        None => Err(LiveError::Message(OiArchiveError::MissingPayload)),
        Some(p) => if !clock::writable_at(p.instant, p.utc_offset) {
            Err(LiveError::Message(OiArchiveError::UnwritableIssueTime))
        } else {
            match oi::payload_content(p) {
                Err(kind) => Err(LiveError::Ingest(RuntimeError::Parse(ParseError { kind }))),
                Ok(content) => match runtime::prepared(
                    RecordSource::OpenInterface,
                    TransportKind::OpenInterface,
                    archive_bytes(m, p),
                    content,
                    (
                        Some(oi_archive::id_text(p.id)),
                        Some(clock::rfc3339_text(p.instant, p.utc_offset)),
                    ),
                    now,
                ) {
                    Ok(record) => Ok(record),
                    Err(e) => Err(LiveError::Ingest(e)),
                },
            }
        },
    }
}

/// The archive form is prepared as the message it was made of.
proof fn lemma_archive_form_is_prepared(m: OiMessageView, p: OiPayloadView, now: int)
    requires
        m.payload == Some(p),
        clock::writable_at(p.instant, p.utc_offset),
        oi::parse_oi(
            oi_archive::archive_xml(m, p, clock::rfc3339_text(p.instant, p.utc_offset)),
        ) == Ok::<OiMessageView, ErrorKind>(oi_archive::archived(m)),
    ensures
        match live_record(m, now) {
            Ok(record) => runtime::prepare(
                IngestHint::OpenInterface,
                archive_bytes(m, p),
                now,
            ) == Ok::<Seq<PreparedView>, RuntimeError>(seq![record]),
            Err(LiveError::Ingest(e)) => runtime::prepare(
                IngestHint::OpenInterface,
                archive_bytes(m, p),
                now,
            ) == Err::<Seq<PreparedView>, RuntimeError>(e),
            Err(_) => false,
        },
{
    let xml = oi_archive::archive_xml(m, p, clock::rfc3339_text(p.instant, p.utc_offset));
    vstd::utf8::encode_utf8_valid_utf8(xml);
    vstd::utf8::encode_utf8_decode_utf8(xml);
}

/// Decides what is to be done about a live message: it is archived in its
/// archive form. The plan comes with the issue time.
pub fn archive_live_oi_message(service: &mut IngestService, message: &NwwsOiMessage, now: i128) -> (r:
    Result<(RecordPlan, String), LiveError>)
    ensures
        match live_record(message.deep_view(), now as int) {
            Ok(record) => {
                &&& r matches Ok((plan, issue))
                &&& plan.deep_view() == runtime::plan_for(old(service)@, record)
                &&& record.metadata.wrapper_issue == Some(issue@)
                &&& final(service)@ == runtime::after_record(old(service)@, record)
            },
            Err(e) => r == Err::<(RecordPlan, String), LiveError>(e) && final(service)@ == old(
                service,
            )@,
        },
        final(service).spec_index_path() == old(service).spec_index_path(),
{
    let xml = match oi_archive::oi_message_to_archive_xml(message) {
        Ok(s) => s,
        Err(e) => {
            return Err(LiveError::Message(e));
        },
    };
    let issue = match &message.payload {
        Some(p) => match p.issue.to_rfc3339() {
            Some(s) => s,
            None => {
                return Err(LiveError::Message(OiArchiveError::UnwritableIssueTime));
            },
        },
        None => {
            return Err(LiveError::Message(OiArchiveError::MissingPayload));
        },
    };
    proof {
        lemma_archive_form_is_prepared(
            message.deep_view(),
            message.deep_view().payload->0,
            now as int,
        );
    }
    let records = match runtime::prepare_records(
        IngestHint::OpenInterface,
        xml.as_str().as_bytes(),
        now,
    ) {
        Ok(v) => v,
        Err(e) => {
            return Err(LiveError::Ingest(e));
        },
    };
    let mut records = records;
    assert(records.deep_view().len() == records@.len());
    assert(records.deep_view()[0] == records@[0].deep_view());
    let record = records.remove(0);
    Ok((service.process_record(record), issue))
}

// ---------------------------------------------------------------------------
// The capture
// ---------------------------------------------------------------------------

/// What ended a capture.
#[derive(Debug, Clone, Copy, PartialEq, Eq, Structural)]
pub enum CaptureLimit {
    Duration,
    MaxMessages,
}

impl CaptureLimit {
    pub open spec fn spec_label(self) -> Seq<char> {
        match self {
            CaptureLimit::Duration => "duration"@,
            CaptureLimit::MaxMessages => "max-messages"@,
        }
    }

    pub fn label(self) -> (r: &'static str)
        ensures
            r@ == self.spec_label(),
    {
        match self {
            CaptureLimit::Duration => "duration",
            CaptureLimit::MaxMessages => "max-messages",
        }
    }
}

/// What happens in a capture.
#[derive(Debug, Clone, PartialEq, Eq)]
pub enum CaptureEvent {
    /// Before a read: whether the time is up.
    BeforeRead { time_is_up: bool },
    /// A read of a capture with a deadline took too long; whether the time is
    /// up.
    TimedOut { time_is_up: bool },
    /// A read failed.
    ReadFailed(String),
    /// A message was read.
    MessageRead,
    /// The message that was read is archived.
    Archived(OiArchiveMessageReport),
    /// The message that was read cannot be archived.
    ArchiveFailed(String),
}

pub enum CaptureEventView {
    BeforeRead { time_is_up: bool },
    TimedOut { time_is_up: bool },
    ReadFailed(Seq<char>),
    MessageRead,
    Archived(MessageReportView),
    ArchiveFailed(Seq<char>),
}

impl DeepView for CaptureEvent {
    type V = CaptureEventView;

    open spec fn deep_view(&self) -> CaptureEventView {
        match self {
            CaptureEvent::BeforeRead { time_is_up } => CaptureEventView::BeforeRead {
                time_is_up: *time_is_up,
            },
            CaptureEvent::TimedOut { time_is_up } => CaptureEventView::TimedOut {
                time_is_up: *time_is_up,
            },
            CaptureEvent::ReadFailed(e) => CaptureEventView::ReadFailed(e@),
            CaptureEvent::MessageRead => CaptureEventView::MessageRead,
            CaptureEvent::Archived(report) => CaptureEventView::Archived(report.deep_view()),
            CaptureEvent::ArchiveFailed(e) => CaptureEventView::ArchiveFailed(e@),
        }
    }
}

/// How a capture stands.
#[derive(Debug, Clone, PartialEq, Eq)]
pub struct Capture {
    pub max_messages: usize,
    pub messages_read: usize,
    pub archived_records: usize,
    pub duplicate_records: usize,
    pub failures: usize,
    pub limit_reached: Option<CaptureLimit>,
    pub stopped: bool,
    pub messages: Vec<OiArchiveMessageReport>,
    pub errors: Vec<String>,
}

pub struct CaptureView {
    pub max_messages: usize,
    pub messages_read: usize,
    pub archived_records: usize,
    pub duplicate_records: usize,
    pub failures: usize,
    pub limit_reached: Option<CaptureLimit>,
    pub stopped: bool,
    pub messages: Seq<MessageReportView>,
    pub errors: Seq<Seq<char>>,
}

impl DeepView for Capture {
    type V = CaptureView;

    open spec fn deep_view(&self) -> CaptureView {
        CaptureView {
            max_messages: self.max_messages,
            messages_read: self.messages_read,
            archived_records: self.archived_records,
            duplicate_records: self.duplicate_records,
            failures: self.failures,
            limit_reached: self.limit_reached,
            stopped: self.stopped,
            messages: self.messages.deep_view(),
            errors: self.errors.deep_view(),
        }
    }
}

/// Whether a capture goes on to read.
pub open spec fn goes_on(c: CaptureView) -> bool {
    !c.stopped && c.messages_read < c.max_messages
}

/// The capture that stops, its time being up.
pub open spec fn out_of_time(c: CaptureView) -> CaptureView {
    CaptureView { limit_reached: Some(CaptureLimit::Duration), stopped: true, ..c }
}

/// The error text of a message that cannot be archived.
pub open spec fn archive_error_text(n: usize, error: Seq<char>) -> Seq<char> {
    "failed to archive NWWS-OI message "@ + crate::number::decimal(n as nat) + ": "@ + error
}

/// The capture after an event.
pub open spec fn capture_after(c: CaptureView, event: CaptureEventView) -> CaptureView {
    match event {
        CaptureEventView::BeforeRead { time_is_up } => if time_is_up {
            out_of_time(c)
        } else {
            c
        },
        CaptureEventView::TimedOut { time_is_up } => if time_is_up {
            out_of_time(c)
        } else {
            c
        },
        CaptureEventView::ReadFailed(error) => CaptureView {
            failures: timeline_report::bumped(c.failures),
            errors: c.errors.push("failed to read NWWS-OI message: "@ + error),
            stopped: true,
            ..c
        },
        CaptureEventView::MessageRead => CaptureView {
            messages_read: timeline_report::bumped(c.messages_read),
            ..c
        },
        CaptureEventView::Archived(report) => CaptureView {
            archived_records: pid201::capped_sum(
                c.archived_records as int,
                report.archived_records,
            ) as usize,
            duplicate_records: pid201::capped_sum(
                c.duplicate_records as int,
                report.duplicate_records,
            ) as usize,
            messages: c.messages.push(report),
            ..c
        },
        CaptureEventView::ArchiveFailed(error) => CaptureView {
            failures: timeline_report::bumped(c.failures),
            errors: c.errors.push(archive_error_text(c.messages_read, error)),
            ..c
        },
    }
}

/// The capture at its end: one that read all it wanted says so, unless its
/// time was up.
pub open spec fn capture_end(c: CaptureView) -> CaptureView {
    if c.limit_reached is None && c.messages_read >= c.max_messages {
        CaptureView { limit_reached: Some(CaptureLimit::MaxMessages), ..c }
    } else {
        c
    }
}

/// A capture that reads only while it goes on never reads more messages than
/// it was asked for.
pub proof fn capture_is_bounded(c: CaptureView, event: CaptureEventView)
    requires
        c.messages_read <= c.max_messages,
        event is MessageRead ==> goes_on(c),
    ensures
        capture_after(c, event).messages_read <= capture_after(c, event).max_messages,
{
}

/// A capture whose time is up stops and says so.
pub proof fn capture_stops_in_time(c: CaptureView)
    ensures
        ({
            let end = capture_after(c, CaptureEventView::BeforeRead { time_is_up: true });
            !goes_on(end) && capture_end(end).limit_reached == Some(CaptureLimit::Duration)
        }),
{
}

/// Every failure of a capture leaves an error behind, as far as can be
/// counted.
pub proof fn failures_are_explained(c: CaptureView, event: CaptureEventView)
    requires
        c.failures < usize::MAX,
        c.failures == c.errors.len(),
    ensures
        capture_after(c, event).failures == capture_after(c, event).errors.len(),
{
}

impl Capture {
    /// A capture of at most the messages given, before anything happened.
    pub fn new(max_messages: usize) -> (r: Capture)
        ensures
            r.deep_view() == (CaptureView {
                max_messages,
                messages_read: 0,
                archived_records: 0,
                duplicate_records: 0,
                failures: 0,
                limit_reached: None,
                stopped: false,
                messages: Seq::empty(),
                errors: Seq::empty(),
            }),
    {
        let r = Capture {
            max_messages,
            messages_read: 0,
            archived_records: 0,
            duplicate_records: 0,
            failures: 0,
            limit_reached: None,
            stopped: false,
            messages: Vec::new(),
            errors: Vec::new(),
        };
        assert(r.messages.deep_view() =~= Seq::<MessageReportView>::empty());
        assert(r.errors.deep_view() =~= Seq::<Seq<char>>::empty());
        r
    }

    /// Whether the capture goes on to read.
    pub fn wants_message(&self) -> (r: bool)
        ensures
            r == goes_on(self.deep_view()),
    {
        !self.stopped && self.messages_read < self.max_messages
    }

    fn fail(&mut self, error: String)
        ensures
            final(self).deep_view() == (CaptureView {
                failures: timeline_report::bumped(old(self).failures),
                errors: old(self).deep_view().errors.push(error@),
                ..old(self).deep_view()
            }),
    {
        let ghost before = self.errors.deep_view();
        self.failures = timeline_report::bump(self.failures);
        self.errors.push(error);
        assert(self.errors.deep_view() =~= before.push(error@));
    }

    /// Notes an event.
    pub fn apply(&mut self, event: CaptureEvent)
        ensures
            final(self).deep_view() == capture_after(old(self).deep_view(), event.deep_view()),
    {
        match event {
            CaptureEvent::BeforeRead { time_is_up } | CaptureEvent::TimedOut { time_is_up } => {
                if time_is_up {
                    self.limit_reached = Some(CaptureLimit::Duration);
                    self.stopped = true;
                }
            },
            CaptureEvent::ReadFailed(error) => {
                let mut v = text::to_chars("failed to read NWWS-OI message: ");
                text::push_str(&mut v, error.as_str());
                self.fail(text::to_text(v.as_slice()));
                self.stopped = true;
            },
            CaptureEvent::MessageRead => {
                self.messages_read = timeline_report::bump(self.messages_read);
            },
            CaptureEvent::Archived(report) => {
                let ghost before = self.messages.deep_view();
                self.archived_records = self.archived_records.saturating_add(
                    report.archived_records,
                );
                self.duplicate_records = self.duplicate_records.saturating_add(
                    report.duplicate_records,
                );
                self.messages.push(report);
                assert(self.messages.deep_view() =~= before.push(report.deep_view()));
            },
            CaptureEvent::ArchiveFailed(error) => {
                let mut v = text::to_chars("failed to archive NWWS-OI message ");
                let n = crate::number::to_decimal(self.messages_read as u64);
                text::push_all(&mut v, n.as_slice());
                text::push_str(&mut v, ": ");
                text::push_str(&mut v, error.as_str());
                self.fail(text::to_text(v.as_slice()));
            },
        }
    }

    /// Ends the capture.
    pub fn finish(&mut self)
        ensures
            final(self).deep_view() == capture_end(old(self).deep_view()),
    {
        if self.limit_reached.is_none() && self.messages_read >= self.max_messages {
            self.limit_reached = Some(CaptureLimit::MaxMessages);
        }
    }
}

} // verus!
