//! How results are told: tool results, evidence and replay lines.

use vstd::prelude::*;

use crate::api::{InspectionReport, InspectionView};
use crate::lead_time;
use crate::number;
use crate::text;

verus! {

pub fn yes_no(value: bool) -> (r: &'static str)
    ensures
        r@ == (if value {
            "yes"@
        } else {
            "no"@
        }),
{
    if value {
        "yes"
    } else {
        "no"
    }
}

// ---------------------------------------------------------------------------
// Tool results
// ---------------------------------------------------------------------------

/// An operation whose result can be told as a tool result.
#[derive(Debug, Clone, Copy, PartialEq, Eq, Structural)]
pub enum Operation {
    Inspect,
    Replay,
    ActiveAt,
    Timeline,
    LeadTime,
    ArchiveImport,
    ArchiveVerify,
    OiArchive,
}

impl Operation {
    /// The name of the operation.
    pub open spec fn spec_name(self) -> Seq<char> {
        match self {
            Operation::Inspect => "inspect"@,
            Operation::Replay => "replay"@,
            Operation::ActiveAt => "active-at"@,
            Operation::Timeline => "timeline"@,
            Operation::LeadTime => "lead-time"@,
            Operation::ArchiveImport => "archive-import"@,
            Operation::ArchiveVerify => "archive-verify"@,
            Operation::OiArchive => "oi-archive"@,
        }
    }

    /// The name of the tool.
    pub open spec fn spec_tool_name(self) -> Seq<char> {
        match self {
            Operation::Inspect => "warning.parse_text"@,
            Operation::Replay => "warning.replay"@,
            Operation::ActiveAt => "warning.active_at_reference"@,
            Operation::Timeline => "warning.timeline"@,
            Operation::LeadTime => "warning.lead_time_event_metrics"@,
            Operation::ArchiveImport => "warning.archive_import"@,
            Operation::ArchiveVerify => "warning.archive_verify"@,
            Operation::OiArchive => "warning.oi_archive"@,
        }
    }

    pub fn name(self) -> (r: &'static str)
        ensures
            r@ == self.spec_name(),
    {
        match self {
            Operation::Inspect => "inspect",
            Operation::Replay => "replay",
            Operation::ActiveAt => "active-at",
            Operation::Timeline => "timeline",
            Operation::LeadTime => "lead-time",
            Operation::ArchiveImport => "archive-import",
            Operation::ArchiveVerify => "archive-verify",
            Operation::OiArchive => "oi-archive",
        }
    }

    pub fn tool_name(self) -> (r: &'static str)
        ensures
            r@ == self.spec_tool_name(),
    {
        match self {
            Operation::Inspect => "warning.parse_text",
            Operation::Replay => "warning.replay",
            Operation::ActiveAt => "warning.active_at_reference",
            Operation::Timeline => "warning.timeline",
            Operation::LeadTime => "warning.lead_time_event_metrics",
            Operation::ArchiveImport => "warning.archive_import",
            Operation::ArchiveVerify => "warning.archive_verify",
            Operation::OiArchive => "warning.oi_archive",
        }
    }
}

/// What a tool result does not cover.
pub open spec fn limitations(operation: Operation) -> Seq<Seq<char>> {
    let local = seq![
        "Output reflects parser results for the supplied local input only."@,
        "No external NWS source-of-truth or network delivery validation is performed."@,
    ];
    match operation {
        Operation::OiArchive => seq![
            "Live capture depends on NWWS-OI network availability, credentials, and XMPP room delivery."@,
            "Archived XML stanzas are reconstructed from parsed NWWS-OI message fields; they preserve bulletin semantics but are not byte-for-byte XMPP captures."@,
            "Dedupe is based on normalized bulletin semantics in the runtime archive service."@,
        ],
        Operation::ActiveAt => local.push(
            "Active-at queries use local WMO heading times and VTEC intervals; records without warning P-VTEC are not returned."@,
        ),
        Operation::Timeline => local.push(
            "Timeline queries return warning-significance P-VTEC records; non-warning products are not verification records."@,
        ),
        Operation::LeadTime => local.push(
            "Timeline queries return warning-significance P-VTEC records; non-warning products are not verification records."@,
        ) + lead_time::metric_limitations(),
        _ => local,
    }
}

/// The texts of string slices.
pub open spec fn texts(v: Seq<&'static str>) -> Seq<Seq<char>> {
    Seq::new(v.len(), |i: int| v[i]@)
}

/// What a tool result does not cover.
pub fn tool_limitations(operation: Operation) -> (r: Vec<&'static str>)
    ensures
        texts(r@) == limitations(operation),
{
    let mut v: Vec<&'static str> = Vec::new();
    if operation == Operation::OiArchive {
        v.push("Live capture depends on NWWS-OI network availability, credentials, and XMPP room delivery.");
        v.push("Archived XML stanzas are reconstructed from parsed NWWS-OI message fields; they preserve bulletin semantics but are not byte-for-byte XMPP captures.");
        v.push("Dedupe is based on normalized bulletin semantics in the runtime archive service.");
        assert(texts(v@) =~= limitations(operation));
        return v;
    }
    v.push("Output reflects parser results for the supplied local input only.");
    v.push("No external NWS source-of-truth or network delivery validation is performed.");
    if operation == Operation::ActiveAt {
        v.push("Active-at queries use local WMO heading times and VTEC intervals; records without warning P-VTEC are not returned.");
    }
    if operation == Operation::Timeline || operation == Operation::LeadTime {
        v.push("Timeline queries return warning-significance P-VTEC records; non-warning products are not verification records.");
    }
    if operation == Operation::LeadTime {
        let mut more = lead_time::lead_time_event_metric_limitations();
        v.append(&mut more);
    }
    assert(texts(v@) =~= limitations(operation));
    v
}

// ---------------------------------------------------------------------------
// Evidence
// ---------------------------------------------------------------------------

/// The parts of a result that evidence is made of.
#[derive(Debug, Clone, Copy, PartialEq, Eq, Structural)]
pub struct ResultParts {
    pub messages_read: Option<u64>,
    pub archived_records: Option<u64>,
    pub active_records: Option<u64>,
    pub warning_records: Option<u64>,
    pub metrics: Option<MetricParts>,
    /// How many messages are listed.
    pub messages: Option<u64>,
    pub scanned_files: Option<u64>,
    /// How many records are listed.
    pub records: Option<u64>,
}

/// The lead time of an event, and whether no warning covered it.
#[derive(Debug, Clone, Copy, PartialEq, Eq, Structural)]
pub struct MetricParts {
    pub lead_time_seconds: Option<i64>,
    pub missed_event: bool,
}

/// A piece of evidence.
#[derive(Debug, Clone, PartialEq, Eq)]
pub struct Evidence {
    pub evidence_type: &'static str,
    pub summary: String,
    pub count: Option<u64>,
    pub metrics: Option<MetricParts>,
}

pub struct EvidenceView {
    pub evidence_type: Seq<char>,
    pub summary: Seq<char>,
    pub count: Option<u64>,
    pub metrics: Option<MetricParts>,
}

impl DeepView for Evidence {
    type V = EvidenceView;

    open spec fn deep_view(&self) -> EvidenceView {
        EvidenceView {
            evidence_type: self.evidence_type@,
            summary: self.summary@,
            count: self.count,
            metrics: self.metrics,
        }
    }
}

/// Evidence of a count, `before`, the count, `after` being its summary.
pub open spec fn counted_evidence(
    kind: Seq<char>,
    before: Seq<char>,
    after: Seq<char>,
    count: Option<u64>,
) -> Seq<EvidenceView> {
    match count {
        None => Seq::empty(),
        Some(n) => seq![
            EvidenceView {
                evidence_type: kind,
                summary: before + number::decimal(n as nat) + after,
                count: Some(n),
                metrics: None,
            },
        ],
    }
}

/// The text of a number of either sign.
pub open spec fn signed_text(n: i64) -> Seq<char> {
    if n < 0 {
        seq!['-'] + number::decimal((-n) as nat)
    } else {
        number::decimal(n as nat)
    }
}

/// What lead-time metrics say.
pub open spec fn metric_summary(m: MetricParts) -> Seq<char> {
    match m.lead_time_seconds {
        Some(n) => "Computed warning lead time of "@ + signed_text(n) + " second(s)."@,
        None => if m.missed_event {
            "No valid warning covered the supplied event point/time."@
        } else {
            "Computed warning lead-time metrics without a finite lead-time value."@
        },
    }
}

/// Evidence of lead-time metrics.
pub open spec fn metric_evidence(metrics: Option<MetricParts>) -> Seq<EvidenceView> {
    match metrics {
        None => Seq::empty(),
        Some(m) => seq![
            EvidenceView {
                evidence_type: "warning_lead_time_metrics"@,
                summary: metric_summary(m),
                count: None,
                metrics: Some(m),
            },
        ],
    }
}

/// The evidence in a result, part by part.
pub open spec fn evidence_parts(parts: ResultParts) -> Seq<EvidenceView> {
    counted_evidence(
        "live_messages_read"@,
        "Read "@,
        " live NWWS-OI message(s)."@,
        parts.messages_read,
    ) + counted_evidence(
        "archived_records"@,
        "Archived "@,
        " new record(s)."@,
        parts.archived_records,
    ) + counted_evidence(
        "active_warning_records"@,
        "Returned "@,
        " active warning record(s)."@,
        parts.active_records,
    ) + counted_evidence(
        "warning_timeline_records"@,
        "Returned "@,
        " warning timeline record(s)."@,
        parts.warning_records,
    ) + metric_evidence(parts.metrics) + counted_evidence(
        "parsed_messages"@,
        "Parsed "@,
        " warning message(s)."@,
        parts.messages,
    ) + counted_evidence(
        "scanned_files"@,
        "Scanned "@,
        " input file(s)."@,
        parts.scanned_files,
    ) + counted_evidence(
        "records"@,
        "Returned "@,
        " archive record(s)."@,
        parts.records,
    )
}

/// The evidence of a result: one piece for each part it has, or the bare fact
/// that there is a result.
pub open spec fn evidence_of(parts: ResultParts) -> Seq<EvidenceView> {
    let found = evidence_parts(parts);
    if found.len() == 0 {
        seq![
            EvidenceView {
                evidence_type: "parser_output"@,
                summary: "Returned a native nwws-rs API report."@,
                count: None,
                metrics: None,
            },
        ]
    } else {
        found
    }
}

/// A tool result never comes without evidence.
pub proof fn there_is_always_evidence(parts: ResultParts)
    ensures
        evidence_of(parts).len() > 0,
{
}

fn push_count(
    out: &mut Vec<Evidence>,
    kind: &'static str,
    before: &str,
    after: &str,
    count: Option<u64>,
)
    ensures
        final(out).deep_view() == old(out).deep_view() + counted_evidence(
            kind@,
            before@,
            after@,
            count,
        ),
{
    let ghost start = out.deep_view();
    match count {
        None => {
            assert(start + Seq::<EvidenceView>::empty() =~= start);
        },
        Some(n) => {
            let mut v = text::to_chars(before);
            let digits = number::to_decimal(n);
            text::push_all(&mut v, digits.as_slice());
            text::push_str(&mut v, after);
            let piece = Evidence {
                evidence_type: kind,
                summary: text::to_text(v.as_slice()),
                count: Some(n),
                metrics: None,
            };
            out.push(piece);
            assert(out.deep_view() =~= start + seq![piece.deep_view()]);
        },
    }
}

fn write_signed(n: i64) -> (r: Vec<char>)
    ensures
        r@ == signed_text(n),
{
    if n < 0 {
        let mut v: Vec<char> = Vec::new();
        v.push('-');
        let digits = number::to_decimal((-(n as i128)) as u64);
        text::push_all(&mut v, digits.as_slice());
        assert(v@ =~= signed_text(n));
        v
    } else {
        number::to_decimal(n as u64)
    }
}

fn push_metrics(out: &mut Vec<Evidence>, metrics: Option<MetricParts>)
    ensures
        final(out).deep_view() == old(out).deep_view() + metric_evidence(metrics),
{
    let ghost start = out.deep_view();
    match metrics {
        None => {
            assert(start + Seq::<EvidenceView>::empty() =~= start);
        },
        Some(m) => {
            let summary = match m.lead_time_seconds {
                Some(n) => {
                    let mut v = text::to_chars("Computed warning lead time of ");
                    let digits = write_signed(n);
                    text::push_all(&mut v, digits.as_slice());
                    text::push_str(&mut v, " second(s).");
                    text::to_text(v.as_slice())
                },
                None => if m.missed_event {
                    "No valid warning covered the supplied event point/time.".to_owned()
                } else {
                    "Computed warning lead-time metrics without a finite lead-time value.".to_owned()
                },
            };
            let piece = Evidence {
                evidence_type: "warning_lead_time_metrics",
                summary,
                count: None,
                metrics: Some(m),
            };
            out.push(piece);
            assert(out.deep_view() =~= start + seq![piece.deep_view()]);
        },
    }
}

/// The evidence of a result.
pub fn tool_evidence(parts: ResultParts) -> (r: Vec<Evidence>)
    ensures
        r.deep_view() == evidence_of(parts),
{
    let mut out: Vec<Evidence> = Vec::new();
    assert(out.deep_view() =~= Seq::<EvidenceView>::empty());
    push_count(
        &mut out,
        "live_messages_read",
        "Read ",
        " live NWWS-OI message(s).",
        parts.messages_read,
    );
    assert(out.deep_view() =~= counted_evidence(
        "live_messages_read"@,
        "Read "@,
        " live NWWS-OI message(s)."@,
        parts.messages_read,
    ));
    push_count(
        &mut out,
        "archived_records",
        "Archived ",
        " new record(s).",
        parts.archived_records,
    );
    push_count(
        &mut out,
        "active_warning_records",
        "Returned ",
        " active warning record(s).",
        parts.active_records,
    );
    push_count(
        &mut out,
        "warning_timeline_records",
        "Returned ",
        " warning timeline record(s).",
        parts.warning_records,
    );
    push_metrics(&mut out, parts.metrics);
    push_count(&mut out, "parsed_messages", "Parsed ", " warning message(s).", parts.messages);
    push_count(&mut out, "scanned_files", "Scanned ", " input file(s).", parts.scanned_files);
    push_count(&mut out, "records", "Returned ", " archive record(s).", parts.records);
    assert(out.deep_view().len() == out@.len());
    if out.len() == 0 {
        let piece = Evidence {
            evidence_type: "parser_output",
            summary: "Returned a native nwws-rs API report.".to_owned(),
            count: None,
            metrics: None,
        };
        out.push(piece);
        assert(out.deep_view() =~= seq![piece.deep_view()]);
    }
    out
}

// ---------------------------------------------------------------------------
// Replay lines
// ---------------------------------------------------------------------------

/// The fields with one more, if there is a value for it.
pub open spec fn with_field(fields: Seq<Seq<char>>, label: Seq<char>, value: Option<Seq<char>>) -> Seq<
    Seq<char>,
> {
    match value {
        Some(v) => fields.push(label + v),
        None => fields,
    }
}

/// The number as a text, if it is not zero.
pub open spec fn nonzero_text(n: int) -> Option<Seq<char>> {
    if n > 0 {
        Some(number::decimal(n as nat))
    } else {
        None
    }
}

/// The fields of a replay line: the file, kind and transport, the number of
/// messages, what the first message is, and what there is beside it.
pub open spec fn replay_fields(name: Seq<char>, report: InspectionView) -> Seq<Seq<char>> {
    let base = seq![
        name,
        report.input_kind.spec_label() + seq!['/'] + report.transport.kind,
        "messages="@ + number::decimal(report.messages.len()),
    ];
    let described = if report.messages.len() > 0 {
        let first = report.messages[0];
        let summary = match first.wrapper {
            Some(w) => w.summary,
            None => None,
        };
        with_field(
            with_field(
                with_field(
                    with_field(base, "heading="@, Some(first.heading)),
                    "awips="@,
                    first.awips_id,
                ),
                "family="@,
                Some(first.family),
            ),
            "summary="@,
            summary,
        )
    } else {
        base
    };
    with_field(
        with_field(
            with_field(described, "extra="@, nonzero_text(report.messages.len() - 1)),
            "junk="@,
            nonzero_text(report.junk_bytes),
        ),
        "pending="@,
        nonzero_text(report.pending_bytes),
    )
}

/// The line that a replay prints about a file.
pub open spec fn replay_text(name: Seq<char>, report: InspectionView) -> Seq<char> {
    text::join(replay_fields(name, report), " | "@)
}

fn push_field(fields: &mut Vec<Vec<char>>, label: &str, value: &str)
    ensures
        text::views(final(fields)@) == text::views(old(fields)@).push(label@ + value@),
{
    let ghost before = text::views(fields@);
    let mut v = text::to_chars(label);
    text::push_str(&mut v, value);
    fields.push(v);
    assert(text::views(fields@) =~= before.push(label@ + value@));
}

fn push_opt_field(fields: &mut Vec<Vec<char>>, label: &str, value: &Option<String>)
    ensures
        text::views(final(fields)@) == with_field(
            text::views(old(fields)@),
            label@,
            value.deep_view(),
        ),
{
    if let Some(v) = value {
        push_field(fields, label, v.as_str());
    }
}

fn push_nonzero(fields: &mut Vec<Vec<char>>, label: &str, n: usize)
    ensures
        text::views(final(fields)@) == with_field(
            text::views(old(fields)@),
            label@,
            nonzero_text(n as int),
        ),
{
    if n > 0 {
        let digits = number::to_decimal(n as u64);
        let s = text::to_text(digits.as_slice());
        push_field(fields, label, s.as_str());
    }
}

fn replay_base(name: &str, report: &InspectionReport) -> (r: Vec<Vec<char>>)
    ensures
        text::views(r@) == seq![
            name@,
            report.input_kind.spec_label() + seq!['/'] + report.transport.kind@,
            "messages="@ + number::decimal(report.messages@.len()),
        ],
{
    let mut fields: Vec<Vec<char>> = Vec::new();
    fields.push(text::to_chars(name));
    let mut kind = text::to_chars(report.input_kind.label());
    kind.push('/');
    text::push_str(&mut kind, report.transport.kind);
    assert(kind@ =~= report.input_kind.spec_label() + seq!['/'] + report.transport.kind@);
    fields.push(kind);
    let mut count = text::to_chars("messages=");
    let digits = number::to_decimal(report.messages.len() as u64);
    text::push_all(&mut count, digits.as_slice());
    fields.push(count);
    assert(text::views(fields@) =~= seq![
        name@,
        report.input_kind.spec_label() + seq!['/'] + report.transport.kind@,
        "messages="@ + number::decimal(report.messages@.len()),
    ]);
    fields
}

/// Writes the line that a replay prints about a file.
pub fn replay_line(name: &str, report: &InspectionReport) -> (r: String)
    ensures
        r@ == replay_text(name@, report.deep_view()),
{
    assert(report.messages.deep_view().len() == report.messages@.len());
    let mut fields = replay_base(name, report);
    if report.messages.len() > 0 {
        assert(report.deep_view().messages[0] == report.messages@[0].deep_view());
        let first = &report.messages[0];
        push_field(&mut fields, "heading=", first.heading.as_str());
        push_opt_field(&mut fields, "awips=", &first.awips_id);
        push_field(&mut fields, "family=", first.family.as_str());
        if let Some(w) = &first.wrapper {
            push_opt_field(&mut fields, "summary=", &w.summary);
        }
        push_nonzero(&mut fields, "extra=", report.messages.len() - 1);
    }
    push_nonzero(&mut fields, "junk=", report.junk_bytes);
    push_nonzero(&mut fields, "pending=", report.pending_bytes);
    let bar = text::to_chars(" | ");
    let line = text::join_with(&fields, bar.as_slice());
    text::to_text(line.as_slice())
}

} // verus!
