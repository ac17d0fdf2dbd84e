//! Inspection of inputs: what messages they hold.

use vstd::prelude::*;

use crate::error::{ErrorKind, ParseError};
use crate::ingest;
use crate::ingest::{
    FramedStreamIngest, FramedStreamView, IngestHint, ParsedInput, ParsedInputView,
    TransportDescriptor,
};
use crate::number;
use crate::oi;
use crate::oi::{NwwsOiMessage, OiMessageView, OiPayloadView};
use crate::oi_archive;
use crate::paths;
use crate::product::{NwwsContent, NwwsContentView};
use crate::summary;
use crate::summary::{
    ByteRange, MessageSummary, MessageSummaryView, WrapperSummary, WrapperSummaryView,
};
use crate::text;
use crate::wmo::WmoMessageView;

verus! {

/// Why an input cannot be inspected.
#[derive(Debug, Clone, Copy, PartialEq, Eq)]
pub enum ApiError {
    Parse(ParseError),
    /// A stream without a frame was to be inspected.
    NoFramedMessages,
    /// The input of a split is no stream.
    NotPid201Stream,
    /// A stream without a frame was to be split.
    NoFramedBulletins,
}

impl ApiError {
    pub open spec fn spec_message(self) -> Seq<char> {
        match self {
            ApiError::Parse(e) => e.spec_message(),
            ApiError::NoFramedMessages => "no framed messages detected in stream"@,
            ApiError::NotPid201Stream => "input did not parse as a PID201 framed stream"@,
            ApiError::NoFramedBulletins => "input did not contain any framed bulletins"@,
        }
    }

    pub fn message(&self) -> (r: String)
        ensures
            r@ == self.spec_message(),
    {
        match self {
            ApiError::Parse(e) => e.message(),
            ApiError::NoFramedMessages => "no framed messages detected in stream".to_owned(),
            ApiError::NotPid201Stream => "input did not parse as a PID201 framed stream".to_owned(),
            ApiError::NoFramedBulletins => "input did not contain any framed bulletins".to_owned(),
        }
    }
}

pub type Result<T> = std::result::Result<T, ApiError>;

/// The error of a failed parse.
pub open spec fn parse_error(kind: ErrorKind) -> ApiError {
    ApiError::Parse(ParseError { kind })
}

/// The shape of an input.
#[derive(Debug, Clone, Copy, PartialEq, Eq, PartialOrd, Ord, Structural)]
pub enum InputKind {
    OpenInterface,
    Bulletin,
    FramedStream,
}

impl InputKind {
    pub open spec fn spec_label(self) -> Seq<char> {
        match self {
            InputKind::OpenInterface => "open-interface"@,
            InputKind::Bulletin => "bulletin"@,
            InputKind::FramedStream => "framed-stream"@,
        }
    }

    pub fn label(self) -> (r: &'static str)
        ensures
            r@ == self.spec_label(),
    {
        match self {
            InputKind::OpenInterface => "open-interface",
            InputKind::Bulletin => "bulletin",
            InputKind::FramedStream => "framed-stream",
        }
    }
}

/// The transport of an input.
#[derive(Debug, Clone, PartialEq, Eq)]
pub struct TransportSummary {
    pub kind: &'static str,
    pub satellite_channel: Option<u16>,
    pub requires_authentication: bool,
    pub paired_transport_recommended: bool,
}

pub struct TransportSummaryView {
    pub kind: Seq<char>,
    pub satellite_channel: Option<u16>,
    pub requires_authentication: bool,
    pub paired_transport_recommended: bool,
}

impl DeepView for TransportSummary {
    type V = TransportSummaryView;

    open spec fn deep_view(&self) -> TransportSummaryView {
        TransportSummaryView {
            kind: self.kind@,
            satellite_channel: self.satellite_channel,
            requires_authentication: self.requires_authentication,
            paired_transport_recommended: self.paired_transport_recommended,
        }
    }
}

pub open spec fn transport_summary(t: TransportDescriptor) -> TransportSummaryView {
    TransportSummaryView {
        kind: ingest::transport_text(t.kind),
        satellite_channel: t.satellite_channel,
        requires_authentication: t.requires_authentication,
        paired_transport_recommended: t.highest_availability_requires_pairing,
    }
}

impl TransportSummary {
    pub fn from_descriptor(value: TransportDescriptor) -> (r: TransportSummary)
        ensures
            r.deep_view() == transport_summary(value),
    {
        TransportSummary {
            kind: ingest::transport_label(value),
            satellite_channel: value.satellite_channel,
            requires_authentication: value.requires_authentication,
            paired_transport_recommended: value.highest_availability_requires_pairing,
        }
    }
}

/// What an input holds.
#[derive(Debug, Clone, PartialEq, Eq)]
pub struct InspectionReport {
    pub path: Option<String>,
    pub input_kind: InputKind,
    pub transport: TransportSummary,
    pub junk_bytes: usize,
    pub pending_bytes: usize,
    pub messages: Vec<MessageSummary>,
}

pub struct InspectionView {
    pub path: Option<Seq<char>>,
    pub input_kind: InputKind,
    pub transport: TransportSummaryView,
    pub junk_bytes: int,
    pub pending_bytes: int,
    pub messages: Seq<MessageSummaryView>,
}

impl DeepView for InspectionReport {
    type V = InspectionView;

    open spec fn deep_view(&self) -> InspectionView {
        InspectionView {
            path: self.path.deep_view(),
            input_kind: self.input_kind,
            transport: self.transport.deep_view(),
            junk_bytes: self.junk_bytes as int,
            pending_bytes: self.pending_bytes as int,
            messages: self.messages.deep_view(),
        }
    }
}

// ---------------------------------------------------------------------------
// Inspection
// ---------------------------------------------------------------------------

/// The first of two optional texts that is there.
pub open spec fn or_text(a: Option<Seq<char>>, b: Option<Seq<char>>) -> Option<Seq<char>> {
    match a {
        Some(_) => a,
        None => b,
    }
}

/// The issue time of a payload as it is written.
pub open spec fn payload_issue(payload: Option<OiPayloadView>) -> Option<Seq<char>> {
    match payload {
        Some(p) => oi::written_issue(p),
        None => None,
    }
}

/// What the wrapper of a message says: its summary (the plain one, else the
/// formatted one), and the identifier and issue time of the payload.
pub open spec fn wrapper_summary(m: OiMessageView) -> WrapperSummaryView {
    WrapperSummaryView {
        summary: or_text(m.summary, m.xhtml_summary),
        id: ingest::payload_id(m),
        issue: payload_issue(m.payload),
    }
}

/// The report on an NWWS-OI message.
pub open spec fn inspect_message(m: OiMessageView, transport: TransportDescriptor) -> Result<
    InspectionView,
> {
    match oi::message_content(m) {
        Ok(content) => Ok(
            InspectionView {
                path: None,
                input_kind: InputKind::OpenInterface,
                transport: transport_summary(transport),
                junk_bytes: 0,
                pending_bytes: 0,
                messages: seq![
                    summary::message_summary(content, Some(wrapper_summary(m)), None),
                ],
            },
        ),
        Err(kind) => Err(parse_error(kind)),
    }
}

/// The range of a frame.
pub open spec fn byte_range(range: (int, int)) -> Option<ByteRange> {
    Some(ByteRange { start: range.0 as usize, end: range.1 as usize })
}

/// The summaries of the bulletins of a stream, each with its range.
pub open spec fn frame_summaries(
    contents: Seq<NwwsContentView>,
    ranges: Seq<(int, int)>,
) -> Seq<MessageSummaryView> {
    Seq::new(
        contents.len(),
        |i: int| summary::message_summary(contents[i], None, byte_range(ranges[i])),
    )
}

/// The report on a stream; one without frames is refused, and so is one with
/// a frame that cannot be read.
pub open spec fn inspect_stream(s: FramedStreamView) -> Result<InspectionView> {
    if s.messages.len() == 0 {
        Err(ApiError::NoFramedMessages)
    } else {
        match ingest::parse_all(s.messages) {
            Ok(contents) => Ok(
                InspectionView {
                    path: None,
                    input_kind: InputKind::FramedStream,
                    transport: transport_summary(s.transport),
                    junk_bytes: s.leading_junk_prefix,
                    pending_bytes: s.pending_bytes,
                    messages: frame_summaries(contents, s.ranges),
                },
            ),
            Err(kind) => Err(parse_error(kind)),
        }
    }
}

/// The report on an input.
pub open spec fn inspect(hint: IngestHint, s: Seq<u8>) -> Result<InspectionView> {
    match ingest::parse_input(hint, s) {
        Ok(ParsedInputView::Bulletin { transport, content }) => Ok(
            InspectionView {
                path: None,
                input_kind: InputKind::Bulletin,
                transport: transport_summary(transport),
                junk_bytes: 0,
                pending_bytes: 0,
                messages: seq![summary::message_summary(content, None, None)],
            },
        ),
        Ok(ParsedInputView::OpenInterface { transport, message, wrapper_id }) => inspect_message(
            message,
            transport,
        ),
        Ok(ParsedInputView::FramedStream(stream)) => inspect_stream(stream),
        Err(kind) => Err(parse_error(kind)),
    }
}

/// The outcome of an inspection, for contracts.
pub open spec fn inspected(r: Result<InspectionReport>) -> Result<InspectionView> {
    match r {
        Ok(v) => Ok(v.deep_view()),
        Err(e) => Err(e),
    }
}

/// Reads are as many as the messages.
pub proof fn lemma_parse_rest_len(messages: Seq<Seq<u8>>, i: int, done: Seq<NwwsContentView>)
    requires
        0 <= i <= messages.len(),
        done.len() == i,
    ensures
        ingest::parse_rest(messages, i, done) matches Ok(v) ==> v.len() == messages.len(),
    decreases messages.len() - i,
{
    if i < messages.len() {
        match crate::product::parse_content(messages[i]) {
            Ok(content) => {
                lemma_parse_rest_len(messages, i + 1, done.push(content));
            },
            Err(_) => {},
        }
    }
}

fn summarize_frames(stream: &FramedStreamIngest, contents: &Vec<NwwsContent>) -> (r: Vec<
    MessageSummary,
>)
    requires
        contents@.len() == stream.chunks@.len(),
    ensures
        r.deep_view() == frame_summaries(contents.deep_view(), stream.deep_view().ranges),
{
    let ghost all = contents.deep_view();
    let ghost ranges = stream.deep_view().ranges;
    let mut out: Vec<MessageSummary> = Vec::new();
    let mut i: usize = 0;
    while i < contents.len()
        invariant
            i <= contents@.len(),
            contents@.len() == stream.chunks@.len(),
            all == contents.deep_view(),
            ranges == stream.deep_view().ranges,
            out@.len() == i,
            forall|k: int|
                0 <= k < i ==> (#[trigger] out@[k]).deep_view() == summary::message_summary(
                    all[k],
                    None,
                    byte_range(ranges[k]),
                ),
        decreases contents.len() - i,
    {
        let chunk = &stream.chunks[i];
        let range = ByteRange { start: chunk.start, end: chunk.end };
        out.push(MessageSummary::from_content(&contents[i], None, Some(range)));
        i += 1;
    }
    assert(out.deep_view() =~= frame_summaries(all, ranges));
    out
}

/// Inspects a framed stream.
pub fn inspect_framed_stream(value: &FramedStreamIngest) -> (r: Result<InspectionReport>)
    ensures
        inspected(r) == inspect_stream(value.deep_view()),
{
    assert(value.deep_view().messages.len() == value.chunks@.len());
    if value.chunks.len() == 0 {
        return Err(ApiError::NoFramedMessages);
    }
    proof {
        lemma_parse_rest_len(value.deep_view().messages, 0, Seq::empty());
    }
    let contents = match value.contents() {
        Ok(v) => v,
        Err(e) => {
            return Err(ApiError::Parse(e));
        },
    };
    assert(contents.deep_view().len() == contents@.len());
    let messages = summarize_frames(value, &contents);
    Ok(
        InspectionReport {
            path: None,
            input_kind: InputKind::FramedStream,
            transport: TransportSummary::from_descriptor(value.transport),
            junk_bytes: value.leading_junk_prefix,
            pending_bytes: value.pending_bytes,
            messages,
        },
    )
}

/// What the wrapper of a message says.
pub fn summarize_wrapper(message: &NwwsOiMessage) -> (r: WrapperSummary)
    ensures
        r.deep_view() == wrapper_summary(message.deep_view()),
{
    let summary = match &message.summary {
        Some(s) => Some(s.clone()),
        None => text::copy_opt(&message.xhtml_summary),
    };
    let id = match &message.payload {
        Some(p) => Some(oi_archive::wrapper_id(p.id)),
        None => None,
    };
    let issue = match &message.payload {
        Some(p) => p.issue.to_rfc3339(),
        None => None,
    };
    WrapperSummary { summary, id, issue }
}

/// Inspects an NWWS-OI message that came by the transport.
pub fn inspect_oi_message_with_transport(
    message: &NwwsOiMessage,
    transport: TransportDescriptor,
) -> (r: Result<InspectionReport>)
    ensures
        inspected(r) == inspect_message(message.deep_view(), transport),
{
    let wrapper = summarize_wrapper(message);
    let content = match NwwsContent::from_oi_message(message) {
        Ok(c) => c,
        Err(e) => {
            return Err(ApiError::Parse(e));
        },
    };
    let mut messages: Vec<MessageSummary> = Vec::new();
    messages.push(MessageSummary::from_content(&content, Some(wrapper), None));
    assert(messages.deep_view() =~= seq![
        summary::message_summary(
            content.deep_view(),
            Some(wrapper_summary(message.deep_view())),
            None,
        ),
    ]);
    Ok(
        InspectionReport {
            path: None,
            input_kind: InputKind::OpenInterface,
            transport: TransportSummary::from_descriptor(transport),
            junk_bytes: 0,
            pending_bytes: 0,
            messages,
        },
    )
}

/// Inspects an NWWS-OI message.
pub fn inspect_oi_message(message: &NwwsOiMessage) -> (r: Result<InspectionReport>)
    ensures
        inspected(r) == inspect_message(
            message.deep_view(),
            TransportDescriptor::spec_open_interface(),
        ),
{
    inspect_oi_message_with_transport(message, TransportDescriptor::open_interface())
}

/// Inspects an input.
pub fn inspect_bytes(bytes: &[u8], hint: IngestHint) -> (r: Result<InspectionReport>)
    ensures
        inspected(r) == inspect(hint, bytes@),
{
    let parsed = match ingest::parse_with_hint(hint, bytes) {
        Ok(p) => p,
        Err(e) => {
            return Err(ApiError::Parse(e));
        },
    };
    match parsed {
        ParsedInput::Bulletin(value) => {
            let mut messages: Vec<MessageSummary> = Vec::new();
            messages.push(MessageSummary::from_content(&value.content, None, None));
            assert(messages.deep_view() =~= seq![
                summary::message_summary(value.content.deep_view(), None, None),
            ]);
            Ok(
                InspectionReport {
                    path: None,
                    input_kind: InputKind::Bulletin,
                    transport: TransportSummary::from_descriptor(value.transport),
                    junk_bytes: 0,
                    pending_bytes: 0,
                    messages,
                },
            )
        },
        ParsedInput::OpenInterface(value) => inspect_oi_message_with_transport(
            &value.message,
            value.transport,
        ),
        ParsedInput::FramedStream(value) => inspect_framed_stream(&value),
    }
}

/// Inspects a text.
pub fn inspect_text(input: &str, hint: IngestHint) -> (r: Result<InspectionReport>)
    ensures
        inspected(r) == inspect(hint, crate::digest::utf8(input@)),
{
    inspect_bytes(input.as_bytes(), hint)
}

/// The hint for a file: the one given, else the one its name suggests.
pub fn resolve_hint(extension: Option<&str>, given: Option<IngestHint>) -> (r: IngestHint)
    ensures
        r == (match given {
            Some(h) => h,
            None => match extension {
                Some(e) => extension_hint(e@),
                None => IngestHint::Auto,
            },
        }),
{
    match given {
        Some(h) => h,
        None => match extension {
            Some(e) => infer_hint_from_extension(e),
            None => IngestHint::Auto,
        },
    }
}

/// The hint that a file name extension suggests, in either case.
pub open spec fn extension_hint(extension: Seq<char>) -> IngestHint {
    let e = text::lower(extension);
    if e == "xml"@ {
        IngestHint::OpenInterface
    } else if e == "pid201"@ || e == "wmo"@ {
        IngestHint::SatellitePid201
    } else {
        IngestHint::Auto
    }
}

/// The hint that a file name extension suggests.
pub fn infer_hint_from_extension(extension: &str) -> (r: IngestHint)
    ensures
        r == extension_hint(extension@),
{
    let chars = text::to_chars(extension);
    let e = text::to_lower(chars.as_slice());
    if text::is_str(e.as_slice(), "xml") {
        IngestHint::OpenInterface
    } else if text::is_str(e.as_slice(), "pid201") || text::is_str(e.as_slice(), "wmo") {
        IngestHint::SatellitePid201
    } else {
        IngestHint::Auto
    }
}

// ---------------------------------------------------------------------------
// Splitting streams
// ---------------------------------------------------------------------------

/// One bulletin of a split stream.
#[derive(Debug, Clone, PartialEq, Eq)]
pub struct Pid201SplitRecord {
    pub index: usize,
    pub suggested_filename: String,
    pub message: MessageSummary,
}

pub struct SplitRecordView {
    pub index: int,
    pub suggested_filename: Seq<char>,
    pub message: MessageSummaryView,
}

impl DeepView for Pid201SplitRecord {
    type V = SplitRecordView;

    open spec fn deep_view(&self) -> SplitRecordView {
        SplitRecordView {
            index: self.index as int,
            suggested_filename: self.suggested_filename@,
            message: self.message.deep_view(),
        }
    }
}

/// The bulletins of a stream.
#[derive(Debug, Clone, PartialEq, Eq)]
pub struct Pid201SplitReport {
    pub source_path: Option<String>,
    pub transport: TransportSummary,
    pub junk_bytes: usize,
    pub pending_bytes: usize,
    pub records: Vec<Pid201SplitRecord>,
}

pub struct SplitReportView {
    pub source_path: Option<Seq<char>>,
    pub transport: TransportSummaryView,
    pub junk_bytes: int,
    pub pending_bytes: int,
    pub records: Seq<SplitRecordView>,
}

impl DeepView for Pid201SplitReport {
    type V = SplitReportView;

    open spec fn deep_view(&self) -> SplitReportView {
        SplitReportView {
            source_path: self.source_path.deep_view(),
            transport: self.transport.deep_view(),
            junk_bytes: self.junk_bytes as int,
            pending_bytes: self.pending_bytes as int,
            records: self.records.deep_view(),
        }
    }
}

/// The transmission sequence number, zero where there is none.
pub open spec fn sequence_or_zero(m: WmoMessageView) -> nat {
    match m.sequence_number {
        Some(n) => n as nat,
        None => 0,
    }
}

/// The file name for the bulletin at the index: its number in five digits,
/// sequence number, designator and AWIPS identifier.
pub open spec fn output_name(index: int, m: WmoMessageView) -> Seq<char> {
    number::padded((index + 1) as nat, 5) + seq!['_'] + number::decimal(sequence_or_zero(m))
        + seq!['_'] + paths::component(m.heading.ttaaii) + seq!['_'] + paths::component(
        paths::awips_or_none(m.awips_id),
    ) + ".txt"@
}

/// Bulletins at different indices get different file names.
pub proof fn output_names_differ(i: int, a: WmoMessageView, j: int, b: WmoMessageView)
    requires
        0 <= i,
        0 <= j,
        i != j,
    ensures
        output_name(i, a) != output_name(j, b),
{
    let p = number::padded((i + 1) as nat, 5);
    let q = number::padded((j + 1) as nat, 5);
    number::lemma_padded_reads_back((i + 1) as nat, 5);
    number::lemma_padded_reads_back((j + 1) as nat, 5);
    let x = output_name(i, a);
    let y = output_name(j, b);
    assert(x[p.len() as int] == '_');
    assert(y[q.len() as int] == '_');
    assert(x.take(p.len() as int) =~= p);
    assert(y.take(q.len() as int) =~= q);
    if x == y {
        if p.len() < q.len() {
            assert(y[p.len() as int] == q[p.len() as int]);
        } else if q.len() < p.len() {
            assert(x[q.len() as int] == p[q.len() as int]);
        }
    }
}

/// The records of the bulletins of a stream.
pub open spec fn split_records(
    contents: Seq<NwwsContentView>,
    ranges: Seq<(int, int)>,
) -> Seq<SplitRecordView> {
    Seq::new(
        contents.len(),
        |i: int|
            SplitRecordView {
                index: i + 1,
                suggested_filename: output_name(i, contents[i].bulletin),
                message: summary::message_summary(contents[i], None, byte_range(ranges[i])),
            },
    )
}

/// No two records of a split suggest the same file name.
pub proof fn split_names_differ(contents: Seq<NwwsContentView>, ranges: Seq<(int, int)>, i: int, j: int)
    requires
        0 <= i < j < contents.len(),
    ensures
        split_records(contents, ranges)[i].suggested_filename != split_records(
            contents,
            ranges,
        )[j].suggested_filename,
{
    output_names_differ(i, contents[i].bulletin, j, contents[j].bulletin);
}

/// The split of a stream; one without frames is refused, and so is one with a
/// frame that cannot be read.
pub open spec fn split_stream(source: Option<Seq<char>>, s: Seq<u8>) -> Result<SplitReportView> {
    let stream = ingest::parse_framed(TransportDescriptor::spec_satellite_pid201(), s);
    if stream.messages.len() == 0 {
        Err(ApiError::NoFramedBulletins)
    } else {
        match ingest::parse_all(stream.messages) {
            Ok(contents) => Ok(
                SplitReportView {
                    source_path: source,
                    transport: transport_summary(stream.transport),
                    junk_bytes: stream.leading_junk_prefix,
                    pending_bytes: stream.pending_bytes,
                    records: split_records(contents, stream.ranges),
                },
            ),
            Err(kind) => Err(parse_error(kind)),
        }
    }
}

/// The outcome of a split, for contracts.
pub open spec fn split_outcome(r: Result<Pid201SplitReport>) -> Result<SplitReportView> {
    match r {
        Ok(v) => Ok(v.deep_view()),
        Err(e) => Err(e),
    }
}

/// Writes the file name for the bulletin at the index.
pub fn pid201_output_name(index: usize, content: &NwwsContent) -> (r: String)
    requires
        index < usize::MAX,
    ensures
        r@ == output_name(index as int, content.deep_view().bulletin),
{
    let bulletin = &content.bulletin;
    let ghost m = content.deep_view().bulletin;
    let sequence: u64 = match bulletin.sequence_number {
        Some(n) => n as u64,
        None => 0,
    };
    let mut v = number::to_padded((index + 1) as u64, 5);
    v.push('_');
    let digits = number::to_decimal(sequence);
    text::push_all(&mut v, digits.as_slice());
    v.push('_');
    let designator = paths::sanitize_component(bulletin.heading.ttaaii());
    text::push_str(&mut v, designator.as_str());
    v.push('_');
    let awips = paths::awips_component(&bulletin.awips_id);
    text::push_str(&mut v, awips.as_str());
    text::push_str(&mut v, ".txt");
    assert(v@ =~= output_name(index as int, m));
    text::to_text(v.as_slice())
}

/// Splits a stream into its bulletins.
pub fn split_pid201(source_path: Option<String>, bytes: &[u8]) -> (r: Result<Pid201SplitReport>)
    ensures
        split_outcome(r) == split_stream(source_path.deep_view(), bytes@),
{
    let parsed = match ingest::parse_with_hint(IngestHint::SatellitePid201, bytes) {
        Ok(p) => p,
        Err(e) => {
            return Err(ApiError::Parse(e));
        },
    };
    let stream = match parsed {
        ParsedInput::FramedStream(s) => s,
        _ => {
            return Err(ApiError::NotPid201Stream);
        },
    };
    assert(stream.deep_view().messages.len() == stream.chunks@.len());
    if stream.chunks.len() == 0 {
        return Err(ApiError::NoFramedBulletins);
    }
    proof {
        lemma_parse_rest_len(stream.deep_view().messages, 0, Seq::empty());
    }
    let contents = match stream.contents() {
        Ok(v) => v,
        Err(e) => {
            return Err(ApiError::Parse(e));
        },
    };
    let ghost all = contents.deep_view();
    assert(all.len() == contents@.len());
    let ghost ranges = stream.deep_view().ranges;
    let mut records: Vec<Pid201SplitRecord> = Vec::new();
    let mut i: usize = 0;
    while i < contents.len()
        invariant
            i <= contents@.len(),
            contents@.len() == stream.chunks@.len(),
            all == contents.deep_view(),
            ranges == stream.deep_view().ranges,
            records@.len() == i,
            forall|k: int|
                0 <= k < i ==> (#[trigger] records@[k]).deep_view() == split_records(all, ranges)[k],
        decreases contents.len() - i,
    {
        let chunk = &stream.chunks[i];
        let range = ByteRange { start: chunk.start, end: chunk.end };
        let record = Pid201SplitRecord {
            index: i + 1,
            suggested_filename: pid201_output_name(i, &contents[i]),
            message: MessageSummary::from_content(&contents[i], None, Some(range)),
        };
        assert(record.deep_view() == split_records(all, ranges)[i as int]);
        records.push(record);
        i += 1;
    }
    assert(records.deep_view() =~= split_records(all, ranges));
    Ok(
        Pid201SplitReport {
            source_path,
            transport: TransportSummary::from_descriptor(stream.transport),
            junk_bytes: stream.leading_junk_prefix,
            pending_bytes: stream.pending_bytes,
            records,
        },
    )
}

/// Splits the bytes of a stream into its bulletins.
pub fn split_pid201_bytes(bytes: &[u8]) -> (r: Result<Pid201SplitReport>)
    ensures
        split_outcome(r) == split_stream(None, bytes@),
{
    split_pid201(None, bytes)
}

} // verus!
