//! Bulletin archives: what is stored of an input, where, and whether what is
//! stored is sound.

use vstd::prelude::*;

use crate::api;
use crate::api::InputKind;
use crate::digest;
use crate::error::{ErrorKind, ParseError};
use crate::families;
use crate::header;
use crate::ingest;
use crate::ingest::{IngestHint, ParsedInput, ParsedInputView, TransportDescriptor};
use crate::lines;
use crate::number;
use crate::oi;
use crate::paths;
use crate::product::{NwwsContent, NwwsContentView, ProductFamily};
use crate::tally;
use crate::tally::Tally;
use crate::text;
use crate::timeline_report;

verus! {

// ---------------------------------------------------------------------------
// Records
// ---------------------------------------------------------------------------

/// A bulletin to be archived.
#[derive(Debug, Clone, PartialEq, Eq)]
pub struct ImportRecord {
    pub source_path: String,
    pub input_kind: InputKind,
    pub transport: TransportDescriptor,
    pub wrapper_id: Option<String>,
    pub bulletin_text: String,
    pub sequence_number: Option<u16>,
    pub heading: String,
    pub ttaaii: String,
    pub cccc: String,
    pub awips_id: Option<String>,
    pub family: ProductFamily,
    pub segment_count: usize,
}

pub struct ImportRecordView {
    pub source_path: Seq<char>,
    pub input_kind: InputKind,
    pub transport: TransportDescriptor,
    pub wrapper_id: Option<Seq<char>>,
    pub bulletin_text: Seq<char>,
    pub sequence_number: Option<u16>,
    pub heading: Seq<char>,
    pub ttaaii: Seq<char>,
    pub cccc: Seq<char>,
    pub awips_id: Option<Seq<char>>,
    pub family: ProductFamily,
    pub segment_count: int,
}

impl DeepView for ImportRecord {
    type V = ImportRecordView;

    open spec fn deep_view(&self) -> ImportRecordView {
        ImportRecordView {
            source_path: self.source_path@,
            input_kind: self.input_kind,
            transport: self.transport,
            wrapper_id: self.wrapper_id.deep_view(),
            bulletin_text: self.bulletin_text@,
            sequence_number: self.sequence_number,
            heading: self.heading@,
            ttaaii: self.ttaaii@,
            cccc: self.cccc@,
            awips_id: self.awips_id.deep_view(),
            family: self.family,
            segment_count: self.segment_count as int,
        }
    }
}

/// The text that is archived of a bulletin: line feeds alone separate its
/// lines, whatever separators the transport used.
pub open spec fn archived_text(bulletin: Seq<char>) -> Seq<char> {
    lines::lf_text(bulletin)
}

/// The record of a bulletin.
pub open spec fn record_of(
    source: Seq<char>,
    kind: InputKind,
    transport: TransportDescriptor,
    wrapper_id: Option<Seq<char>>,
    content: NwwsContentView,
) -> ImportRecordView {
    let bulletin = content.bulletin;
    ImportRecordView {
        source_path: source,
        input_kind: kind,
        transport,
        wrapper_id,
        bulletin_text: archived_text(bulletin.bulletin),
        sequence_number: bulletin.sequence_number,
        heading: header::heading_text(bulletin.heading),
        ttaaii: bulletin.heading.ttaaii,
        cccc: bulletin.heading.cccc,
        awips_id: bulletin.awips_id,
        family: content.product.family,
        segment_count: content.product.segments.len() as int,
    }
}

impl ImportRecord {
    /// The record of a bulletin.
    pub fn from_content(
        source: &str,
        kind: InputKind,
        transport: TransportDescriptor,
        wrapper_id: Option<String>,
        content: &NwwsContent,
    ) -> (r: ImportRecord)
        ensures
            r.deep_view() == record_of(
                source@,
                kind,
                transport,
                wrapper_id.deep_view(),
                content.deep_view(),
            ),
    {
        let bulletin = &content.bulletin;
        let awips_id: Option<String> = match &bulletin.awips_id {
            Some(id) => Some(id.raw().to_owned()),
            None => None,
        };
        assert(content.product.segments.deep_view().len() == content.product.segments@.len());
        ImportRecord {
            source_path: source.to_owned(),
            input_kind: kind,
            transport,
            wrapper_id,
            bulletin_text: lines::with_line_feeds(bulletin.bulletin.as_str()),
            sequence_number: bulletin.sequence_number,
            heading: bulletin.heading.canonical(),
            ttaaii: bulletin.heading.ttaaii().to_owned(),
            cccc: bulletin.heading.cccc().to_owned(),
            awips_id,
            family: content.product.family,
            segment_count: content.product.segments.len(),
        }
    }
}

/// The records of the bulletins of a stream.
pub open spec fn stream_records(
    source: Seq<char>,
    transport: TransportDescriptor,
    contents: Seq<NwwsContentView>,
) -> Seq<ImportRecordView> {
    Seq::new(
        contents.len(),
        |i: int| record_of(source, InputKind::FramedStream, transport, None, contents[i]),
    )
}

/// The records of an input.
pub open spec fn parsed_records(source: Seq<char>, parsed: ParsedInputView) -> std::result::Result<
    Seq<ImportRecordView>,
    ErrorKind,
> {
    match parsed {
        ParsedInputView::Bulletin { transport, content } => Ok(
            seq![record_of(source, InputKind::Bulletin, transport, None, content)],
        ),
        ParsedInputView::OpenInterface { transport, message, wrapper_id } => match oi::message_content(
            message,
        ) {
            Ok(content) => Ok(
                seq![record_of(source, InputKind::OpenInterface, transport, wrapper_id, content)],
            ),
            Err(kind) => Err(kind),
        },
        ParsedInputView::FramedStream(stream) => match ingest::parse_all(stream.messages) {
            Ok(contents) => Ok(stream_records(source, stream.transport, contents)),
            Err(kind) => Err(kind),
        },
    }
}

/// The records of an input.
pub fn archive_records_from_parsed(source: &str, parsed: &ParsedInput) -> (r: std::result::Result<
    Vec<ImportRecord>,
    ParseError,
>)
    ensures
        parsed_records(source@, parsed.deep_view()) == (match r {
            Ok(v) => Ok::<Seq<ImportRecordView>, ErrorKind>(v.deep_view()),
            Err(e) => Err::<Seq<ImportRecordView>, ErrorKind>(e.kind),
        }),
{
    let mut out: Vec<ImportRecord> = Vec::new();
    match parsed {
        ParsedInput::Bulletin(value) => {
            out.push(
                ImportRecord::from_content(
                    source,
                    InputKind::Bulletin,
                    value.transport,
                    None,
                    &value.content,
                ),
            );
            assert(out.deep_view() =~= seq![
                record_of(
                    source@,
                    InputKind::Bulletin,
                    value.transport,
                    None,
                    value.content.deep_view(),
                ),
            ]);
            Ok(out)
        },
        ParsedInput::OpenInterface(value) => {
            let wrapper_id: Option<String> = match &value.wrapper {
                Some(w) => Some(w.id.clone()),
                None => None,
            };
            let content = match value.content() {
                Ok(c) => c,
                Err(e) => {
                    return Err(e);
                },
            };
            out.push(
                ImportRecord::from_content(
                    source,
                    InputKind::OpenInterface,
                    value.transport,
                    wrapper_id,
                    &content,
                ),
            );
            assert(out.deep_view() =~= seq![
                record_of(
                    source@,
                    InputKind::OpenInterface,
                    value.transport,
                    ingest::wrapper_id_of(value.wrapper),
                    content.deep_view(),
                ),
            ]);
            Ok(out)
        },
        ParsedInput::FramedStream(value) => {
            let contents = match value.contents() {
                Ok(v) => v,
                Err(e) => {
                    return Err(e);
                },
            };
            let ghost all = contents.deep_view();
            let ghost want = stream_records(source@, value.transport, all);
            let mut i: usize = 0;
            while i < contents.len()
                invariant
                    i <= contents@.len(),
                    all == contents.deep_view(),
                    want == stream_records(source@, value.transport, all),
                    out@.len() == i,
                    forall|k: int| 0 <= k < i ==> (#[trigger] out@[k]).deep_view() == want[k],
                decreases contents.len() - i,
            {
                let record = ImportRecord::from_content(
                    source,
                    InputKind::FramedStream,
                    value.transport,
                    None,
                    &contents[i],
                );
                assert(record.deep_view() == want[i as int]);
                out.push(record);
                i += 1;
            }
            assert(out.deep_view() =~= want);
            Ok(out)
        },
    }
}

// ---------------------------------------------------------------------------
// Storing
// ---------------------------------------------------------------------------

/// The digest that a record is stored under.
pub open spec fn record_digest(record: ImportRecordView) -> Seq<char> {
    digest::digest_text(digest::utf8(record.bulletin_text))
}

/// The directory of a record.
pub open spec fn record_directory(record: ImportRecordView) -> Seq<char> {
    "records/"@ + paths::component(record.cccc) + seq!['/'] + paths::component(record.ttaaii)
        + seq!['/'] + paths::component(paths::awips_or_none(record.awips_id)) + seq!['/']
}

/// The file stem of a record at an attempt: its digest, and behind the first
/// attempt the number of other bulletins that were found there.
pub open spec fn record_stem(record: ImportRecordView, attempt: nat) -> Seq<char> {
    if attempt == 0 {
        record_digest(record)
    } else {
        record_digest(record) + seq!['-'] + number::decimal(attempt)
    }
}

/// Where a record is stored at an attempt.
pub open spec fn record_path(record: ImportRecordView, attempt: nat) -> Seq<char> {
    record_directory(record) + record_stem(record, attempt) + ".txt"@
}

/// Writes where a record is stored at an attempt.
pub fn record_relative_path(record: &ImportRecord, attempt: usize) -> (r: String)
    ensures
        r@ == record_path(record.deep_view(), attempt as nat),
{
    let ghost view = record.deep_view();
    let mut v: Vec<char> = Vec::new();
    text::push_str(&mut v, "records/");
    let office = paths::sanitize_component(record.cccc.as_str());
    text::push_str(&mut v, office.as_str());
    v.push('/');
    let designator = paths::sanitize_component(record.ttaaii.as_str());
    text::push_str(&mut v, designator.as_str());
    v.push('/');
    let awips = match &record.awips_id {
        Some(id) => paths::sanitize_component(id.as_str()),
        None => paths::sanitize_component("NO-AWIPS"),
    };
    text::push_str(&mut v, awips.as_str());
    v.push('/');
    assert(v@ =~= record_directory(view));
    let stem = digest::archive_digest(record.bulletin_text.as_str().as_bytes());
    let mut tail = text::to_chars(stem.as_str());
    if attempt > 0 {
        tail.push('-');
        let suffix = number::to_decimal(attempt as u64);
        text::push_all(&mut tail, suffix.as_slice());
        assert(tail@ =~= record_stem(view, attempt as nat));
    }
    text::push_all(&mut v, tail.as_slice());
    text::push_str(&mut v, ".txt");
    text::to_text(v.as_slice())
}

/// What to do about a record at an attempt.
#[derive(Debug, Clone, Copy, PartialEq, Eq, Structural)]
pub enum PersistStep {
    /// The bulletin is stored there already.
    Duplicate,
    /// Nothing is stored there: the bulletin goes there.
    Write,
    /// Another bulletin is stored there: the next attempt is to be made.
    Retry,
}

/// What to do about a record, given what is stored at the place of the
/// attempt.
pub open spec fn persist_step_for(record: ImportRecordView, existing: Option<Seq<u8>>) -> PersistStep {
    match existing {
        None => PersistStep::Write,
        Some(bytes) => if bytes == digest::utf8(record.bulletin_text) {
            PersistStep::Duplicate
        } else {
            PersistStep::Retry
        },
    }
}

fn same_bytes(a: &[u8], b: &[u8]) -> (r: bool)
    ensures
        r == (a@ == b@),
{
    if a.len() != b.len() {
        return false;
    }
    let mut i: usize = 0;
    while i < a.len()
        invariant
            i <= a@.len(),
            a@.len() == b@.len(),
            forall|k: int| 0 <= k < i ==> a@[k] == b@[k],
        decreases a.len() - i,
    {
        if a[i] != b[i] {
            return false;
        }
        i += 1;
    }
    assert(a@ =~= b@);
    true
}

/// What to do about a record, given what is stored at the place of the
/// attempt.
pub fn persist_step(record: &ImportRecord, existing: Option<&[u8]>) -> (r: PersistStep)
    ensures
        r == persist_step_for(
            record.deep_view(),
            match existing {
                Some(bytes) => Some(bytes@),
                None => None,
            },
        ),
{
    match existing {
        None => PersistStep::Write,
        Some(bytes) => if same_bytes(bytes, record.bulletin_text.as_str().as_bytes()) {
            PersistStep::Duplicate
        } else {
            PersistStep::Retry
        },
    }
}

/// The places of different attempts are different.
pub proof fn attempts_have_different_places(record: ImportRecordView, a: nat, b: nat)
    requires
        record_path(record, a) == record_path(record, b),
    ensures
        a == b,
{
    let dir = record_directory(record);
    let x = record_stem(record, a);
    let y = record_stem(record, b);
    let end = ".txt"@;
    assert((dir + x + end).len() == dir.len() + x.len() + end.len());
    assert((dir + y + end).len() == dir.len() + y.len() + end.len());
    assert(x =~= (dir + x + end).subrange(dir.len() as int, (dir.len() + x.len()) as int));
    assert(y =~= (dir + y + end).subrange(dir.len() as int, (dir.len() + y.len()) as int));
    let d = record_digest(record);
    if a > 0 && b > 0 {
        assert(number::decimal(a) =~= x.skip(d.len() as int + 1));
        assert(number::decimal(b) =~= y.skip(d.len() as int + 1));
        number::lemma_decimal_reads_back(a);
        number::lemma_decimal_reads_back(b);
    }
}

/// The archive after the step: what is to be written is, all else stays.
pub open spec fn after_step(
    files: Map<Seq<char>, Seq<u8>>,
    record: ImportRecordView,
    attempt: nat,
) -> Map<Seq<char>, Seq<u8>> {
    match step_at(files, record, attempt) {
        PersistStep::Write => files.insert(
            record_path(record, attempt),
            digest::utf8(record.bulletin_text),
        ),
        _ => files,
    }
}

/// The step at an attempt, given the files of the archive.
pub open spec fn step_at(
    files: Map<Seq<char>, Seq<u8>>,
    record: ImportRecordView,
    attempt: nat,
) -> PersistStep {
    let path = record_path(record, attempt);
    persist_step_for(
        record,
        if files.dom().contains(path) {
            Some(files[path])
        } else {
            None
        },
    )
}

/// Storing never changes a file that is there.
pub proof fn storing_overwrites_nothing(
    files: Map<Seq<char>, Seq<u8>>,
    record: ImportRecordView,
    attempt: nat,
    path: Seq<char>,
)
    requires
        files.dom().contains(path),
    ensures
        after_step(files, record, attempt).dom().contains(path),
        after_step(files, record, attempt)[path] == files[path],
{
}

/// Whether two records are of the same bulletin and belong in the same
/// directory.
pub open spec fn same_bulletin(a: ImportRecordView, b: ImportRecordView) -> bool {
    &&& a.bulletin_text == b.bulletin_text
    &&& a.cccc == b.cccc
    &&& a.ttaaii == b.ttaaii
    &&& a.awips_id == b.awips_id
}

/// A bulletin that was stored is found again, whatever input it comes in
/// then: the attempts that led to its place lead there once more, and there it
/// is a duplicate.
pub proof fn stored_bulletin_is_a_duplicate(
    files: Map<Seq<char>, Seq<u8>>,
    record: ImportRecordView,
    again: ImportRecordView,
    attempt: nat,
)
    requires
        same_bulletin(record, again),
        forall|k: nat| k < attempt ==> #[trigger] step_at(files, record, k) == PersistStep::Retry,
        step_at(files, record, attempt) == PersistStep::Write,
    ensures
        ({
            let stored = after_step(files, record, attempt);
            &&& forall|k: nat|
                k < attempt ==> #[trigger] step_at(stored, again, k) == PersistStep::Retry
            &&& step_at(stored, again, attempt) == PersistStep::Duplicate
            &&& record_path(again, attempt) == record_path(record, attempt)
        }),
{
    let stored = after_step(files, record, attempt);
    assert forall|k: nat| k < attempt implies #[trigger] step_at(stored, again, k)
        == PersistStep::Retry by {
        assert(step_at(files, record, k) == PersistStep::Retry);
        assert(record_path(again, k) == record_path(record, k));
        if record_path(record, k) == record_path(record, attempt) {
            attempts_have_different_places(record, k, attempt);
        }
    }
}

// ---------------------------------------------------------------------------
// The manifest
// ---------------------------------------------------------------------------

/// The first line of a manifest.
pub const MANIFEST_HEADER: &'static str =
    "fingerprint\trelative_path\tinput_kind\ttransport\tsequence\tttaaii\tcccc\tawips_id\tfamily\tsegments\twrapper_id\tsource_path";

/// The text, or the empty one.
pub open spec fn or_empty(s: Option<Seq<char>>) -> Seq<char> {
    match s {
        Some(t) => t,
        None => Seq::empty(),
    }
}

/// The sequence number in digits, or the empty text.
pub open spec fn sequence_text(n: Option<u16>) -> Seq<char> {
    match n {
        Some(v) => number::decimal(v as nat),
        None => Seq::empty(),
    }
}

/// The fields of the manifest line of a record.
pub open spec fn manifest_fields(record: ImportRecordView, path: Seq<char>) -> Seq<Seq<char>> {
    seq![
        record_digest(record),
        path,
        record.input_kind.spec_label(),
        ingest::transport_text(record.transport.kind),
        sequence_text(record.sequence_number),
        record.ttaaii,
        record.cccc,
        or_empty(record.awips_id),
        families::family_text(record.family),
        number::decimal(record.segment_count as nat),
        or_empty(record.wrapper_id),
        paths::table_field(record.source_path),
    ]
}

/// The manifest line of a record that was stored at the path.
pub open spec fn manifest_text(record: ImportRecordView, path: Seq<char>) -> Seq<char> {
    text::join(manifest_fields(record, path), "\t"@)
}

fn opt_chars(s: &Option<String>) -> (r: Vec<char>)
    ensures
        r@ == or_empty(s.deep_view()),
{
    match s {
        Some(t) => text::to_chars(t.as_str()),
        None => Vec::new(),
    }
}

/// Writes the manifest line of a record that was stored at the path.
pub fn manifest_line(record: &ImportRecord, path: &str) -> (r: String)
    ensures
        r@ == manifest_text(record.deep_view(), path@),
{
    let stem = digest::archive_digest(record.bulletin_text.as_str().as_bytes());
    let sequence: Vec<char> = match record.sequence_number {
        Some(n) => number::to_decimal(n as u64),
        None => Vec::new(),
    };
    let family = families::family_name(record.family);
    let source = paths::sanitize_tsv_field(record.source_path.as_str());
    let mut fields: Vec<Vec<char>> = Vec::new();
    fields.push(text::to_chars(stem.as_str()));
    fields.push(text::to_chars(path));
    fields.push(text::to_chars(record.input_kind.label()));
    fields.push(text::to_chars(ingest::transport_label(record.transport)));
    fields.push(sequence);
    fields.push(text::to_chars(record.ttaaii.as_str()));
    fields.push(text::to_chars(record.cccc.as_str()));
    fields.push(opt_chars(&record.awips_id));
    fields.push(text::to_chars(family.as_str()));
    fields.push(number::to_decimal(record.segment_count as u64));
    fields.push(opt_chars(&record.wrapper_id));
    fields.push(text::to_chars(source.as_str()));
    assert(text::views(fields@) =~= manifest_fields(record.deep_view(), path@));
    let tab = text::to_chars("\t");
    let line = text::join_with(&fields, tab.as_slice());
    text::to_text(line.as_slice())
}

// ---------------------------------------------------------------------------
// Imports
// ---------------------------------------------------------------------------

/// Whether a bulletin was stored or was there already.
#[derive(Debug, Clone, Copy, PartialEq, Eq, Structural)]
pub enum ArchiveAction {
    Archived,
    Duplicate,
}

impl ArchiveAction {
    pub open spec fn spec_label(self) -> Seq<char> {
        match self {
            ArchiveAction::Archived => "archived"@,
            ArchiveAction::Duplicate => "duplicate"@,
        }
    }

    pub fn label(self) -> (r: &'static str)
        ensures
            r@ == self.spec_label(),
    {
        match self {
            ArchiveAction::Archived => "archived",
            ArchiveAction::Duplicate => "duplicate",
        }
    }
}

/// What became of a record.
#[derive(Debug, Clone, PartialEq, Eq)]
pub struct ArchivePersistResult {
    pub source_path: String,
    pub action: &'static str,
    pub relative_path: String,
    pub transport: &'static str,
    pub heading: String,
    pub family: String,
}

pub struct PersistResultView {
    pub source_path: Seq<char>,
    pub action: Seq<char>,
    pub relative_path: Seq<char>,
    pub transport: Seq<char>,
    pub heading: Seq<char>,
    pub family: Seq<char>,
}

impl DeepView for ArchivePersistResult {
    type V = PersistResultView;

    open spec fn deep_view(&self) -> PersistResultView {
        PersistResultView {
            source_path: self.source_path@,
            action: self.action@,
            relative_path: self.relative_path@,
            transport: self.transport@,
            heading: self.heading@,
            family: self.family@,
        }
    }
}

/// An input of which nothing could be archived.
#[derive(Debug, Clone, PartialEq, Eq)]
pub struct ArchiveFailure {
    pub source_path: String,
    pub error: String,
}

impl DeepView for ArchiveFailure {
    type V = (Seq<char>, Seq<char>);

    open spec fn deep_view(&self) -> (Seq<char>, Seq<char>) {
        (self.source_path@, self.error@)
    }
}

/// What an import did.
#[derive(Debug, Clone, PartialEq, Eq)]
pub struct ArchiveImportReport {
    pub archive_dir: String,
    pub scanned_inputs: usize,
    pub parsed_inputs: usize,
    pub archived_records: usize,
    pub duplicate_records: usize,
    pub failures: usize,
    pub transports: Tally,
    pub families: Tally,
    pub records: Vec<ArchivePersistResult>,
    pub errors: Vec<ArchiveFailure>,
}

pub struct ImportView {
    pub archive_dir: Seq<char>,
    pub scanned_inputs: usize,
    pub parsed_inputs: usize,
    pub archived_records: usize,
    pub duplicate_records: usize,
    pub failures: usize,
    pub transports: Map<Seq<char>, usize>,
    pub families: Map<Seq<char>, usize>,
    pub records: Seq<PersistResultView>,
    pub errors: Seq<(Seq<char>, Seq<char>)>,
}

impl DeepView for ArchiveImportReport {
    type V = ImportView;

    open spec fn deep_view(&self) -> ImportView {
        ImportView {
            archive_dir: self.archive_dir@,
            scanned_inputs: self.scanned_inputs,
            parsed_inputs: self.parsed_inputs,
            archived_records: self.archived_records,
            duplicate_records: self.duplicate_records,
            failures: self.failures,
            transports: self.transports@,
            families: self.families@,
            records: self.records.deep_view(),
            errors: self.errors.deep_view(),
        }
    }
}

/// The import with one more input of which nothing could be archived.
pub open spec fn with_failed_input(v: ImportView, source: Seq<char>, error: Seq<char>) -> ImportView {
    ImportView {
        scanned_inputs: timeline_report::bumped(v.scanned_inputs),
        failures: timeline_report::bumped(v.failures),
        errors: v.errors.push((source, error)),
        ..v
    }
}

/// The records of an input, or why there are none.
pub open spec fn import_records(
    source: Seq<char>,
    hint: IngestHint,
    bytes: Seq<u8>,
) -> std::result::Result<Seq<ImportRecordView>, Seq<char>> {
    match ingest::parse_input(hint, bytes) {
        Err(kind) => Err(timeline_report::parse_failure_text(hint, kind)),
        Ok(parsed) => match parsed_records(source, parsed) {
            Err(kind) => Err(timeline_report::error_text(kind)),
            Ok(records) => if records.len() == 0 {
                Err("input did not contain any archiveable records"@)
            } else {
                Ok(records)
            },
        },
    }
}

/// The import with one more input of the bytes.
pub open spec fn with_read_input(
    v: ImportView,
    source: Seq<char>,
    hint: IngestHint,
    bytes: Seq<u8>,
) -> ImportView {
    match import_records(source, hint, bytes) {
        Err(error) => with_failed_input(v, source, error),
        Ok(_) => ImportView {
            scanned_inputs: timeline_report::bumped(v.scanned_inputs),
            parsed_inputs: timeline_report::bumped(v.parsed_inputs),
            ..v
        },
    }
}

/// What became of a record.
pub open spec fn persist_result(
    record: ImportRecordView,
    action: ArchiveAction,
    path: Seq<char>,
) -> PersistResultView {
    PersistResultView {
        source_path: record.source_path,
        action: action.spec_label(),
        relative_path: path,
        transport: ingest::transport_text(record.transport.kind),
        heading: record.heading,
        family: families::family_text(record.family),
    }
}

/// The import after a record was stored or found.
pub open spec fn with_outcome(
    v: ImportView,
    record: ImportRecordView,
    action: ArchiveAction,
    path: Seq<char>,
) -> ImportView {
    ImportView {
        archived_records: if action == ArchiveAction::Archived {
            timeline_report::bumped(v.archived_records)
        } else {
            v.archived_records
        },
        duplicate_records: if action == ArchiveAction::Duplicate {
            timeline_report::bumped(v.duplicate_records)
        } else {
            v.duplicate_records
        },
        transports: tally::counted(
            v.transports,
            ingest::transport_text(record.transport.kind),
        ),
        families: tally::counted(v.families, families::family_text(record.family)),
        records: v.records.push(persist_result(record, action, path)),
        ..v
    }
}

/// Every input of an import was archived or is a failure, every record was
/// stored or was there already, and the transports and the families hold every
/// record once, as far as can be counted.
pub open spec fn import_adds_up(v: ImportView) -> bool {
    &&& v.scanned_inputs < usize::MAX ==> v.parsed_inputs + v.failures == v.scanned_inputs
    &&& v.errors.len() < usize::MAX ==> v.failures == v.errors.len()
    &&& v.records.len() < usize::MAX ==> v.archived_records + v.duplicate_records
        == v.records.len()
    &&& v.transports.dom().finite()
    &&& v.records.len() < usize::MAX ==> tally::total(v.transports) == v.records.len()
    &&& v.families.dom().finite()
    &&& v.records.len() < usize::MAX ==> tally::total(v.families) == v.records.len()
}

/// The counts of an import of nothing are in balance.
pub proof fn empty_import_adds_up(archive_dir: Seq<char>)
    ensures
        import_adds_up(
            (ImportView {
                archive_dir,
                scanned_inputs: 0,
                parsed_inputs: 0,
                archived_records: 0,
                duplicate_records: 0,
                failures: 0,
                transports: Map::empty(),
                families: Map::empty(),
                records: Seq::empty(),
                errors: Seq::empty(),
            }),
        ),
{
    tally::empty_total();
}

/// An input keeps the counts of an import in balance.
pub proof fn inputs_add_up(v: ImportView, source: Seq<char>, hint: IngestHint, bytes: Seq<u8>)
    requires
        import_adds_up(v),
    ensures
        import_adds_up(with_read_input(v, source, hint, bytes)),
{
}

/// A record keeps the counts of an import in balance.
pub proof fn outcomes_add_up(
    v: ImportView,
    record: ImportRecordView,
    action: ArchiveAction,
    path: Seq<char>,
)
    requires
        import_adds_up(v),
    ensures
        import_adds_up(with_outcome(v, record, action, path)),
{
    if with_outcome(v, record, action, path).records.len() < usize::MAX {
        tally::counting_adds_one(v.transports, ingest::transport_text(record.transport.kind));
        tally::counting_adds_one(v.families, families::family_text(record.family));
    }
}

impl ArchiveImportReport {
    /// An import of nothing yet.
    pub fn new(archive_dir: String) -> (r: ArchiveImportReport)
        ensures
            r.deep_view() == (ImportView {
                archive_dir: archive_dir@,
                scanned_inputs: 0,
                parsed_inputs: 0,
                archived_records: 0,
                duplicate_records: 0,
                failures: 0,
                transports: Map::empty(),
                families: Map::empty(),
                records: Seq::empty(),
                errors: Seq::empty(),
            }),
    {
        let r = ArchiveImportReport {
            archive_dir,
            scanned_inputs: 0,
            parsed_inputs: 0,
            archived_records: 0,
            duplicate_records: 0,
            failures: 0,
            transports: Tally::new(),
            families: Tally::new(),
            records: Vec::new(),
            errors: Vec::new(),
        };
        assert(r.records.deep_view() =~= Seq::<PersistResultView>::empty());
        assert(r.errors.deep_view() =~= Seq::<(Seq<char>, Seq<char>)>::empty());
        r
    }

    fn fail(&mut self, source: &str, error: String)
        ensures
            final(self).deep_view() == with_failed_input(old(self).deep_view(), source@, error@),
    {
        let ghost before = self.errors.deep_view();
        self.scanned_inputs = timeline_report::bump(self.scanned_inputs);
        self.failures = timeline_report::bump(self.failures);
        let failure = ArchiveFailure { source_path: source.to_owned(), error };
        self.errors.push(failure);
        assert(self.errors.deep_view() =~= before.push(failure.deep_view()));
    }

    /// Notes an input that could not be read.
    pub fn read_failed(&mut self, source: &str, error: &str)
        ensures
            final(self).deep_view() == with_failed_input(
                old(self).deep_view(),
                source@,
                "failed to read: "@ + error@,
            ),
    {
        let mut v = text::to_chars("failed to read: ");
        text::push_str(&mut v, error);
        self.fail(source, text::to_text(v.as_slice()));
    }

    /// Reads an input: hands out its records, or notes why there are none.
    pub fn add_input(&mut self, source: &str, hint: IngestHint, bytes: &[u8]) -> (r: Vec<
        ImportRecord,
    >)
        ensures
            final(self).deep_view() == with_read_input(old(self).deep_view(), source@, hint, bytes@),
            match import_records(source@, hint, bytes@) {
                Ok(records) => r.deep_view() == records,
                Err(_) => r@.len() == 0,
            },
    {
        let parsed = match ingest::parse_with_hint(hint, bytes) {
            Ok(p) => p,
            Err(e) => {
                self.fail(source, timeline_report::parse_failure(hint, &e));
                return Vec::new();
            },
        };
        let records = match archive_records_from_parsed(source, &parsed) {
            Ok(v) => v,
            Err(e) => {
                self.fail(source, e.message());
                return Vec::new();
            },
        };
        assert(records.deep_view().len() == records@.len());
        if records.len() == 0 {
            self.fail(source, "input did not contain any archiveable records".to_owned());
            return Vec::new();
        }
        self.scanned_inputs = timeline_report::bump(self.scanned_inputs);
        self.parsed_inputs = timeline_report::bump(self.parsed_inputs);
        records
    }

    /// Notes what became of a record.
    pub fn add_outcome(&mut self, record: &ImportRecord, action: ArchiveAction, path: &str)
        ensures
            final(self).deep_view() == with_outcome(
                old(self).deep_view(),
                record.deep_view(),
                action,
                path@,
            ),
    {
        let ghost before = self.records.deep_view();
        match action {
            ArchiveAction::Archived => {
                self.archived_records = timeline_report::bump(self.archived_records);
            },
            ArchiveAction::Duplicate => {
                self.duplicate_records = timeline_report::bump(self.duplicate_records);
            },
        }
        let transport = ingest::transport_label(record.transport);
        let family = families::family_name(record.family);
        self.transports.bump(transport);
        self.families.bump(family.as_str());
        let result = ArchivePersistResult {
            source_path: record.source_path.clone(),
            action: action.label(),
            relative_path: path.to_owned(),
            transport,
            heading: record.heading.clone(),
            family,
        };
        self.records.push(result);
        assert(self.records.deep_view() =~= before.push(result.deep_view()));
    }
}

// ---------------------------------------------------------------------------
// Verification
// ---------------------------------------------------------------------------

/// Whether an archived file is sound.
#[derive(Debug, Clone, PartialEq, Eq)]
pub struct ArchiveVerifyRecord {
    pub path: String,
    pub status: &'static str,
    pub heading: Option<String>,
    pub family: Option<String>,
    pub error: Option<String>,
}

pub struct VerifyRecordView {
    pub path: Seq<char>,
    pub status: Seq<char>,
    pub heading: Option<Seq<char>>,
    pub family: Option<Seq<char>>,
    pub error: Option<Seq<char>>,
}

impl DeepView for ArchiveVerifyRecord {
    type V = VerifyRecordView;

    open spec fn deep_view(&self) -> VerifyRecordView {
        VerifyRecordView {
            path: self.path@,
            status: self.status@,
            heading: self.heading.deep_view(),
            family: self.family.deep_view(),
            error: self.error.deep_view(),
        }
    }
}

/// Whether a file stem is the digest, or the digest with a suffix.
pub open spec fn stem_matches(stem: Seq<char>, digest: Seq<char>) -> bool {
    stem == digest || text::starts_with(stem, digest + seq!['-'])
}

/// A file that could not be verified.
pub open spec fn broken_file(path: Seq<char>, error: Seq<char>) -> VerifyRecordView {
    VerifyRecordView {
        path,
        status: "error"@,
        heading: None,
        family: None,
        error: Some(error),
    }
}

/// The verdict on an archived file: it has to be a bulletin, and its stem has
/// to be that of its digest.
pub open spec fn verified(path: Seq<char>, stem: Seq<char>, bytes: Seq<u8>) -> VerifyRecordView {
    match api::inspect(IngestHint::RawBulletin, bytes) {
        Err(e) => broken_file(path, e.spec_message()),
        Ok(report) => if report.messages.len() != 1 {
            broken_file(
                path,
                "expected one archived bulletin, found "@ + number::decimal(report.messages.len()),
            )
        } else {
            let digest = digest::digest_text(bytes);
            let sound = stem_matches(stem, digest);
            VerifyRecordView {
                path,
                status: if sound {
                    "ok"@
                } else {
                    "error"@
                },
                heading: Some(report.messages[0].heading),
                family: Some(report.messages[0].family),
                error: if sound {
                    None
                } else {
                    Some("digest mismatch, expected "@ + digest)
                },
            }
        },
    }
}

fn broken(path: &str, error: String) -> (r: ArchiveVerifyRecord)
    ensures
        r.deep_view() == broken_file(path@, error@),
{
    ArchiveVerifyRecord {
        path: path.to_owned(),
        status: "error",
        heading: None,
        family: None,
        error: Some(error),
    }
}

/// The verdict on an archived file.
pub fn verify_archived_file(path: &str, stem: &str, bytes: &[u8]) -> (r: ArchiveVerifyRecord)
    ensures
        r.deep_view() == verified(path@, stem@, bytes@),
{
    let report = match api::inspect_bytes(bytes, IngestHint::RawBulletin) {
        Ok(v) => v,
        Err(e) => {
            return broken(path, e.message());
        },
    };
    assert(report.deep_view().messages.len() == report.messages@.len());
    if report.messages.len() != 1 {
        let mut v = text::to_chars("expected one archived bulletin, found ");
        let n = number::to_decimal(report.messages.len() as u64);
        text::push_all(&mut v, n.as_slice());
        return broken(path, text::to_text(v.as_slice()));
    }
    assert(report.deep_view().messages[0] == report.messages@[0].deep_view());
    let expected = digest::archive_digest(bytes);
    let digest_chars = text::to_chars(expected.as_str());
    let stem_chars = text::to_chars(stem);
    let mut prefix = text::to_chars(expected.as_str());
    prefix.push('-');
    assert(prefix@ =~= expected@ + seq!['-']);
    let heading = Some(report.messages[0].heading.clone());
    let family = Some(report.messages[0].family.clone());
    if text::same(stem_chars.as_slice(), digest_chars.as_slice()) || text::begins(
        stem_chars.as_slice(),
        prefix.as_slice(),
    ) {
        return ArchiveVerifyRecord {
            path: path.to_owned(),
            status: "ok",
            heading,
            family,
            error: None,
        };
    }
    let mut v = text::to_chars("digest mismatch, expected ");
    text::push_str(&mut v, expected.as_str());
    ArchiveVerifyRecord {
        path: path.to_owned(),
        status: "error",
        heading,
        family,
        error: Some(text::to_text(v.as_slice())),
    }
}

/// What a verification found.
#[derive(Debug, Clone, PartialEq, Eq)]
pub struct ArchiveVerifyReport {
    pub archive_dir: String,
    pub verified_records: usize,
    pub failures: usize,
    pub families: Tally,
    pub records: Vec<ArchiveVerifyRecord>,
}

pub struct VerifyView {
    pub archive_dir: Seq<char>,
    pub verified_records: usize,
    pub failures: usize,
    pub families: Map<Seq<char>, usize>,
    pub records: Seq<VerifyRecordView>,
}

impl DeepView for ArchiveVerifyReport {
    type V = VerifyView;

    open spec fn deep_view(&self) -> VerifyView {
        VerifyView {
            archive_dir: self.archive_dir@,
            verified_records: self.verified_records,
            failures: self.failures,
            families: self.families@,
            records: self.records.deep_view(),
        }
    }
}

/// The verification with one more verdict.
pub open spec fn with_verdict(v: VerifyView, record: VerifyRecordView) -> VerifyView {
    let sound = record.status == "ok"@;
    VerifyView {
        verified_records: if sound {
            timeline_report::bumped(v.verified_records)
        } else {
            v.verified_records
        },
        failures: if sound {
            v.failures
        } else {
            timeline_report::bumped(v.failures)
        },
        families: if sound && record.family is Some {
            tally::counted(v.families, record.family->0)
        } else {
            v.families
        },
        records: v.records.push(record),
        ..v
    }
}

/// Every archived file is sound or a failure, and the families hold every
/// sound one once.
pub open spec fn verify_adds_up(v: VerifyView) -> bool {
    &&& v.verified_records + v.failures == v.records.len()
    &&& v.families.dom().finite()
    &&& tally::total(v.families) == v.verified_records
}

/// The counts of a verification of nothing are in balance.
pub proof fn empty_verification_adds_up(archive_dir: Seq<char>)
    ensures
        verify_adds_up(
            (VerifyView {
                archive_dir,
                verified_records: 0,
                failures: 0,
                families: Map::empty(),
                records: Seq::empty(),
            }),
        ),
{
    tally::empty_total();
}

/// A sound file is of some family.
pub proof fn sound_files_have_a_family(path: Seq<char>, stem: Seq<char>, bytes: Seq<u8>)
    ensures
        verified(path, stem, bytes).status == "ok"@ ==> verified(path, stem, bytes).family is Some,
{
    assert("ok"@ != "error"@) by {
        reveal_strlit("ok");
        reveal_strlit("error");
        assert("ok"@.len() != "error"@.len());
    }
    let inspected = api::inspect(IngestHint::RawBulletin, bytes);
    match inspected {
        Err(e) => {
            assert(verified(path, stem, bytes) == broken_file(path, e.spec_message()));
        },
        Ok(report) => {
            if report.messages.len() != 1 {
                assert(verified(path, stem, bytes).status == "error"@);
            }
        },
    }
}

/// A verdict keeps the counts of a verification in balance, as far as can be
/// counted.
pub proof fn verdicts_add_up(v: VerifyView, record: VerifyRecordView)
    requires
        v.records.len() < usize::MAX,
        record.status == "ok"@ ==> record.family is Some,
        verify_adds_up(v),
    ensures
        verify_adds_up(with_verdict(v, record)),
{
    if record.status == "ok"@ {
        tally::counting_adds_one(v.families, record.family->0);
    }
}

impl ArchiveVerifyReport {
    /// A verification of nothing yet.
    pub fn new(archive_dir: String) -> (r: ArchiveVerifyReport)
        ensures
            r.deep_view() == (VerifyView {
                archive_dir: archive_dir@,
                verified_records: 0,
                failures: 0,
                families: Map::empty(),
                records: Seq::empty(),
            }),
    {
        let r = ArchiveVerifyReport {
            archive_dir,
            verified_records: 0,
            failures: 0,
            families: Tally::new(),
            records: Vec::new(),
        };
        assert(r.records.deep_view() =~= Seq::<VerifyRecordView>::empty());
        r
    }

    /// Adds a verdict.
    pub fn add_record(&mut self, record: ArchiveVerifyRecord)
        ensures
            final(self).deep_view() == with_verdict(old(self).deep_view(), record.deep_view()),
    {
        let ghost before = self.records.deep_view();
        let status = text::to_chars(record.status);
        if text::is_str(status.as_slice(), "ok") {
            self.verified_records = timeline_report::bump(self.verified_records);
            if let Some(family) = &record.family {
                self.families.bump(family.as_str());
            }
        } else {
            self.failures = timeline_report::bump(self.failures);
        }
        self.records.push(record);
        assert(self.records.deep_view() =~= before.push(record.deep_view()));
    }

    /// Verifies an archived file and adds the verdict.
    pub fn add_file(&mut self, path: &str, stem: &str, bytes: &[u8])
        ensures
            final(self).deep_view() == with_verdict(
                old(self).deep_view(),
                verified(path@, stem@, bytes@),
            ),
    {
        let record = verify_archived_file(path, stem, bytes);
        self.add_record(record);
    }

    /// Notes an archived file that could not be read.
    pub fn read_failed(&mut self, path: &str, error: &str)
        ensures
            final(self).deep_view() == with_verdict(
                old(self).deep_view(),
                broken_file(path@, error@),
            ),
    {
        let record = broken(path, error.to_owned());
        self.add_record(record);
    }
}

} // verus!
