//! The ingest service: what is remembered, archived and where.

use vstd::hash_set::StringHashSet;
use vstd::prelude::*;

use crate::api;
use crate::clock;
use crate::digest;
use crate::error::ParseError;
use crate::families;
use crate::ingest;
use crate::ingest::{
    FramedStreamIngest, IngestHint, ParsedInput, ParsedInputView, TransportDescriptor, TransportKind,
};
use crate::oi;
use crate::paths;
use crate::product::{NwwsContent, NwwsContentView, ProductFamily};
use crate::stream;
use crate::text;

verus! {

/// Why an input cannot be processed.
#[derive(Debug, Clone, Copy, PartialEq, Eq, Structural)]
pub enum RuntimeError {
    Parse(ParseError),
    /// The capture time cannot be written.
    CaptureTime,
}

pub type Result<T> = std::result::Result<T, RuntimeError>;

impl RuntimeError {
    pub open spec fn spec_message(self) -> Seq<char> {
        match self {
            RuntimeError::Parse(e) => e.spec_message(),
            RuntimeError::CaptureTime => "failed to format capture time: "@
                + clock::UNWRITABLE_YEAR@,
        }
    }

    pub fn message(&self) -> (r: String)
        ensures
            r@ == self.spec_message(),
    {
        match self {
            RuntimeError::Parse(e) => e.message(),
            RuntimeError::CaptureTime => {
                let mut v = text::to_chars("failed to format capture time: ");
                text::push_str(&mut v, clock::UNWRITABLE_YEAR);
                text::to_text(v.as_slice())
            },
        }
    }
}

// ---------------------------------------------------------------------------
// Metadata
// ---------------------------------------------------------------------------

/// Where a record came from.
#[derive(Debug, Clone, Copy, PartialEq, Eq, Structural)]
pub enum RecordSource {
    OpenInterface,
    RawBulletin,
    SatellitePid201,
}

impl RecordSource {
    /// The name of the source in directories.
    pub open spec fn spec_slug(self) -> Seq<char> {
        match self {
            RecordSource::OpenInterface => "open_interface"@,
            RecordSource::RawBulletin => "raw_bulletin"@,
            RecordSource::SatellitePid201 => "pid201"@,
        }
    }

    /// The extension of the files of raw bytes.
    pub open spec fn spec_extension(self) -> Seq<char> {
        match self {
            RecordSource::OpenInterface => "xml"@,
            RecordSource::RawBulletin => "txt"@,
            RecordSource::SatellitePid201 => "wmo"@,
        }
    }

    pub fn slug(self) -> (r: &'static str)
        ensures
            r@ == self.spec_slug(),
    {
        match self {
            RecordSource::OpenInterface => "open_interface",
            RecordSource::RawBulletin => "raw_bulletin",
            RecordSource::SatellitePid201 => "pid201",
        }
    }

    pub fn extension(self) -> (r: &'static str)
        ensures
            r@ == self.spec_extension(),
    {
        match self {
            RecordSource::OpenInterface => "xml",
            RecordSource::RawBulletin => "txt",
            RecordSource::SatellitePid201 => "wmo",
        }
    }
}

/// What is archived beside the raw bytes of a message.
#[derive(Debug, Clone, PartialEq, Eq)]
pub struct ArchivedMetadata {
    pub captured_at: String,
    pub source: RecordSource,
    pub transport: &'static str,
    pub frame_kind: &'static str,
    pub sequence_number: Option<u16>,
    pub ttaaii: String,
    pub cccc: String,
    pub awips_id: Option<String>,
    pub family: ProductFamily,
    pub segment_count: usize,
    pub wrapper_id: Option<String>,
    pub wrapper_issue: Option<String>,
}

pub struct MetadataView {
    pub captured_at: Seq<char>,
    pub source: RecordSource,
    pub transport: Seq<char>,
    pub frame_kind: Seq<char>,
    pub sequence_number: Option<u16>,
    pub ttaaii: Seq<char>,
    pub cccc: Seq<char>,
    pub awips_id: Option<Seq<char>>,
    pub family: ProductFamily,
    pub segment_count: int,
    pub wrapper_id: Option<Seq<char>>,
    pub wrapper_issue: Option<Seq<char>>,
}

impl DeepView for ArchivedMetadata {
    type V = MetadataView;

    open spec fn deep_view(&self) -> MetadataView {
        MetadataView {
            captured_at: self.captured_at@,
            source: self.source,
            transport: self.transport@,
            frame_kind: self.frame_kind@,
            sequence_number: self.sequence_number,
            ttaaii: self.ttaaii@,
            cccc: self.cccc@,
            awips_id: self.awips_id.deep_view(),
            family: self.family,
            segment_count: self.segment_count as int,
            wrapper_id: self.wrapper_id.deep_view(),
            wrapper_issue: self.wrapper_issue.deep_view(),
        }
    }
}

impl ArchivedMetadata {
    pub fn copy(&self) -> (r: ArchivedMetadata)
        ensures
            r.deep_view() == self.deep_view(),
    {
        ArchivedMetadata {
            captured_at: self.captured_at.clone(),
            source: self.source,
            transport: self.transport,
            frame_kind: self.frame_kind,
            sequence_number: self.sequence_number,
            ttaaii: self.ttaaii.clone(),
            cccc: self.cccc.clone(),
            awips_id: text::copy_opt(&self.awips_id),
            family: self.family,
            segment_count: self.segment_count,
            wrapper_id: text::copy_opt(&self.wrapper_id),
            wrapper_issue: text::copy_opt(&self.wrapper_issue),
        }
    }
}

/// A message that is ready to be archived, with the day directory it belongs
/// in.
#[derive(Debug, Clone, PartialEq, Eq)]
pub struct PreparedRecord {
    pub fingerprint: String,
    pub raw_bytes: Vec<u8>,
    pub metadata: ArchivedMetadata,
    pub day: String,
}

pub struct PreparedView {
    pub fingerprint: Seq<char>,
    pub raw_bytes: Seq<u8>,
    pub metadata: MetadataView,
    pub day: Seq<char>,
}

impl DeepView for PreparedRecord {
    type V = PreparedView;

    open spec fn deep_view(&self) -> PreparedView {
        PreparedView {
            fingerprint: self.fingerprint@,
            raw_bytes: self.raw_bytes@,
            metadata: self.metadata.deep_view(),
            day: self.day@,
        }
    }
}

/// What the wrapper of a message says of it: identifier and issue time.
pub type WrapperParts = (Option<Seq<char>>, Option<Seq<char>>);

/// The record of a message that was captured at the instant.
pub open spec fn prepared(
    source: RecordSource,
    transport: TransportKind,
    raw: Seq<u8>,
    content: NwwsContentView,
    wrapper: WrapperParts,
    now: int,
) -> Result<PreparedView> {
    let bulletin = content.bulletin;
    if clock::writable(now) {
        Ok(
            PreparedView {
                fingerprint: digest::fingerprint(bulletin),
                raw_bytes: raw,
                metadata: MetadataView {
                    captured_at: clock::utc_text(now),
                    source,
                    transport: ingest::transport_text(transport),
                    frame_kind: bulletin.frame_kind.spec_label(),
                    sequence_number: bulletin.sequence_number,
                    ttaaii: bulletin.heading.ttaaii,
                    cccc: bulletin.heading.cccc,
                    awips_id: bulletin.awips_id,
                    family: content.product.family,
                    segment_count: content.product.segments.len() as int,
                    wrapper_id: wrapper.0,
                    wrapper_issue: wrapper.1,
                },
                day: clock::date_text(clock::calendar(clock::julian_of(now)), "/"@),
            },
        )
    } else {
        Err(RuntimeError::CaptureTime)
    }
}

/// The outcome of a preparation, for contracts.
pub open spec fn prepared_outcome(r: Result<PreparedRecord>) -> Result<PreparedView> {
    match r {
        Ok(v) => Ok(v.deep_view()),
        Err(e) => Err(e),
    }
}

/// Makes the record of a message that was captured at the instant.
pub fn record_from_content(
    source: RecordSource,
    transport: TransportDescriptor,
    raw_bytes: Vec<u8>,
    content: &NwwsContent,
    wrapper_id: Option<String>,
    wrapper_issue: Option<String>,
    now: i128,
) -> (r: Result<PreparedRecord>)
    ensures
        prepared_outcome(r) == prepared(
            source,
            transport.kind,
            raw_bytes@,
            content.deep_view(),
            (wrapper_id.deep_view(), wrapper_issue.deep_view()),
            now as int,
        ),
{
    let bulletin = &content.bulletin;
    let captured_at = match clock::format_rfc3339(now, 0) {
        Some(s) => s,
        None => {
            return Err(RuntimeError::CaptureTime);
        },
    };
    let awips_id: Option<String> = match &bulletin.awips_id {
        Some(id) => Some(id.raw().to_owned()),
        None => None,
    };
    assert(content.product.segments.deep_view().len() == content.product.segments@.len());
    let metadata = ArchivedMetadata {
        captured_at,
        source,
        transport: ingest::transport_label(transport),
        frame_kind: bulletin.frame_kind.label(),
        sequence_number: bulletin.sequence_number,
        ttaaii: bulletin.heading.ttaaii().to_owned(),
        cccc: bulletin.heading.cccc().to_owned(),
        awips_id,
        family: content.product.family,
        segment_count: content.product.segments.len(),
        wrapper_id,
        wrapper_issue,
    };
    Ok(
        PreparedRecord {
            fingerprint: digest::semantic_fingerprint(content),
            raw_bytes,
            metadata,
            day: clock::write_date(now, "/"),
        },
    )
}

// ---------------------------------------------------------------------------
// Archives
// ---------------------------------------------------------------------------

/// A directory that messages are archived in.
#[derive(Debug, Clone, PartialEq, Eq)]
pub struct ArchiveStore {
    root: String,
}

impl DeepView for ArchiveStore {
    type V = Seq<char>;

    closed spec fn deep_view(&self) -> Seq<char> {
        self.root@
    }
}

/// A path below another one.
pub open spec fn joined(a: Seq<char>, b: Seq<char>) -> Seq<char> {
    if a.len() == 0 || a.last() == '/' {
        a + b
    } else {
        a + seq!['/'] + b
    }
}

fn join_path(a: &mut Vec<char>, b: &str)
    ensures
        final(a)@ == joined(old(a)@, b@),
{
    let ghost before = a@;
    if a.len() > 0 && a[a.len() - 1] != '/' {
        a.push('/');
    }
    text::push_str(a, b);
    assert(a@ =~= joined(before, b@));
}

/// The AWIPS identifier, or the designator where there is none.
pub open spec fn awips_or_designator(m: MetadataView) -> Seq<char> {
    match m.awips_id {
        Some(id) => id,
        None => m.ttaaii,
    }
}

/// The directory of a record: day, source, office, product and family.
pub open spec fn store_directory(root: Seq<char>, day: Seq<char>, m: MetadataView) -> Seq<char> {
    let dated = joined(root, day);
    let sourced = joined(dated, m.source.spec_slug());
    let office = joined(sourced, paths::replaced(m.cccc));
    let awips = joined(office, paths::replaced(awips_or_designator(m)));
    joined(awips, paths::replaced(families::family_slug_text(m.family)))
}

/// The file of the raw bytes of a record.
pub open spec fn raw_file(root: Seq<char>, record: PreparedView) -> Seq<char> {
    joined(
        store_directory(root, record.day, record.metadata),
        record.fingerprint + seq!['.'] + record.metadata.source.spec_extension(),
    )
}

/// The file of the metadata of a record.
pub open spec fn metadata_file(root: Seq<char>, record: PreparedView) -> Seq<char> {
    joined(store_directory(root, record.day, record.metadata), record.fingerprint + ".json"@)
}

impl ArchiveStore {
    pub fn new(root: String) -> (r: ArchiveStore)
        ensures
            r.deep_view() == root@,
    {
        ArchiveStore { root }
    }

    pub fn root(&self) -> (r: &str)
        ensures
            r@ == self.deep_view(),
    {
        self.root.as_str()
    }

    /// Where a record goes: the file of its raw bytes and that of its
    /// metadata.
    pub fn record_paths(&self, record: &PreparedRecord) -> (r: (String, String))
        ensures
            r.0@ == raw_file(self.deep_view(), record.deep_view()),
            r.1@ == metadata_file(self.deep_view(), record.deep_view()),
    {
        let metadata = &record.metadata;
        let mut directory = text::to_chars(self.root.as_str());
        join_path(&mut directory, record.day.as_str());
        join_path(&mut directory, metadata.source.slug());
        let office = paths::sanitize_path_segment(metadata.cccc.as_str());
        join_path(&mut directory, office.as_str());
        let awips = match &metadata.awips_id {
            Some(id) => paths::sanitize_path_segment(id.as_str()),
            None => paths::sanitize_path_segment(metadata.ttaaii.as_str()),
        };
        join_path(&mut directory, awips.as_str());
        let family = paths::sanitize_path_segment(families::family_slug(metadata.family));
        join_path(&mut directory, family.as_str());
        assert(directory@ == store_directory(
            self.deep_view(),
            record.day@,
            metadata.deep_view(),
        ));
        let mut raw_name = text::to_chars(record.fingerprint.as_str());
        raw_name.push('.');
        text::push_str(&mut raw_name, metadata.source.extension());
        let raw_name = text::to_text(raw_name.as_slice());
        assert(raw_name@ =~= record.fingerprint@ + seq!['.'] + metadata.source.spec_extension());
        let mut metadata_name = text::to_chars(record.fingerprint.as_str());
        text::push_str(&mut metadata_name, ".json");
        let metadata_name = text::to_text(metadata_name.as_slice());
        let mut raw_path = text::copy_chars(directory.as_slice());
        join_path(&mut raw_path, raw_name.as_str());
        join_path(&mut directory, metadata_name.as_str());
        (text::to_text(raw_path.as_slice()), text::to_text(directory.as_slice()))
    }
}

// ---------------------------------------------------------------------------
// Fingerprints that were seen
// ---------------------------------------------------------------------------

/// The fingerprints that were seen, and the file they are kept in.
pub struct DedupeStore {
    index_path: String,
    seen: StringHashSet,
}

impl View for DedupeStore {
    type V = Set<Seq<char>>;

    closed spec fn view(&self) -> Set<Seq<char>> {
        self.seen@
    }
}

/// Whether one of the texts is the fingerprint, but for surrounding white
/// space.
pub open spec fn names(texts: Seq<Seq<char>>, fingerprint: Seq<char>) -> bool {
    exists|i: int| 0 <= i < texts.len() && text::trim(#[trigger] texts[i]) == fingerprint
}

/// The fingerprints among the texts.
pub open spec fn fingerprints_in(texts: Seq<Seq<char>>) -> Set<Seq<char>> {
    Set::new(|f: Seq<char>| f.len() > 0 && names(texts, f))
}

/// The fingerprints that an index file holds, one on each line.
pub open spec fn index_set(contents: Seq<char>) -> Set<Seq<char>> {
    fingerprints_in(text::split(contents, '\n'))
}

proof fn lemma_fingerprints_push(texts: Seq<Seq<char>>, t: Seq<char>)
    ensures
        fingerprints_in(texts.push(t)) == (if text::trim(t).len() > 0 {
            fingerprints_in(texts).insert(text::trim(t))
        } else {
            fingerprints_in(texts)
        }),
{
    let more = texts.push(t);
    let want = if text::trim(t).len() > 0 {
        fingerprints_in(texts).insert(text::trim(t))
    } else {
        fingerprints_in(texts)
    };
    assert forall|f: Seq<char>| fingerprints_in(more).contains(f) == want.contains(f) by {
        if names(texts, f) {
            let i = choose|i: int| 0 <= i < texts.len() && text::trim(#[trigger] texts[i]) == f;
            assert(more[i] == texts[i]);
        }
        if names(more, f) {
            let i = choose|i: int| 0 <= i < more.len() && text::trim(#[trigger] more[i]) == f;
            if i < texts.len() {
                assert(texts[i] == more[i]);
            }
        }
        assert(more[texts.len() as int] == t);
    }
    assert(fingerprints_in(more) =~= want);
}

proof fn lemma_split_concat(a: Seq<char>, b: Seq<char>)
    ensures
        text::split(a + seq!['\n'] + b, '\n') == text::split(a, '\n') + text::split(b, '\n'),
    decreases a.len(),
{
    let s = a + seq!['\n'] + b;
    text::lemma_index_from(a, '\n', 0);
    let k = text::index_from(a, '\n', 0);
    if k < a.len() {
        text::lemma_index_is(s, '\n', 0, k);
        assert(s.take(k) =~= a.take(k));
        assert(s.skip(k + 1) =~= a.skip(k + 1) + seq!['\n'] + b);
        lemma_split_concat(a.skip(k + 1), b);
        assert(text::split(s, '\n') =~= seq![a.take(k)] + (text::split(a.skip(k + 1), '\n')
            + text::split(b, '\n')));
        assert(text::split(a, '\n') =~= seq![a.take(k)] + text::split(a.skip(k + 1), '\n'));
        assert(text::split(s, '\n') =~= text::split(a, '\n') + text::split(b, '\n'));
    } else {
        text::lemma_index_is(s, '\n', 0, a.len() as int);
        assert(s.take(a.len() as int) =~= a);
        assert(s.skip(a.len() as int + 1) =~= b);
        assert(text::split(a, '\n') =~= seq![a]);
    }
}

proof fn lemma_split_line(f: Seq<char>)
    requires
        forall|i: int| 0 <= i < f.len() ==> #[trigger] f[i] != '\n',
    ensures
        text::split(f, '\n') == seq![f],
{
    text::lemma_index_from(f, '\n', 0);
}

/// A fingerprint that is appended to an index file on a line of its own is
/// seen when the file is read again, beside those that were there.
pub proof fn index_keeps_fingerprints(contents: Seq<char>, fingerprint: Seq<char>)
    requires
        contents.len() == 0 || contents.last() == '\n',
        fingerprint.len() > 0,
        text::trim(fingerprint) == fingerprint,
        !fingerprint.contains('\n'),
    ensures
        index_set(contents + fingerprint + seq!['\n']) == index_set(contents).insert(fingerprint),
{
    let f = fingerprint;
    let none = Seq::<char>::empty();
    assert(forall|i: int| 0 <= i < f.len() ==> #[trigger] f[i] != '\n');
    lemma_split_line(f);
    lemma_split_line(none);
    assert(text::trim(none).len() == 0);
    if contents.len() == 0 {
        assert(contents + f + seq!['\n'] =~= f + seq!['\n'] + none);
        lemma_split_concat(f, none);
        assert(contents =~= none);
        let empty = Seq::<Seq<char>>::empty();
        assert(text::split(contents + f + seq!['\n'], '\n') =~= empty.push(f).push(none));
        assert(text::split(contents, '\n') =~= empty.push(none));
        lemma_fingerprints_push(empty, f);
        lemma_fingerprints_push(empty.push(f), none);
        lemma_fingerprints_push(empty, none);
    } else {
        let head = contents.drop_last();
        assert(contents =~= head + seq!['\n'] + none);
        assert(contents + f + seq!['\n'] =~= head + seq!['\n'] + (f + seq!['\n'] + none));
        lemma_split_concat(head, none);
        lemma_split_concat(head, f + seq!['\n'] + none);
        lemma_split_concat(f, none);
        let lines = text::split(head, '\n');
        assert(text::split(contents, '\n') =~= lines.push(none));
        assert(text::split(contents + f + seq!['\n'], '\n') =~= lines.push(f).push(none));
        lemma_fingerprints_push(lines, none);
        lemma_fingerprints_push(lines, f);
        lemma_fingerprints_push(lines.push(f), none);
    }
}

impl DedupeStore {
    pub closed spec fn spec_index_path(&self) -> Seq<char> {
        self.index_path@
    }

    /// The store whose index file has the contents.
    pub fn from_index(index_path: String, contents: &str) -> (r: DedupeStore)
        ensures
            r@ == index_set(contents@),
            r.spec_index_path() == index_path@,
    {
        let chars = text::to_chars(contents);
        let lines = text::split_on(chars.as_slice(), '\n');
        let ghost all = text::views(lines@);
        let mut seen = StringHashSet::new();
        let mut i: usize = 0;
        assert(seen@ =~= fingerprints_in(all.take(0)));
        while i < lines.len()
            invariant
                i <= lines@.len(),
                all == text::views(lines@),
                seen@ == fingerprints_in(all.take(i as int)),
            decreases lines.len() - i,
        {
            proof {
                assert(all.take(i + 1) =~= all.take(i as int).push(all[i as int]));
                lemma_fingerprints_push(all.take(i as int), all[i as int]);
            }
            let line = text::trim_of(lines[i].as_slice());
            if line.len() > 0 {
                seen.insert(text::to_text(line));
            }
            i += 1;
        }
        assert(all.take(i as int) =~= all);
        DedupeStore { index_path, seen }
    }

    pub fn index_path(&self) -> (r: &str)
        ensures
            r@ == self.spec_index_path(),
    {
        self.index_path.as_str()
    }

    /// Whether the fingerprint was seen.
    pub fn contains(&self, fingerprint: &str) -> (r: bool)
        ensures
            r == self@.contains(fingerprint@),
    {
        self.seen.contains(fingerprint)
    }

    /// Notes a fingerprint; says whether it is a new one.
    pub fn insert(&mut self, fingerprint: &str) -> (r: bool)
        ensures
            r == !old(self)@.contains(fingerprint@),
            final(self)@ == old(self)@.insert(fingerprint@),
            final(self).spec_index_path() == old(self).spec_index_path(),
    {
        self.seen.insert(fingerprint.to_owned())
    }
}

// ---------------------------------------------------------------------------
// Routes
// ---------------------------------------------------------------------------

/// Which messages a route takes; a part that is not given takes all.
#[derive(Debug, Clone, Default, PartialEq, Eq)]
pub struct RouteRule {
    pub family: Option<ProductFamily>,
    pub cccc: Option<String>,
    pub awips_prefix: Option<String>,
}

pub struct RuleView {
    pub family: Option<ProductFamily>,
    pub cccc: Option<Seq<char>>,
    pub awips_prefix: Option<Seq<char>>,
}

impl DeepView for RouteRule {
    type V = RuleView;

    open spec fn deep_view(&self) -> RuleView {
        RuleView {
            family: self.family,
            cccc: self.cccc.deep_view(),
            awips_prefix: self.awips_prefix.deep_view(),
        }
    }
}

/// Whether a rule takes a message: family and office are those given, and the
/// AWIPS identifier begins with the prefix.
pub open spec fn rule_matches(rule: RuleView, m: MetadataView) -> bool {
    &&& rule.family matches Some(family) ==> m.family == family
    &&& rule.cccc matches Some(cccc) ==> m.cccc == cccc
    &&& rule.awips_prefix matches Some(prefix) ==> m.awips_id is Some && text::starts_with(
        m.awips_id->0,
        prefix,
    )
}

impl RouteRule {
    /// Whether the rule takes the message.
    pub fn matches(&self, metadata: &ArchivedMetadata) -> (r: bool)
        ensures
            r == rule_matches(self.deep_view(), metadata.deep_view()),
    {
        if let Some(family) = self.family {
            if metadata.family != family {
                return false;
            }
        }
        if let Some(cccc) = &self.cccc {
            let office = text::to_chars(metadata.cccc.as_str());
            if !text::is_str(office.as_slice(), cccc.as_str()) {
                return false;
            }
        }
        if let Some(prefix) = &self.awips_prefix {
            match &metadata.awips_id {
                None => {
                    return false;
                },
                Some(id) => {
                    let awips = text::to_chars(id.as_str());
                    if !text::begins_str(awips.as_slice(), prefix.as_str()) {
                        return false;
                    }
                },
            }
        }
        true
    }
}

/// An archive for the messages that a rule takes.
#[derive(Debug, Clone, PartialEq, Eq)]
pub struct Route {
    pub rule: RouteRule,
    pub archive: ArchiveStore,
}

impl DeepView for Route {
    type V = (RuleView, Seq<char>);

    open spec fn deep_view(&self) -> (RuleView, Seq<char>) {
        (self.rule.deep_view(), self.archive.deep_view())
    }
}

/// Routes messages to archives; those that no route takes go to the default
/// archive, if there is one.
#[derive(Debug, Clone, PartialEq, Eq)]
pub struct MessageRouter {
    default_archive: Option<ArchiveStore>,
    routes: Vec<Route>,
}

pub struct RouterView {
    pub default_archive: Option<Seq<char>>,
    pub routes: Seq<(RuleView, Seq<char>)>,
}

impl DeepView for MessageRouter {
    type V = RouterView;

    closed spec fn deep_view(&self) -> RouterView {
        RouterView {
            default_archive: self.default_archive.deep_view(),
            routes: self.routes.deep_view(),
        }
    }
}

/// The archives of the routes that take a message, in order.
pub open spec fn matching(routes: Seq<(RuleView, Seq<char>)>, m: MetadataView) -> Seq<Seq<char>>
    decreases routes.len(),
{
    if routes.len() == 0 {
        Seq::empty()
    } else {
        let before = matching(routes.drop_last(), m);
        if rule_matches(routes.last().0, m) {
            before.push(routes.last().1)
        } else {
            before
        }
    }
}

/// The archives that a message goes to.
pub open spec fn archives(router: RouterView, m: MetadataView) -> Seq<Seq<char>> {
    let matched = matching(router.routes, m);
    if matched.len() == 0 && router.default_archive is Some {
        seq![router.default_archive->0]
    } else {
        matched
    }
}

/// A message goes to the default archive exactly where no route takes it, and
/// to the archive of every route that does.
pub proof fn default_archive_takes_the_rest(router: RouterView, m: MetadataView)
    ensures
        (forall|i: int| 0 <= i < router.routes.len() ==> !rule_matches((#[trigger] router.routes[i]).0, m))
            ==> archives(router, m) == (match router.default_archive {
            Some(root) => seq![root],
            None => Seq::empty(),
        }),
        forall|i: int|
            0 <= i < router.routes.len() && rule_matches((#[trigger] router.routes[i]).0, m)
                ==> archives(router, m).contains(router.routes[i].1),
{
    lemma_matching(router.routes, m);
    if forall|i: int|
        0 <= i < router.routes.len() ==> !rule_matches((#[trigger] router.routes[i]).0, m) {
        assert(archives(router, m) =~= (match router.default_archive {
            Some(root) => seq![root],
            None => Seq::empty(),
        }));
    }
    assert forall|i: int|
        0 <= i < router.routes.len() && rule_matches(
            (#[trigger] router.routes[i]).0,
            m,
        ) implies archives(router, m).contains(router.routes[i].1) by {
        assert(matching(router.routes, m).contains(router.routes[i].1));
    }
}

proof fn lemma_matching(routes: Seq<(RuleView, Seq<char>)>, m: MetadataView)
    ensures
        (forall|i: int| 0 <= i < routes.len() ==> !rule_matches((#[trigger] routes[i]).0, m))
            ==> matching(routes, m).len() == 0,
        forall|i: int|
            0 <= i < routes.len() && rule_matches((#[trigger] routes[i]).0, m) ==> matching(
                routes,
                m,
            ).contains(routes[i].1),
    decreases routes.len(),
{
    if routes.len() > 0 {
        let rest = routes.drop_last();
        lemma_matching(rest, m);
        assert(forall|i: int| 0 <= i < rest.len() ==> rest[i] == #[trigger] routes[i]);
        let before = matching(rest, m);
        let all = matching(routes, m);
        assert forall|i: int|
            0 <= i < routes.len() && rule_matches((#[trigger] routes[i]).0, m) implies all.contains(
            routes[i].1,
        ) by {
            if i < rest.len() {
                assert(before.contains(rest[i].1));
                let k = choose|k: int| 0 <= k < before.len() && before[k] == rest[i].1;
                assert(all[k] == before[k]);
            } else {
                assert(all.last() == routes[i].1);
            }
        }
    }
}

/// The roots of the archives.
pub open spec fn roots(stores: Seq<&ArchiveStore>) -> Seq<Seq<char>> {
    Seq::new(stores.len(), |i: int| stores[i].deep_view())
}

impl MessageRouter {
    pub fn new(default_archive: Option<ArchiveStore>) -> (r: MessageRouter)
        ensures
            r.deep_view() == (RouterView {
                default_archive: default_archive.deep_view(),
                routes: Seq::empty(),
            }),
    {
        let r = MessageRouter { default_archive, routes: Vec::new() };
        assert(r.routes.deep_view() =~= Seq::<(RuleView, Seq<char>)>::empty());
        r
    }

    pub fn add_route(&mut self, route: Route)
        ensures
            final(self).deep_view() == (RouterView {
                routes: old(self).deep_view().routes.push(route.deep_view()),
                ..old(self).deep_view()
            }),
    {
        let ghost before = self.routes.deep_view();
        self.routes.push(route);
        assert(self.routes.deep_view() =~= before.push(route.deep_view()));
    }

    /// The archives that a message goes to.
    pub fn archives_for<'a>(&'a self, metadata: &ArchivedMetadata) -> (r: Vec<&'a ArchiveStore>)
        ensures
            roots(r@) == archives(self.deep_view(), metadata.deep_view()),
    {
        let ghost m = metadata.deep_view();
        let ghost all = self.routes.deep_view();
        let mut out: Vec<&'a ArchiveStore> = Vec::new();
        let mut i: usize = 0;
        assert(roots(out@) =~= matching(all.take(0), m));
        while i < self.routes.len()
            invariant
                i <= self.routes@.len(),
                m == metadata.deep_view(),
                all == self.routes.deep_view(),
                roots(out@) == matching(all.take(i as int), m),
            decreases self.routes.len() - i,
        {
            let ghost before = roots(out@);
            assert(all.take(i + 1).drop_last() =~= all.take(i as int));
            assert(all[i as int] == self.routes@[i as int].deep_view());
            if self.routes[i].rule.matches(metadata) {
                out.push(&self.routes[i].archive);
                assert(roots(out@) =~= before.push(all[i as int].1));
            }
            i += 1;
        }
        assert(all.take(i as int) =~= all);
        assert(roots(out@).len() == out@.len());
        if out.len() == 0 {
            if let Some(archive) = &self.default_archive {
                out.push(archive);
                assert(roots(out@) =~= seq![archive.deep_view()]);
            }
        }
        out
    }
}

// ---------------------------------------------------------------------------
// The service
// ---------------------------------------------------------------------------

/// A copy of a message that goes to an archive.
#[derive(Debug, Clone, PartialEq, Eq)]
pub struct ArchiveRecord {
    pub fingerprint: String,
    pub duplicate: bool,
    pub raw_path: String,
    pub metadata_path: String,
    pub metadata: ArchivedMetadata,
}

pub struct ArchiveRecordView {
    pub fingerprint: Seq<char>,
    pub duplicate: bool,
    pub raw_path: Seq<char>,
    pub metadata_path: Seq<char>,
    pub metadata: MetadataView,
}

impl DeepView for ArchiveRecord {
    type V = ArchiveRecordView;

    open spec fn deep_view(&self) -> ArchiveRecordView {
        ArchiveRecordView {
            fingerprint: self.fingerprint@,
            duplicate: self.duplicate,
            raw_path: self.raw_path@,
            metadata_path: self.metadata_path@,
            metadata: self.metadata.deep_view(),
        }
    }
}

/// What is to be done about a message: whether its fingerprint is to be
/// remembered, and which copies are to be written.
#[derive(Debug, Clone, PartialEq, Eq)]
pub struct RecordPlan {
    pub record: PreparedRecord,
    pub remember: bool,
    pub writes: Vec<ArchiveRecord>,
}

pub struct PlanView {
    pub record: PreparedView,
    pub remember: bool,
    pub writes: Seq<ArchiveRecordView>,
}

impl DeepView for RecordPlan {
    type V = PlanView;

    open spec fn deep_view(&self) -> PlanView {
        PlanView {
            record: self.record.deep_view(),
            remember: self.remember,
            writes: self.writes.deep_view(),
        }
    }
}

/// What is to be done about an input.
#[derive(Debug, Clone, PartialEq, Eq)]
pub struct ProcessReport {
    pub plans: Vec<RecordPlan>,
}

/// What a service knows.
pub struct ServiceView {
    pub router: RouterView,
    pub seen: Set<Seq<char>>,
    pub archive_duplicates: bool,
}

/// The copies of a message.
pub open spec fn copies(
    record: PreparedView,
    duplicate: bool,
    roots: Seq<Seq<char>>,
) -> Seq<ArchiveRecordView> {
    Seq::new(
        roots.len(),
        |i: int|
            ArchiveRecordView {
                fingerprint: record.fingerprint,
                duplicate,
                raw_path: raw_file(roots[i], record),
                metadata_path: metadata_file(roots[i], record),
                metadata: record.metadata,
            },
    )
}

/// What a service does about a message: one whose fingerprint was seen is
/// archived only where duplicates are.
pub open spec fn plan_for(service: ServiceView, record: PreparedView) -> PlanView {
    let duplicate = service.seen.contains(record.fingerprint);
    PlanView {
        record,
        remember: !duplicate,
        writes: if duplicate && !service.archive_duplicates {
            Seq::empty()
        } else {
            copies(record, duplicate, archives(service.router, record.metadata))
        },
    }
}

/// A service after a message.
pub open spec fn after_record(service: ServiceView, record: PreparedView) -> ServiceView {
    ServiceView { seen: service.seen.insert(record.fingerprint), ..service }
}

/// A service after several messages.
pub open spec fn after_records(service: ServiceView, records: Seq<PreparedView>) -> ServiceView
    decreases records.len(),
{
    if records.len() == 0 {
        service
    } else {
        after_record(after_records(service, records.drop_last()), records.last())
    }
}

/// What a service does about several messages, one after the other.
pub open spec fn plans_for(service: ServiceView, records: Seq<PreparedView>) -> Seq<PlanView> {
    Seq::new(
        records.len(),
        |i: int| plan_for(after_records(service, records.take(i)), records[i]),
    )
}

/// A message that comes again, with others between, is a duplicate: its
/// fingerprint is not remembered once more, and it is not written unless
/// duplicates are.
pub proof fn repeated_message_is_a_duplicate(
    service: ServiceView,
    records: Seq<PreparedView>,
    i: int,
    j: int,
)
    requires
        0 <= i < j < records.len(),
        records[i].fingerprint == records[j].fingerprint,
    ensures
        !plans_for(service, records)[j].remember,
        !service.archive_duplicates ==> plans_for(service, records)[j].writes.len() == 0,
{
    lemma_after_records(service, records.take(j), i);
}

/// A message whose fingerprint no service saw before is remembered, and goes
/// to every archive it is routed to.
pub proof fn new_message_is_archived(service: ServiceView, record: PreparedView)
    requires
        !service.seen.contains(record.fingerprint),
    ensures
        plan_for(service, record).remember,
        plan_for(service, record).writes == copies(
            record,
            false,
            archives(service.router, record.metadata),
        ),
        after_record(service, record).seen.contains(record.fingerprint),
{
}

proof fn lemma_after_records(service: ServiceView, records: Seq<PreparedView>, i: int)
    ensures
        after_records(service, records).router == service.router,
        after_records(service, records).archive_duplicates == service.archive_duplicates,
        0 <= i < records.len() ==> after_records(service, records).seen.contains(
            records[i].fingerprint,
        ),
    decreases records.len(),
{
    if records.len() > 0 {
        lemma_after_records(service, records.drop_last(), i);
    }
}

/// The wrapper parts of an NWWS-OI message.
pub open spec fn wrapper_parts(wrapper_id: Option<Seq<char>>, m: oi::OiMessageView) -> WrapperParts {
    match wrapper_id {
        Some(id) => (Some(id), api::payload_issue(m.payload)),
        None => (None, None),
    }
}

/// The records of the bulletins of a stream from `i` on, appended to `done`.
pub open spec fn prepared_frames(
    transport: TransportKind,
    messages: Seq<Seq<u8>>,
    contents: Seq<NwwsContentView>,
    now: int,
    i: int,
    done: Seq<PreparedView>,
) -> Result<Seq<PreparedView>>
    decreases contents.len() - i,
{
    if i < 0 || i >= contents.len() {
        Ok(done)
    } else {
        match prepared(
            RecordSource::SatellitePid201,
            transport,
            messages[i],
            contents[i],
            (None, None),
            now,
        ) {
            Ok(record) => prepared_frames(
                transport,
                messages,
                contents,
                now,
                i + 1,
                done.push(record),
            ),
            Err(e) => Err(e),
        }
    }
}

/// A single record.
pub open spec fn single(r: Result<PreparedView>) -> Result<Seq<PreparedView>> {
    match r {
        Ok(record) => Ok(seq![record]),
        Err(e) => Err(e),
    }
}

/// The records of an input that was captured at the instant.
pub open spec fn prepare(hint: IngestHint, input: Seq<u8>, now: int) -> Result<Seq<PreparedView>> {
    match ingest::parse_input(hint, input) {
        Err(kind) => Err(RuntimeError::Parse(ParseError { kind })),
        Ok(ParsedInputView::Bulletin { transport, content }) => single(
            prepared(RecordSource::RawBulletin, transport.kind, input, content, (None, None), now),
        ),
        Ok(ParsedInputView::OpenInterface { transport, message, wrapper_id }) => match oi::message_content(
            message,
        ) {
            Err(kind) => Err(RuntimeError::Parse(ParseError { kind })),
            Ok(content) => single(
                prepared(
                    RecordSource::OpenInterface,
                    transport.kind,
                    input,
                    content,
                    wrapper_parts(wrapper_id, message),
                    now,
                ),
            ),
        },
        Ok(ParsedInputView::FramedStream(s)) => match ingest::parse_all(s.messages) {
            Err(kind) => Err(RuntimeError::Parse(ParseError { kind })),
            Ok(contents) => prepared_frames(
                s.transport.kind,
                s.messages,
                contents,
                now,
                0,
                Seq::empty(),
            ),
        },
    }
}

/// The outcome of preparing an input, for contracts.
pub open spec fn prepare_outcome(r: Result<Vec<PreparedRecord>>) -> Result<Seq<PreparedView>> {
    match r {
        Ok(v) => Ok(v.deep_view()),
        Err(e) => Err(e),
    }
}

fn one_record(record: Result<PreparedRecord>) -> (r: Result<Vec<PreparedRecord>>)
    ensures
        prepare_outcome(r) == single(prepared_outcome(record)),
{
    match record {
        Ok(value) => {
            let mut out: Vec<PreparedRecord> = Vec::new();
            out.push(value);
            assert(out.deep_view() =~= seq![value.deep_view()]);
            Ok(out)
        },
        Err(e) => Err(e),
    }
}

fn prepare_frame(
    value: &FramedStreamIngest,
    i: usize,
    content: &NwwsContent,
    now: i128,
) -> (r: Result<PreparedRecord>)
    requires
        i < value.chunks@.len(),
    ensures
        prepared_outcome(r) == prepared(
            RecordSource::SatellitePid201,
            value.transport.kind,
            value.deep_view().messages[i as int],
            content.deep_view(),
            (None, None),
            now as int,
        ),
{
    let raw = stream::copy_bytes(value.chunks[i].bytes.as_slice());
    assert(raw@ == value.deep_view().messages[i as int]);
    record_from_content(
        RecordSource::SatellitePid201,
        value.transport,
        raw,
        content,
        None,
        None,
        now,
    )
}

fn prepare_frames(value: &FramedStreamIngest, contents: &Vec<NwwsContent>, now: i128) -> (r: Result<
    Vec<PreparedRecord>,
>)
    requires
        contents@.len() == value.chunks@.len(),
    ensures
        prepare_outcome(r) == prepared_frames(
            value.transport.kind,
            value.deep_view().messages,
            contents.deep_view(),
            now as int,
            0,
            Seq::empty(),
        ),
{
    let ghost messages = value.deep_view().messages;
    let ghost all = contents.deep_view();
    let ghost kind = value.transport.kind;
    let ghost want = prepared_frames(kind, messages, all, now as int, 0, Seq::empty());
    let mut out: Vec<PreparedRecord> = Vec::new();
    let mut i: usize = 0;
    assert(out.deep_view() =~= Seq::<PreparedView>::empty());
    while i < contents.len()
        invariant
            i <= contents@.len(),
            contents@.len() == value.chunks@.len(),
            all == contents.deep_view(),
            messages == value.deep_view().messages,
            kind == value.transport.kind,
            want == prepared_frames(kind, messages, all, now as int, i as int, out.deep_view()),
        decreases contents.len() - i,
    {
        let ghost before = out.deep_view();
        assert(all[i as int] == contents@[i as int].deep_view());
        match prepare_frame(value, i, &contents[i], now) {
            Ok(record) => {
                out.push(record);
                assert(out.deep_view() =~= before.push(record.deep_view()));
            },
            Err(e) => {
                return Err(e);
            },
        }
        i += 1;
    }
    Ok(out)
}

/// Makes the records of an input that was captured at the instant.
pub fn prepare_records(hint: IngestHint, input: &[u8], now: i128) -> (r: Result<
    Vec<PreparedRecord>,
>)
    ensures
        prepare_outcome(r) == prepare(hint, input@, now as int),
{
    let parsed = match ingest::parse_with_hint(hint, input) {
        Ok(p) => p,
        Err(e) => {
            return Err(RuntimeError::Parse(e));
        },
    };
    match parsed {
        ParsedInput::Bulletin(value) => one_record(
            record_from_content(
                RecordSource::RawBulletin,
                value.transport,
                stream::copy_bytes(input),
                &value.content,
                None,
                None,
                now,
            ),
        ),
        ParsedInput::OpenInterface(value) => {
            let content = match value.content() {
                Ok(c) => c,
                Err(e) => {
                    return Err(RuntimeError::Parse(e));
                },
            };
            let (wrapper_id, wrapper_issue): (Option<String>, Option<String>) = match &value.wrapper {
                Some(w) => (
                    Some(w.id.clone()),
                    match &value.message.payload {
                        Some(p) => p.issue.to_rfc3339(),
                        None => None,
                    },
                ),
                None => (None, None),
            };
            one_record(
                record_from_content(
                    RecordSource::OpenInterface,
                    value.transport,
                    stream::copy_bytes(input),
                    &content,
                    wrapper_id,
                    wrapper_issue,
                    now,
                ),
            )
        },
        ParsedInput::FramedStream(value) => {
            let ghost messages = value.deep_view().messages;
            proof {
                api::lemma_parse_rest_len(messages, 0, Seq::empty());
            }
            let contents = match value.contents() {
                Ok(v) => v,
                Err(e) => {
                    return Err(RuntimeError::Parse(e));
                },
            };
            assert(contents.deep_view().len() == contents@.len());
            assert(messages.len() == value.chunks@.len());
            prepare_frames(&value, &contents, now)
        },
    }
}

/// Archives messages, each fingerprint once.
pub struct IngestService {
    router: MessageRouter,
    dedupe: DedupeStore,
    archive_duplicates: bool,
}

impl View for IngestService {
    type V = ServiceView;

    closed spec fn view(&self) -> ServiceView {
        ServiceView {
            router: self.router.deep_view(),
            seen: self.dedupe@,
            archive_duplicates: self.archive_duplicates,
        }
    }
}

impl IngestService {
    pub closed spec fn spec_index_path(&self) -> Seq<char> {
        self.dedupe.spec_index_path()
    }

    /// A service that archives no duplicates.
    pub fn new(router: MessageRouter, dedupe: DedupeStore) -> (r: IngestService)
        ensures
            r@ == (ServiceView {
                router: router.deep_view(),
                seen: dedupe@,
                archive_duplicates: false,
            }),
            r.spec_index_path() == dedupe.spec_index_path(),
    {
        IngestService { router, dedupe, archive_duplicates: false }
    }

    pub fn set_archive_duplicates(&mut self, archive_duplicates: bool)
        ensures
            final(self)@ == (ServiceView { archive_duplicates, ..old(self)@ }),
            final(self).spec_index_path() == old(self).spec_index_path(),
    {
        self.archive_duplicates = archive_duplicates;
    }

    /// The file that fingerprints are kept in.
    pub fn index_path(&self) -> (r: &str)
        ensures
            r@ == self.spec_index_path(),
    {
        self.dedupe.index_path()
    }

    /// Decides what is to be done about a message.
    pub fn process_record(&mut self, record: PreparedRecord) -> (r: RecordPlan)
        ensures
            r.deep_view() == plan_for(old(self)@, record.deep_view()),
            final(self)@ == after_record(old(self)@, record.deep_view()),
            final(self).spec_index_path() == old(self).spec_index_path(),
    {
        let ghost service = self@;
        let ghost view = record.deep_view();
        let remember = self.dedupe.insert(record.fingerprint.as_str());
        let mut writes: Vec<ArchiveRecord> = Vec::new();
        if !remember && !self.archive_duplicates {
            assert(writes.deep_view() =~= Seq::<ArchiveRecordView>::empty());
            return RecordPlan { record, remember, writes };
        }
        let stores = self.router.archives_for(&record.metadata);
        let ghost all = archives(service.router, view.metadata);
        assert(roots(stores@).len() == stores@.len());
        let mut i: usize = 0;
        while i < stores.len()
            invariant
                i <= stores@.len(),
                all == roots(stores@),
                all.len() == stores@.len(),
                view == record.deep_view(),
                writes@.len() == i,
                forall|k: int|
                    0 <= k < i ==> (#[trigger] writes@[k]).deep_view() == copies(
                        view,
                        !remember,
                        all,
                    )[k],
            decreases stores.len() - i,
        {
            let store: &ArchiveStore = stores[i];
            assert(store.deep_view() == all[i as int]);
            let (raw_path, metadata_path) = store.record_paths(&record);
            let copy = ArchiveRecord {
                fingerprint: record.fingerprint.clone(),
                duplicate: !remember,
                raw_path,
                metadata_path,
                metadata: record.metadata.copy(),
            };
            assert(copy.deep_view() == copies(view, !remember, all)[i as int]);
            writes.push(copy);
            i += 1;
        }
        assert(writes.deep_view() =~= copies(view, !remember, all));
        RecordPlan { record, remember, writes }
    }

    /// Decides what is to be done about an input that was captured at the
    /// instant.
    pub fn process_bytes(&mut self, hint: IngestHint, input: &[u8], now: i128) -> (r: Result<
        ProcessReport,
    >)
        ensures
            match prepare(hint, input@, now as int) {
                Ok(records) => {
                    &&& r matches Ok(report)
                    &&& report.plans.deep_view() == plans_for(old(self)@, records)
                    &&& final(self)@ == after_records(old(self)@, records)
                },
                Err(e) => r == Err::<ProcessReport, RuntimeError>(e) && final(self)@ == old(self)@,
            },
            final(self).spec_index_path() == old(self).spec_index_path(),
    {
        let records = match prepare_records(hint, input, now) {
            Ok(v) => v,
            Err(e) => {
                return Err(e);
            },
        };
        let ghost start = self@;
        let ghost index = self.spec_index_path();
        let ghost all = records.deep_view();
        let mut plans: Vec<RecordPlan> = Vec::new();
        let mut rest = records;
        proof {
            assert(all.take(0) =~= Seq::<PreparedView>::empty());
        }
        let n: usize = rest.len();
        let mut i: usize = 0;
        let ghost left = rest.deep_view();
        assert(left =~= all.skip(0));
        while i < n
            invariant
                i <= n,
                n == all.len(),
                rest@.len() == n - i,
                rest.deep_view() == all.skip(i as int),
                self@ == after_records(start, all.take(i as int)),
                self.spec_index_path() == index,
                plans@.len() == i,
                forall|k: int|
                    0 <= k < i ==> (#[trigger] plans@[k]).deep_view() == plans_for(start, all)[k],
            decreases n - i,
        {
            let ghost before = rest.deep_view();
            let record = rest.remove(0);
            proof {
                assert(before[0] == record.deep_view());
                assert(before[0] == all[i as int]);
                assert(rest.deep_view() =~= before.skip(1));
                assert(before.skip(1) =~= all.skip(i + 1));
                assert(all.take(i + 1).drop_last() =~= all.take(i as int));
                assert(all.take(i + 1).last() == all[i as int]);
            }
            let plan = self.process_record(record);
            assert(plan.deep_view() == plans_for(start, all)[i as int]);
            plans.push(plan);
            i += 1;
        }
        assert(all.take(i as int) =~= all);
        assert(plans.deep_view() =~= plans_for(start, all));
        Ok(ProcessReport { plans })
    }
}

} // verus!
