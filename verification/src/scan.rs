//! Scans of many inputs: what each holds, and counts over all.

use vstd::prelude::*;

use crate::api;
use crate::api::{InputKind, InspectionReport, InspectionView};
use crate::ingest::IngestHint;
use crate::pid201;
use crate::summary::{MessageSummary, MessageSummaryView};
use crate::tally;
use crate::tally::Tally;
use crate::text;
use crate::timeline_report;

verus! {

// ---------------------------------------------------------------------------
// Counts by kind and transport
// ---------------------------------------------------------------------------

/// How many files and messages of one kind came by one transport.
#[derive(Debug, Clone, PartialEq, Eq)]
pub struct ScanCount {
    pub input_kind: InputKind,
    pub transport: &'static str,
    pub files: usize,
    pub messages: usize,
}

pub struct ScanCountView {
    pub input_kind: InputKind,
    pub transport: Seq<char>,
    pub files: usize,
    pub messages: usize,
}

impl DeepView for ScanCount {
    type V = ScanCountView;

    open spec fn deep_view(&self) -> ScanCountView {
        ScanCountView {
            input_kind: self.input_kind,
            transport: self.transport@,
            files: self.files,
            messages: self.messages,
        }
    }
}

/// The place of a kind among the kinds.
pub open spec fn kind_rank(kind: InputKind) -> int {
    match kind {
        InputKind::OpenInterface => 0,
        InputKind::Bulletin => 1,
        InputKind::FramedStream => 2,
    }
}

fn rank_of(kind: InputKind) -> (r: u8)
    ensures
        r == kind_rank(kind),
{
    match kind {
        InputKind::OpenInterface => 0,
        InputKind::Bulletin => 1,
        InputKind::FramedStream => 2,
    }
}

/// Whether a count stands before those of the kind and transport.
pub open spec fn stands_before(c: ScanCountView, kind: InputKind, transport: Seq<char>) -> bool {
    kind_rank(c.input_kind) < kind_rank(kind) || (c.input_kind == kind && tally::before(
        c.transport,
        transport,
    ))
}

/// Whether the counts are in order, with one for each kind and transport.
pub open spec fn counts_in_order(s: Seq<ScanCountView>) -> bool {
    forall|i: int, j: int|
        #![trigger s[i], s[j]]
        0 <= i < j < s.len() ==> stands_before(s[i], s[j].input_kind, s[j].transport)
}

/// The first position from `i` on of a count that does not stand before those
/// of the kind and transport.
pub open spec fn count_place(
    s: Seq<ScanCountView>,
    kind: InputKind,
    transport: Seq<char>,
    i: int,
) -> int
    decreases s.len() - i,
{
    if 0 <= i < s.len() && stands_before(s[i], kind, transport) {
        count_place(s, kind, transport, i + 1)
    } else {
        i
    }
}

/// The counts with one more file of the kind and transport.
pub open spec fn with_file(
    s: Seq<ScanCountView>,
    kind: InputKind,
    transport: Seq<char>,
    messages: usize,
) -> Seq<ScanCountView> {
    let i = count_place(s, kind, transport, 0);
    if i < s.len() && s[i].input_kind == kind && s[i].transport == transport {
        s.update(
            i,
            ScanCountView {
                files: timeline_report::bumped(s[i].files),
                messages: pid201::capped_sum(s[i].messages as int, messages as int) as usize,
                ..s[i]
            },
        )
    } else {
        s.insert(i, ScanCountView { input_kind: kind, transport, files: 1, messages })
    }
}

proof fn lemma_count_place(s: Seq<ScanCountView>, kind: InputKind, transport: Seq<char>, i: int)
    requires
        0 <= i <= s.len(),
    ensures
        ({
            let p = count_place(s, kind, transport, i);
            &&& i <= p <= s.len()
            &&& forall|k: int| i <= k < p ==> stands_before(#[trigger] s[k], kind, transport)
            &&& p < s.len() ==> !stands_before(s[p], kind, transport)
        }),
    decreases s.len() - i,
{
    if i < s.len() && stands_before(s[i], kind, transport) {
        lemma_count_place(s, kind, transport, i + 1);
    }
}

proof fn lemma_stands_before_transitive(a: ScanCountView, b: ScanCountView, c: ScanCountView)
    requires
        stands_before(a, b.input_kind, b.transport),
        stands_before(b, c.input_kind, c.transport),
    ensures
        stands_before(a, c.input_kind, c.transport),
{
    if a.input_kind == b.input_kind && b.input_kind == c.input_kind {
        tally::before_is_transitive(a.transport, b.transport, c.transport);
    }
}

/// Counting keeps the counts in order, with one for each kind and transport.
pub proof fn counts_stay_in_order(
    s: Seq<ScanCountView>,
    kind: InputKind,
    transport: Seq<char>,
    messages: usize,
)
    requires
        counts_in_order(s),
    ensures
        counts_in_order(with_file(s, kind, transport, messages)),
{
    let p = count_place(s, kind, transport, 0);
    let t = with_file(s, kind, transport, messages);
    lemma_count_place(s, kind, transport, 0);
    if p < s.len() && s[p].input_kind == kind && s[p].transport == transport {
        assert(forall|k: int|
            0 <= k < s.len() ==> (#[trigger] t[k]).input_kind == s[k].input_kind && t[k].transport
                == s[k].transport);
    } else {
        let new = ScanCountView { input_kind: kind, transport, files: 1, messages };
        assert(t == s.insert(p, new));
        assert(forall|k: int| 0 <= k < p ==> #[trigger] t[k] == s[k]);
        assert(t[p] == new);
        assert(forall|k: int| p < k < t.len() ==> #[trigger] t[k] == s[k - 1]);
        if p < s.len() {
            tally::before_is_total(s[p].transport, transport);
            assert(stands_before(new, s[p].input_kind, s[p].transport));
        }
        assert forall|i: int, j: int|
            #![trigger t[i], t[j]]
            0 <= i < j < t.len() implies stands_before(t[i], t[j].input_kind, t[j].transport) by {
            if i == p && j > p + 1 {
                lemma_stands_before_transitive(new, s[p], s[j - 1]);
            }
        }
    }
}

/// How many files and how many messages the counts hold together.
pub open spec fn sums(s: Seq<ScanCountView>) -> (int, int)
    decreases s.len(),
{
    if s.len() == 0 {
        (0, 0)
    } else {
        let front = sums(s.drop_last());
        (front.0 + s.last().files, front.1 + s.last().messages)
    }
}

proof fn lemma_sums_update(s: Seq<ScanCountView>, i: int, c: ScanCountView)
    requires
        0 <= i < s.len(),
    ensures
        sums(s.update(i, c)).0 == sums(s).0 - s[i].files + c.files,
        sums(s.update(i, c)).1 == sums(s).1 - s[i].messages + c.messages,
        s[i].files <= sums(s).0,
        s[i].messages <= sums(s).1,
    decreases s.len(),
{
    let t = s.update(i, c);
    lemma_sums_positive(s.drop_last());
    if i == s.len() - 1 {
        assert(t.drop_last() =~= s.drop_last());
    } else {
        lemma_sums_update(s.drop_last(), i, c);
        assert(t.drop_last() =~= s.drop_last().update(i, c));
    }
}

proof fn lemma_sums_positive(s: Seq<ScanCountView>)
    ensures
        sums(s).0 >= 0,
        sums(s).1 >= 0,
    decreases s.len(),
{
    if s.len() > 0 {
        lemma_sums_positive(s.drop_last());
    }
}

proof fn lemma_sums_insert(s: Seq<ScanCountView>, i: int, c: ScanCountView)
    requires
        0 <= i <= s.len(),
    ensures
        sums(s.insert(i, c)).0 == sums(s).0 + c.files,
        sums(s.insert(i, c)).1 == sums(s).1 + c.messages,
    decreases s.len(),
{
    let t = s.insert(i, c);
    if i == s.len() {
        assert(t.drop_last() =~= s);
    } else {
        lemma_sums_insert(s.drop_last(), i, c);
        assert(t.drop_last() =~= s.drop_last().insert(i, c));
    }
}

/// Counting a file adds one file and its messages to the sums of the counts,
/// as far as those can be counted.
pub proof fn counting_adds_file(
    s: Seq<ScanCountView>,
    kind: InputKind,
    transport: Seq<char>,
    messages: usize,
)
    requires
        sums(s).0 < usize::MAX,
        sums(s).1 + messages <= usize::MAX,
    ensures
        sums(with_file(s, kind, transport, messages)) == (sums(s).0 + 1, sums(s).1 + messages),
{
    let p = count_place(s, kind, transport, 0);
    lemma_count_place(s, kind, transport, 0);
    let t = with_file(s, kind, transport, messages);
    if p < s.len() && s[p].input_kind == kind && s[p].transport == transport {
        lemma_sums_update(s, p, t[p]);
    } else {
        lemma_sums_insert(s, p, t[p]);
    }
}

fn count_file(
    counts: &mut Vec<ScanCount>,
    kind: InputKind,
    transport: &'static str,
    messages: usize,
)
    ensures
        final(counts).deep_view() == with_file(
            old(counts).deep_view(),
            kind,
            transport@,
            messages,
        ),
{
    let ghost s = counts.deep_view();
    let chars = text::to_chars(transport);
    let mut i: usize = 0;
    loop
        invariant
            i <= counts@.len(),
            s == counts.deep_view(),
            chars@ == transport@,
            count_place(s, kind, transport@, 0) == count_place(s, kind, transport@, i as int),
        ensures
            i <= counts@.len(),
            i == count_place(s, kind, transport@, 0),
        decreases counts.len() - i,
    {
        if i >= counts.len() {
            break;
        }
        assert(s[i as int] == counts@[i as int].deep_view());
        let other: InputKind = counts[i].input_kind;
        let earlier = rank_of(other) < rank_of(kind) || (other == kind && tally::comes_before(
            counts[i].transport,
            transport,
        ));
        if !earlier {
            break;
        }
        i += 1;
    }
    if i < counts.len() {
        assert(s[i as int] == counts@[i as int].deep_view());
    }
    if i < counts.len() && counts[i].input_kind == kind && text::is_str(
        chars.as_slice(),
        counts[i].transport,
    ) {
        let updated = ScanCount {
            input_kind: kind,
            transport,
            files: timeline_report::bump(counts[i].files),
            messages: counts[i].messages.saturating_add(messages),
        };
        counts.set(i, updated);
        assert(counts.deep_view() =~= s.update(i as int, updated.deep_view()));
    } else {
        let first = ScanCount { input_kind: kind, transport, files: 1, messages };
        counts.insert(i, first);
        assert(counts.deep_view() =~= s.insert(i as int, first.deep_view()));
    }
}

// ---------------------------------------------------------------------------
// Reports
// ---------------------------------------------------------------------------

/// What one file held, or why it could not be read.
#[derive(Debug, Clone, PartialEq, Eq)]
pub struct ScanFileResult {
    pub path: String,
    pub report: Option<InspectionReport>,
    pub error: Option<String>,
}

pub struct ScanFileView {
    pub path: Seq<char>,
    pub report: Option<InspectionView>,
    pub error: Option<Seq<char>>,
}

impl DeepView for ScanFileResult {
    type V = ScanFileView;

    open spec fn deep_view(&self) -> ScanFileView {
        ScanFileView {
            path: self.path@,
            report: self.report.deep_view(),
            error: self.error.deep_view(),
        }
    }
}

/// What a scan found.
#[derive(Debug, Clone, PartialEq, Eq)]
pub struct ScanReport {
    pub root: String,
    pub scanned_files: usize,
    pub parsed_files: usize,
    pub messages: usize,
    pub failures: usize,
    pub counts: Vec<ScanCount>,
    pub families: Tally,
    pub files: Vec<ScanFileResult>,
}

pub struct ScanView {
    pub root: Seq<char>,
    pub scanned_files: usize,
    pub parsed_files: usize,
    pub messages: usize,
    pub failures: usize,
    pub counts: Seq<ScanCountView>,
    pub families: Map<Seq<char>, usize>,
    pub files: Seq<ScanFileView>,
}

impl DeepView for ScanReport {
    type V = ScanView;

    open spec fn deep_view(&self) -> ScanView {
        ScanView {
            root: self.root@,
            scanned_files: self.scanned_files,
            parsed_files: self.parsed_files,
            messages: self.messages,
            failures: self.failures,
            counts: self.counts.deep_view(),
            families: self.families@,
            files: self.files.deep_view(),
        }
    }
}

/// The family counts with those of the messages.
pub open spec fn with_families(
    families: Map<Seq<char>, usize>,
    messages: Seq<MessageSummaryView>,
) -> Map<Seq<char>, usize>
    decreases messages.len(),
{
    if messages.len() == 0 {
        families
    } else {
        tally::counted(with_families(families, messages.drop_last()), messages.last().family)
    }
}

/// The scan with one more file that was read.
pub open spec fn with_report(v: ScanView, path: Seq<char>, report: InspectionView) -> ScanView {
    ScanView {
        scanned_files: timeline_report::bumped(v.scanned_files),
        parsed_files: timeline_report::bumped(v.parsed_files),
        messages: pid201::capped_sum(v.messages as int, report.messages.len() as int) as usize,
        counts: with_file(
            v.counts,
            report.input_kind,
            report.transport.kind,
            report.messages.len() as usize,
        ),
        families: with_families(v.families, report.messages),
        files: v.files.push(ScanFileView { path, report: Some(report), error: None }),
        ..v
    }
}

/// The scan with one more file that could not be read.
pub open spec fn with_failed_file(v: ScanView, path: Seq<char>, error: Seq<char>) -> ScanView {
    ScanView {
        scanned_files: timeline_report::bumped(v.scanned_files),
        failures: timeline_report::bumped(v.failures),
        files: v.files.push(ScanFileView { path, report: None, error: Some(error) }),
        ..v
    }
}

/// The scan with one more file of the bytes. The file is listed under `name`,
/// the report names its whole `path`.
pub open spec fn with_scanned(
    v: ScanView,
    name: Seq<char>,
    path: Seq<char>,
    hint: IngestHint,
    bytes: Seq<u8>,
) -> ScanView {
    match api::inspect(hint, bytes) {
        Ok(report) => with_report(v, name, InspectionView { path: Some(path), ..report }),
        Err(e) => with_failed_file(v, name, e.spec_message()),
    }
}

/// Whether the numbers of a scan fit together: every file was read or failed,
/// the counts hold the files that were read with their messages, and the
/// families hold every message once.
pub open spec fn adds_up(v: ScanView) -> bool {
    &&& v.parsed_files + v.failures == v.scanned_files
    &&& v.files.len() == v.scanned_files
    &&& sums(v.counts) == (v.parsed_files as int, v.messages as int)
    &&& v.families.dom().finite()
    &&& tally::total(v.families) == v.messages
}

/// A scan of nothing adds up.
pub proof fn empty_scan_adds_up(root: Seq<char>)
    ensures
        adds_up(
            (ScanView {
                root,
                scanned_files: 0,
                parsed_files: 0,
                messages: 0,
                failures: 0,
                counts: Seq::empty(),
                families: Map::empty(),
                files: Seq::empty(),
            }),
        ),
{
    tally::empty_total();
}

proof fn lemma_families_total(families: Map<Seq<char>, usize>, messages: Seq<MessageSummaryView>)
    requires
        families.dom().finite(),
        tally::total(families) + messages.len() <= usize::MAX,
    ensures
        with_families(families, messages).dom().finite(),
        tally::total(with_families(families, messages)) == tally::total(families) + messages.len(),
    decreases messages.len(),
{
    if messages.len() > 0 {
        lemma_families_total(families, messages.drop_last());
        tally::counting_adds_one(
            with_families(families, messages.drop_last()),
            messages.last().family,
        );
    }
}

/// A scan that adds up still does so with one more file that was read, as far
/// as files and messages can be counted.
pub proof fn read_file_adds_up(v: ScanView, path: Seq<char>, report: InspectionView)
    requires
        adds_up(v),
        v.scanned_files < usize::MAX,
        v.messages + report.messages.len() <= usize::MAX,
    ensures
        adds_up(with_report(v, path, report)),
{
    counting_adds_file(
        v.counts,
        report.input_kind,
        report.transport.kind,
        report.messages.len() as usize,
    );
    lemma_families_total(v.families, report.messages);
}

/// A scan that adds up still does so with one more file that could not be
/// read, as far as files can be counted.
pub proof fn failed_file_adds_up(v: ScanView, path: Seq<char>, error: Seq<char>)
    requires
        adds_up(v),
        v.scanned_files < usize::MAX,
    ensures
        adds_up(with_failed_file(v, path, error)),
{
}

fn count_families(families: &mut Tally, messages: &Vec<MessageSummary>)
    ensures
        final(families)@ == with_families(old(families)@, messages.deep_view()),
{
    let ghost start = families@;
    let ghost all = messages.deep_view();
    let mut i: usize = 0;
    while i < messages.len()
        invariant
            i <= messages@.len(),
            all == messages.deep_view(),
            families@ == with_families(start, all.take(i as int)),
        decreases messages.len() - i,
    {
        assert(all.take(i + 1).drop_last() =~= all.take(i as int));
        families.bump(messages[i].family.as_str());
        i += 1;
    }
    assert(all.take(i as int) =~= all);
}

impl ScanReport {
    /// A scan of nothing yet.
    pub fn new(root: String) -> (r: ScanReport)
        ensures
            r.deep_view() == (ScanView {
                root: root@,
                scanned_files: 0,
                parsed_files: 0,
                messages: 0,
                failures: 0,
                counts: Seq::empty(),
                families: Map::empty(),
                files: Seq::empty(),
            }),
    {
        let r = ScanReport {
            root,
            scanned_files: 0,
            parsed_files: 0,
            messages: 0,
            failures: 0,
            counts: Vec::new(),
            families: Tally::new(),
            files: Vec::new(),
        };
        assert(r.counts.deep_view() =~= Seq::<ScanCountView>::empty());
        assert(r.files.deep_view() =~= Seq::<ScanFileView>::empty());
        r
    }

    /// Adds what a file held.
    pub fn add_report(&mut self, path: String, report: InspectionReport)
        ensures
            final(self).deep_view() == with_report(old(self).deep_view(), path@, report.deep_view()),
    {
        let ghost before = self.files.deep_view();
        let n: usize = report.messages.len();
        assert(report.messages.deep_view().len() == n);
        self.scanned_files = timeline_report::bump(self.scanned_files);
        self.parsed_files = timeline_report::bump(self.parsed_files);
        self.messages = self.messages.saturating_add(n);
        count_file(&mut self.counts, report.input_kind, report.transport.kind, n);
        count_families(&mut self.families, &report.messages);
        let file = ScanFileResult { path, report: Some(report), error: None };
        self.files.push(file);
        assert(self.files.deep_view() =~= before.push(file.deep_view()));
    }

    /// Adds a file that could not be read.
    pub fn add_failure(&mut self, path: String, error: String)
        ensures
            final(self).deep_view() == with_failed_file(old(self).deep_view(), path@, error@),
    {
        let ghost before = self.files.deep_view();
        self.scanned_files = timeline_report::bump(self.scanned_files);
        self.failures = timeline_report::bump(self.failures);
        let file = ScanFileResult { path, report: None, error: Some(error) };
        self.files.push(file);
        assert(self.files.deep_view() =~= before.push(file.deep_view()));
    }

    /// Inspects a file and adds what it held.
    pub fn add_input(&mut self, name: String, path: &str, hint: IngestHint, bytes: &[u8])
        ensures
            final(self).deep_view() == with_scanned(
                old(self).deep_view(),
                name@,
                path@,
                hint,
                bytes@,
            ),
    {
        match api::inspect_bytes(bytes, hint) {
            Ok(report) => {
                let mut report = report;
                let ghost found = report.deep_view();
                report.path = Some(path.to_owned());
                assert(report.deep_view() == InspectionView { path: Some(path@), ..found });
                self.add_report(name, report);
            },
            Err(e) => {
                self.add_failure(name, e.message());
            },
        }
    }
}

} // verus!
