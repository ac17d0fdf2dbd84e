//! Warning timelines over many inputs.

use vstd::prelude::*;

use crate::active;
use crate::active::ActiveWarningReport;
use crate::clock;
use crate::error::{ErrorKind, ParseError};
use crate::ingest;
use crate::ingest::{FramedStreamIngest, FramedStreamView, IngestHint, ParsedInput, ParsedInputView};
use crate::issue_time;
use crate::number;
use crate::oi;
use crate::product;
use crate::product::NwwsContent;
use crate::text;
use crate::timeline;
use crate::warning;
use crate::warning::{
    ContextView, MessageContext, RecordView, StateView, TimelineRecordState, WarningByteRange,
    WarningTimelineRecord,
};

verus! {

/// An input that could not be used.
#[derive(Debug, Clone, PartialEq, Eq)]
pub struct WarningTimelineFailure {
    pub path: String,
    pub error: String,
}

/// What a failure holds: path and message.
impl DeepView for WarningTimelineFailure {
    type V = (Seq<char>, Seq<char>);

    open spec fn deep_view(&self) -> (Seq<char>, Seq<char>) {
        (self.path@, self.error@)
    }
}

/// The timeline of a set of inputs.
#[derive(Debug, Clone, PartialEq, Eq)]
pub struct WarningTimelineReport {
    pub root: String,
    pub query_time_utc: Option<String>,
    pub scanned_files: usize,
    pub parsed_files: usize,
    pub messages: usize,
    pub warning_records: usize,
    pub failures: usize,
    pub records: Vec<WarningTimelineRecord>,
    pub errors: Vec<WarningTimelineFailure>,
}

/// `n + 1`, as far as it can be counted.
pub open spec fn bumped(n: usize) -> usize {
    if n < usize::MAX {
        (n + 1) as usize
    } else {
        n
    }
}

pub fn bump(n: usize) -> (r: usize)
    ensures
        r == bumped(n),
{
    if n < usize::MAX {
        n + 1
    } else {
        n
    }
}

/// What was gathered from the inputs so far.
pub struct GatheredView {
    pub query_time: Option<int>,
    pub scanned: usize,
    pub parsed: usize,
    pub messages: usize,
    pub failures: usize,
    pub states: Seq<StateView>,
    pub errors: Seq<(Seq<char>, Seq<char>)>,
}

/// One more failure.
pub open spec fn with_failure(g: GatheredView, path: Seq<char>, error: Seq<char>) -> GatheredView {
    GatheredView { failures: bumped(g.failures), errors: g.errors.push((path, error)), ..g }
}

/// One more message.
pub open spec fn with_message(
    g: GatheredView,
    ctx: ContextView,
    content: product::NwwsContentView,
) -> GatheredView {
    GatheredView {
        messages: bumped(g.messages),
        states: g.states + warning::message_states(ctx, content),
        ..g
    }
}

/// The name of a hint.
pub open spec fn hint_text(hint: IngestHint) -> Seq<char> {
    match hint {
        IngestHint::Auto => "Auto"@,
        IngestHint::OpenInterface => "OpenInterface"@,
        IngestHint::SatellitePid201 => "SatellitePid201"@,
        IngestHint::RawBulletin => "RawBulletin"@,
        IngestHint::FramedStream => "FramedStream"@,
    }
}

pub fn hint_name(hint: IngestHint) -> (r: &'static str)
    ensures
        r@ == hint_text(hint),
{
    match hint {
        IngestHint::Auto => "Auto",
        IngestHint::OpenInterface => "OpenInterface",
        IngestHint::SatellitePid201 => "SatellitePid201",
        IngestHint::RawBulletin => "RawBulletin",
        IngestHint::FramedStream => "FramedStream",
    }
}

/// The message of a parse error.
pub open spec fn error_text(kind: ErrorKind) -> Seq<char> {
    (ParseError { kind }).spec_message()
}

pub open spec fn parse_failure_text(hint: IngestHint, kind: ErrorKind) -> Seq<char> {
    "failed to parse with "@ + hint_text(hint) + ": "@ + error_text(kind)
}

/// Says that an input could not be parsed.
pub fn parse_failure(hint: IngestHint, e: &ParseError) -> (r: String)
    ensures
        r@ == parse_failure_text(hint, e.kind),
{
    let mut v: Vec<char> = Vec::new();
    text::push_str(&mut v, "failed to parse with ");
    text::push_str(&mut v, hint_name(hint));
    text::push_str(&mut v, ": ");
    let m = e.message();
    text::push_str(&mut v, m.as_str());
    assert(v@ =~= parse_failure_text(hint, e.kind));
    text::to_text(v.as_slice())
}

pub open spec fn frame_failure_text(n: int, kind: ErrorKind) -> Seq<char> {
    "failed to parse framed message "@ + number::decimal(n as nat) + ": "@ + error_text(kind)
}

fn frame_failure(n: usize, e: &ParseError) -> (r: String)
    ensures
        r@ == frame_failure_text(n as int, e.kind),
{
    let mut v: Vec<char> = Vec::new();
    text::push_str(&mut v, "failed to parse framed message ");
    let d = number::to_decimal(n as u64);
    text::push_all(&mut v, d.as_slice());
    text::push_str(&mut v, ": ");
    let m = e.message();
    text::push_str(&mut v, m.as_str());
    assert(v@ =~= frame_failure_text(n as int, e.kind));
    text::to_text(v.as_slice())
}

/// What the messages of a stream from number `i` on add.
pub open spec fn with_frames(
    g: GatheredView,
    path: Seq<char>,
    stream: FramedStreamView,
    i: int,
) -> GatheredView
    decreases stream.messages.len() - i,
{
    if i < 0 || i >= stream.messages.len() {
        g
    } else {
        let next = match product::parse_content(stream.messages[i]) {
            Ok(content) => with_message(
                g,
                ContextView {
                    source_path: path,
                    byte_range: Some(
                        WarningByteRange {
                            start: stream.ranges[i].0 as usize,
                            end: stream.ranges[i].1 as usize,
                        },
                    ),
                    message_index: i + 1,
                    wrapper_id: None,
                    wrapper_issue: None,
                    query_time: g.query_time,
                },
                content,
            ),
            Err(kind) => with_failure(g, path, frame_failure_text(i + 1, kind)),
        };
        with_frames(next, path, stream, i + 1)
    }
}

/// The context of the only message of an input.
pub open spec fn single_context(
    g: GatheredView,
    path: Seq<char>,
    wrapper_id: Option<Seq<char>>,
    wrapper_issue: Option<int>,
) -> ContextView {
    ContextView {
        source_path: path,
        byte_range: None,
        message_index: 1,
        wrapper_id,
        wrapper_issue,
        query_time: g.query_time,
    }
}

pub open spec fn payload_instant(m: oi::OiMessageView) -> Option<int> {
    match m.payload {
        Some(p) => Some(p.instant),
        None => None,
    }
}

/// What a parsed input adds.
pub open spec fn with_parsed(
    g: GatheredView,
    path: Seq<char>,
    parsed: ParsedInputView,
) -> GatheredView {
    match parsed {
        ParsedInputView::Bulletin { transport, content } => with_message(
            GatheredView { parsed: bumped(g.parsed), ..g },
            single_context(g, path, None, None),
            content,
        ),
        ParsedInputView::OpenInterface { transport, message, wrapper_id } => match oi::message_content(
            message,
        ) {
            Ok(content) => with_message(
                GatheredView { parsed: bumped(g.parsed), ..g },
                single_context(g, path, wrapper_id, payload_instant(message)),
                content,
            ),
            Err(kind) => with_failure(g, path, error_text(kind)),
        },
        ParsedInputView::FramedStream(stream) => if stream.messages.len() == 0 {
            with_failure(g, path, "no framed messages detected in stream"@)
        } else {
            with_frames(
                GatheredView { parsed: bumped(g.parsed), ..g },
                path,
                stream,
                0,
            )
        },
    }
}

/// What an input adds.
pub open spec fn with_input(
    g: GatheredView,
    path: Seq<char>,
    hint: IngestHint,
    bytes: Seq<u8>,
) -> GatheredView {
    let scanned = GatheredView { scanned: bumped(g.scanned), ..g };
    match ingest::parse_input(hint, bytes) {
        Ok(parsed) => with_parsed(scanned, path, parsed),
        Err(kind) => with_failure(scanned, path, parse_failure_text(hint, kind)),
    }
}

/// What an input that cannot be read adds.
pub open spec fn with_unreadable(g: GatheredView, path: Seq<char>, error: Seq<char>) -> GatheredView {
    with_failure(
        GatheredView { scanned: bumped(g.scanned), ..g },
        path,
        "failed to read: "@ + error,
    )
}

/// The records of what was gathered, in order, with their state at the query
/// time if there is one.
pub open spec fn final_states(g: GatheredView) -> Seq<StateView> {
    let ordered = timeline::sorted(g.states);
    match g.query_time {
        Some(q) => timeline::with_statuses(ordered, q),
        None => ordered,
    }
}

/// The records of the states.
pub open spec fn records_of(states: Seq<StateView>) -> Seq<RecordView> {
    Seq::new(states.len(), |i: int| states[i].record)
}

/// Gathers a timeline from inputs one by one.
pub struct TimelineBuilder {
    root: String,
    query_time: Option<i128>,
    scanned: usize,
    parsed: usize,
    messages: usize,
    failures: usize,
    states: Vec<TimelineRecordState>,
    errors: Vec<WarningTimelineFailure>,
}

impl View for TimelineBuilder {
    type V = GatheredView;

    closed spec fn view(&self) -> GatheredView {
        GatheredView {
            query_time: clock::opt_int(self.query_time),
            scanned: self.scanned,
            parsed: self.parsed,
            messages: self.messages,
            failures: self.failures,
            states: self.states.deep_view(),
            errors: self.errors.deep_view(),
        }
    }
}

impl TimelineBuilder {
    /// The query time, if any, is one of a representable date.
    #[verifier::type_invariant]
    spec fn query_in_range(self) -> bool {
        issue_time::opt_representable(self.query_time)
    }

    pub closed spec fn spec_root(&self) -> Seq<char> {
        self.root@
    }

    /// An empty timeline.
    pub fn new(root: String, query_time: Option<i128>) -> (r: TimelineBuilder)
        requires
            issue_time::opt_representable(query_time),
        ensures
            r.spec_root() == root@,
            r@ == (GatheredView {
                query_time: clock::opt_int(query_time),
                scanned: 0,
                parsed: 0,
                messages: 0,
                failures: 0,
                states: Seq::empty(),
                errors: Seq::empty(),
            }),
    {
        let r = TimelineBuilder {
            root,
            query_time,
            scanned: 0,
            parsed: 0,
            messages: 0,
            failures: 0,
            states: Vec::new(),
            errors: Vec::new(),
        };
        proof {
            assert(r@.states =~= Seq::<StateView>::empty());
            assert(r@.errors =~= Seq::<(Seq<char>, Seq<char>)>::empty());
        }
        r
    }

    fn fail(&mut self, path: &str, error: String)
        ensures
            final(self)@ == with_failure(old(self)@, path@, error@),
            final(self).spec_root() == old(self).spec_root(),
    {
        proof {
            use_type_invariant(&*self);
        }
        let ghost before = self.errors.deep_view();
        self.failures = bump(self.failures);
        let failure = WarningTimelineFailure { path: path.to_owned(), error };
        let mut errors: Vec<WarningTimelineFailure> = Vec::new();
        std::mem::swap(&mut errors, &mut self.errors);
        errors.push(failure);
        assert(errors.deep_view() =~= before.push(failure.deep_view()));
        self.errors = errors;
    }

    fn add_message(&mut self, ctx: &MessageContext, content: &NwwsContent)
        requires
            ctx.deep_view().query_time == old(self)@.query_time,
        ensures
            final(self)@ == with_message(old(self)@, ctx.deep_view(), content.deep_view()),
            final(self).spec_root() == old(self).spec_root(),
    {
        proof {
            use_type_invariant(&*self);
        }
        self.messages = bump(self.messages);
        let mut states: Vec<TimelineRecordState> = Vec::new();
        std::mem::swap(&mut states, &mut self.states);
        warning::collect_content_records(ctx, content, &mut states);
        self.states = states;
    }

    /// Notes an input that cannot be read.
    pub fn read_failed(&mut self, path: &str, error: &str)
        ensures
            final(self)@ == with_unreadable(old(self)@, path@, error@),
            final(self).spec_root() == old(self).spec_root(),
    {
        proof {
            use_type_invariant(&*self);
        }
        self.scanned = bump(self.scanned);
        let mut v: Vec<char> = Vec::new();
        text::push_str(&mut v, "failed to read: ");
        text::push_str(&mut v, error);
        assert(v@ =~= "failed to read: "@ + error@);
        self.fail(path, text::to_text(v.as_slice()));
    }

    /// Adds an input.
    pub fn add_input(&mut self, path: &str, hint: IngestHint, bytes: &[u8])
        ensures
            final(self)@ == with_input(old(self)@, path@, hint, bytes@),
            final(self).spec_root() == old(self).spec_root(),
    {
        proof {
            use_type_invariant(&*self);
        }
        self.scanned = bump(self.scanned);
        match ingest::parse_with_hint(hint, bytes) {
            Ok(parsed) => {
                self.collect_parsed_records(path, parsed);
            },
            Err(e) => {
                let message = parse_failure(hint, &e);
                self.fail(path, message);
            },
        }
    }

    fn collect_parsed_records(&mut self, path: &str, parsed: ParsedInput)
        ensures
            final(self)@ == with_parsed(old(self)@, path@, parsed.deep_view()),
            final(self).spec_root() == old(self).spec_root(),
    {
        proof {
            use_type_invariant(&*self);
        }
        match parsed {
            ParsedInput::Bulletin(value) => {
                self.parsed = bump(self.parsed);
                let ctx = MessageContext {
                    source_path: path.to_owned(),
                    byte_range: None,
                    message_index: 1,
                    wrapper_id: None,
                    wrapper_issue: None,
                    query_time: self.query_time,
                };
                self.add_message(&ctx, &value.content);
            },
            ParsedInput::OpenInterface(value) => match value.content() {
                Ok(content) => {
                    self.parsed = bump(self.parsed);
                    let wrapper_issue = match &value.message.payload {
                        Some(p) => Some(p.issue.nanos()),
                        None => None,
                    };
                    let wrapper_id = match &value.wrapper {
                        Some(w) => Some(w.id.clone()),
                        None => None,
                    };
                    let ctx = MessageContext {
                        source_path: path.to_owned(),
                        byte_range: None,
                        message_index: 1,
                        wrapper_id,
                        wrapper_issue,
                        query_time: self.query_time,
                    };
                    self.add_message(&ctx, &content);
                },
                Err(e) => {
                    let message = e.message();
                    self.fail(path, message);
                },
            },
            ParsedInput::FramedStream(value) => {
                if value.chunks.len() == 0 {
                    self.fail(path, "no framed messages detected in stream".to_owned());
                } else {
                    self.parsed = bump(self.parsed);
                    self.add_frames(path, &value);
                }
            },
        }
    }

    fn add_frames(&mut self, path: &str, stream: &FramedStreamIngest)
        ensures
            final(self)@ == with_frames(old(self)@, path@, stream.deep_view(), 0),
            final(self).spec_root() == old(self).spec_root(),
    {
        let ghost start = self@;
        let ghost root = self.spec_root();
        let ghost view = stream.deep_view();
        let mut i: usize = 0;
        while i < stream.chunks.len()
            invariant
                i <= stream.chunks@.len(),
                view == stream.deep_view(),
                self.spec_root() == root,
                with_frames(start, path@, view, 0) == with_frames(
                    self@,
                    path@,
                    view,
                    i as int,
                ),
            decreases stream.chunks.len() - i,
        {
            proof {
                use_type_invariant(&*self);
            }
            let chunk = &stream.chunks[i];
            assert(view.messages[i as int] == chunk.bytes@);
            assert(view.ranges[i as int] == (chunk.start as int, chunk.end as int));
            match NwwsContent::parse_bulletin(chunk.bytes.as_slice()) {
                Ok(content) => {
                    let ctx = MessageContext {
                        source_path: path.to_owned(),
                        byte_range: Some(WarningByteRange { start: chunk.start, end: chunk.end }),
                        message_index: i + 1,
                        wrapper_id: None,
                        wrapper_issue: None,
                        query_time: self.query_time,
                    };
                    self.add_message(&ctx, &content);
                },
                Err(e) => {
                    let message = frame_failure(i + 1, &e);
                    self.fail(path, message);
                },
            }
            i += 1;
        }
    }

    /// The warnings in effect at the query time, if there is one.
    pub fn finish_active(self) -> (r: Option<ActiveWarningReport>)
        ensures
            match r {
                Some(report) => self@.query_time matches Some(q) && {
                    &&& report.root@ == self.spec_root()
                    &&& report.reference_utc.deep_view() == clock::written(Some(q))
                    &&& report.scanned_files == self@.scanned
                    &&& report.parsed_files == self@.parsed
                    &&& report.messages == self@.messages
                    &&& report.warning_vtec_segments == self@.states.len()
                    &&& report.future_messages == active::future_messages(
                        self@.states,
                        q,
                        self@.states.len() as int,
                    )
                    &&& report.failures == self@.failures
                    &&& report.records.deep_view() == active::active_records(
                        timeline::sorted(self@.states),
                        q,
                    )
                    &&& report.active_records == report.records@.len()
                    &&& report.errors.deep_view() == self@.errors
                },
                None => self@.query_time is None,
            },
    {
        match self.query_time {
            Some(q) => {
                let future_messages: usize = active::count_future_messages(&self.states, q);
                let warning_vtec_segments: usize = self.states.len();
                let ordered = timeline::sort_states(self.states);
                let records = active::collect_active(&ordered, q);
                Some(
                    ActiveWarningReport {
                        root: self.root,
                        reference_utc: clock::write_opt(Some(q)),
                        scanned_files: self.scanned,
                        parsed_files: self.parsed,
                        messages: self.messages,
                        warning_vtec_segments,
                        future_messages,
                        active_records: records.len(),
                        failures: self.failures,
                        records,
                        errors: self.errors,
                    },
                )
            },
            None => None,
        }
    }

    /// The report on everything that was gathered.
    pub fn finish(self) -> (r: WarningTimelineReport)
        ensures
            r.root@ == self.spec_root(),
            r.query_time_utc.deep_view() == clock::written(self@.query_time),
            r.scanned_files == self@.scanned,
            r.parsed_files == self@.parsed,
            r.messages == self@.messages,
            r.failures == self@.failures,
            r.records.deep_view() == records_of(final_states(self@)),
            r.warning_records == self@.states.len(),
            r.errors.deep_view() == self@.errors,
    {
        let ghost g = self@;
        let TimelineBuilder {
            root,
            query_time,
            scanned,
            parsed,
            messages,
            failures,
            states,
            errors,
        } = self;
        let mut ordered = timeline::sort_states(states);
        proof {
            timeline::sorted_is_in_order(g.states);
        }
        if let Some(q) = query_time {
            timeline::apply_lifecycle_statuses(&mut ordered, q);
        }
        let ghost done = ordered.deep_view();
        assert(done == final_states(g));
        let warning_records: usize = ordered.len();
        let mut records: Vec<WarningTimelineRecord> = Vec::new();
        let mut reversed: Vec<WarningTimelineRecord> = Vec::new();
        let ghost input = ordered@;
        while ordered.len() > 0
            invariant
                ordered@.len() <= input.len(),
                ordered@ == input.take(ordered@.len() as int),
                reversed@.len() == input.len() - ordered@.len(),
                forall|i: int|
                    0 <= i < reversed@.len() ==> #[trigger] reversed@[i] == input[input.len() - 1
                        - i].record,
            decreases ordered.len(),
        {
            let ghost n = ordered@.len() as int;
            if let Some(state) = ordered.pop() {
                assert(state == input[n - 1]);
                reversed.push(state.record);
                assert(ordered@ =~= input.take(n - 1));
            }
        }
        while reversed.len() > 0
            invariant
                records@.len() + reversed@.len() == input.len(),
                forall|i: int|
                    0 <= i < reversed@.len() ==> #[trigger] reversed@[i] == input[input.len() - 1
                        - i].record,
                forall|i: int|
                    0 <= i < records@.len() ==> #[trigger] records@[i] == input[i].record,
            decreases reversed.len(),
        {
            if let Some(record) = reversed.pop() {
                records.push(record);
            }
        }
        assert forall|i: int| 0 <= i < done.len() implies records.deep_view()[i]
            == done[i].record by {
            assert(records@[i] == input[i].record);
        }
        assert(records.deep_view() =~= records_of(done));
        WarningTimelineReport {
            root,
            query_time_utc: clock::write_opt(query_time),
            scanned_files: scanned,
            parsed_files: parsed,
            messages,
            warning_records,
            failures,
            records,
            errors,
        }
    }
}

} // verus!
