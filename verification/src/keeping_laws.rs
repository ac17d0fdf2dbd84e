//! What archives promise: which archives a message goes to, where its files
//! lie, what is kept of it, when it counts as seen before, and what the
//! verification of an archive holds its files to.

use vstd::prelude::*;

use crate::api;
use crate::api::InputKind;
use crate::archive;
use crate::archive::{
    ArchiveAction, ImportRecordView, ImportView, PersistStep, VerifyRecordView, VerifyView,
};
use crate::clock;
use crate::digest;
use crate::error::ErrorKind;
use crate::families;
use crate::ingest;
use crate::ingest::{IngestHint, ParsedInputView, TransportDescriptor, TransportKind};
use crate::number;
use crate::oi;
use crate::paths;
use crate::product;
use crate::product::NwwsContentView;
use crate::runtime;
use crate::runtime::{
    MetadataView, PreparedView, RecordSource, RouterView, RuleView, ServiceView,
    WrapperParts,
};
use crate::text;

verus! {

// ---------------------------------------------------------------------------
// Routes
// ---------------------------------------------------------------------------

/// Whether a text begins with another one, character for character.
pub open spec fn begins_with(s: Seq<char>, p: Seq<char>) -> bool {
    p.len() <= s.len() && forall|i: int| 0 <= i < p.len() ==> s[i] == #[trigger] p[i]
}

proof fn lemma_begins(s: Seq<char>, p: Seq<char>)
    ensures
        text::starts_with(s, p) == begins_with(s, p),
{
    if p.len() <= s.len() {
        if begins_with(s, p) {
            assert(s.take(p.len() as int) =~= p);
        } else if text::starts_with(s, p) {
            assert forall|i: int| 0 <= i < p.len() implies s[i] == #[trigger] p[i] by {
                assert(s.take(p.len() as int)[i] == s[i]);
            }
        }
    }
}

/// A rule takes a message exactly if the family, the office and the beginning
/// of the AWIPS identifier are those it gives; what it does not give it does
/// not ask for. A message without an identifier is taken by no rule that
/// gives a beginning.
pub proof fn rules_take_by_family_office_and_beginning(rule: RuleView, m: MetadataView)
    ensures
        runtime::rule_matches(rule, m) <==> {
            &&& rule.family is None || rule.family->0 == m.family
            &&& rule.cccc is None || rule.cccc->0 == m.cccc
            &&& rule.awips_prefix is None || (m.awips_id is Some && begins_with(
                m.awips_id->0,
                rule.awips_prefix->0,
            ))
        },
{
    if rule.awips_prefix is Some && m.awips_id is Some {
        lemma_begins(m.awips_id->0, rule.awips_prefix->0);
    }
}

/// Whether the routes at `picked` are those that take a message, in order.
pub open spec fn are_taking(
    routes: Seq<(RuleView, Seq<char>)>,
    m: MetadataView,
    picked: Seq<int>,
) -> bool {
    &&& forall|k: int|
        0 <= k < picked.len() ==> 0 <= #[trigger] picked[k] < routes.len()
            && runtime::rule_matches(routes[picked[k]].0, m)
    &&& forall|k: int, l: int|
        0 <= k < l < picked.len() ==> #[trigger] picked[k] < #[trigger] picked[l]
    &&& forall|i: int|
        0 <= i < routes.len() && runtime::rule_matches((#[trigger] routes[i]).0, m)
            ==> picked.contains(i)
}

proof fn lemma_taking(routes: Seq<(RuleView, Seq<char>)>, m: MetadataView) -> (picked: Seq<int>)
    ensures
        are_taking(routes, m, picked),
        runtime::matching(routes, m).len() == picked.len(),
        forall|k: int|
            0 <= k < picked.len() ==> runtime::matching(routes, m)[k] == routes[
                #[trigger] picked[k]
            ].1,
    decreases routes.len(),
{
    if routes.len() == 0 {
        Seq::empty()
    } else {
        let rest = routes.drop_last();
        let before = lemma_taking(rest, m);
        assert(forall|i: int| 0 <= i < rest.len() ==> rest[i] == #[trigger] routes[i]);
        let last = routes.len() - 1;
        let all = runtime::matching(routes, m);
        if runtime::rule_matches(routes.last().0, m) {
            let picked = before.push(last);
            assert forall|i: int|
                0 <= i < routes.len() && runtime::rule_matches(
                    (#[trigger] routes[i]).0,
                    m,
                ) implies picked.contains(i) by {
                if i < last {
                    assert(rest[i] == routes[i]);
                    assert(before.contains(i));
                    let k = choose|k: int| 0 <= k < before.len() && before[k] == i;
                    assert(picked[k] == i);
                } else {
                    assert(picked[before.len() as int] == i);
                }
            }
            assert forall|k: int| 0 <= k < picked.len() implies all[k] == routes[
                #[trigger] picked[k]
            ].1 by {
                if k < before.len() {
                    assert(picked[k] == before[k]);
                    assert(rest[before[k]] == routes[before[k]]);
                }
            }
            picked
        } else {
            assert forall|i: int|
                0 <= i < routes.len() && runtime::rule_matches(
                    (#[trigger] routes[i]).0,
                    m,
                ) implies before.contains(i) by {
                assert(rest[i] == routes[i]);
            }
            before
        }
    }
}

/// A message goes to the archives of the routes that take it, once for each
/// and in the order of the routes, and to no other. Where no route takes it,
/// it goes to the default archive alone or, without one, nowhere.
pub proof fn messages_go_where_routes_send_them(router: RouterView, m: MetadataView) -> (picked: Seq<
    int,
>)
    ensures
        are_taking(router.routes, m, picked),
        picked.len() > 0 ==> runtime::archives(router, m).len() == picked.len() && forall|k: int|
            0 <= k < picked.len() ==> runtime::archives(router, m)[k] == router.routes[
                #[trigger] picked[k]
            ].1,
        picked.len() == 0 && router.default_archive is Some ==> runtime::archives(router, m)
            == seq![router.default_archive->0],
        picked.len() == 0 && router.default_archive is None ==> runtime::archives(router, m).len()
            == 0,
{
    lemma_taking(router.routes, m)
}

// ---------------------------------------------------------------------------
// Records
// ---------------------------------------------------------------------------

/// Whether a record is that of a message: it holds the bytes as they came and
/// repeats what the bulletin says.
pub open spec fn keeps(
    r: PreparedView,
    source: RecordSource,
    raw: Seq<u8>,
    content: NwwsContentView,
    wrapper: WrapperParts,
    now: int,
) -> bool {
    let bulletin = content.bulletin;
    &&& r.raw_bytes == raw
    &&& r.fingerprint == digest::fingerprint(bulletin)
    &&& r.metadata.captured_at == clock::utc_text(now)
    &&& r.metadata.source == source
    &&& r.metadata.sequence_number == bulletin.sequence_number
    &&& r.metadata.frame_kind == bulletin.frame_kind.spec_label()
    &&& r.metadata.ttaaii == bulletin.heading.ttaaii
    &&& r.metadata.cccc == bulletin.heading.cccc
    &&& r.metadata.awips_id == bulletin.awips_id
    &&& r.metadata.family == content.product.family
    &&& r.metadata.segment_count == content.product.segments.len()
    &&& r.metadata.wrapper_id == wrapper.0
    &&& r.metadata.wrapper_issue == wrapper.1
    &&& r.day == clock::date_text(clock::calendar(clock::julian_of(now)), seq!['/'])
}

proof fn lemma_keeps(
    source: RecordSource,
    transport: TransportKind,
    raw: Seq<u8>,
    content: NwwsContentView,
    wrapper: WrapperParts,
    now: int,
)
    ensures
        clock::writable(now) ==> (runtime::prepared(
            source,
            transport,
            raw,
            content,
            wrapper,
            now,
        ) matches Ok(r) && keeps(r, source, raw, content, wrapper, now) && r.metadata.transport
            == ingest::transport_text(transport)),
        !clock::writable(now) ==> runtime::prepared(source, transport, raw, content, wrapper, now)
            is Err,
{
    reveal_strlit("/");
    assert("/"@ =~= seq!['/']);
}

proof fn lemma_frames_kept(
    transport: TransportKind,
    messages: Seq<Seq<u8>>,
    contents: Seq<NwwsContentView>,
    now: int,
    i: int,
    done: Seq<PreparedView>,
)
    requires
        clock::writable(now),
        0 <= i <= contents.len(),
        done.len() == i,
        forall|k: int|
            0 <= k < i ==> keeps(
                #[trigger] done[k],
                RecordSource::SatellitePid201,
                messages[k],
                contents[k],
                (None, None),
                now,
            ),
    ensures
        runtime::prepared_frames(transport, messages, contents, now, i, done) matches Ok(all)
            && all.len() == contents.len() && forall|k: int|
            0 <= k < all.len() ==> keeps(
                #[trigger] all[k],
                RecordSource::SatellitePid201,
                messages[k],
                contents[k],
                (None, None),
                now,
            ),
    decreases contents.len() - i,
{
    if i < contents.len() {
        let source = RecordSource::SatellitePid201;
        lemma_keeps(source, transport, messages[i], contents[i], (None, None), now);
        let r = runtime::prepared(source, transport, messages[i], contents[i], (None, None), now);
        lemma_frames_kept(transport, messages, contents, now, i + 1, done.push(r->Ok_0));
    }
}

/// An input that is read at a time that can be written gives records: a
/// bulletin and a message of the open interface one each, whose bytes are
/// those of the input, and a stream one for every frame, whose bytes are those
/// of the frame. An input that is not read gives none, and neither does one
/// with a frame that is not read.
pub proof fn inputs_give_a_record_for_every_message(hint: IngestHint, input: Seq<u8>, now: int)
    requires
        clock::writable(now),
    ensures
        match ingest::parse_input(hint, input) {
            Err(_) => runtime::prepare(hint, input, now) is Err,
            Ok(ParsedInputView::Bulletin { transport, content }) => runtime::prepare(
                hint,
                input,
                now,
            ) matches Ok(all) && all.len() == 1 && keeps(
                all[0],
                RecordSource::RawBulletin,
                input,
                content,
                (None, None),
                now,
            ),
            Ok(ParsedInputView::OpenInterface { transport, message, wrapper_id }) => match oi::message_content(
                message,
            ) {
                Err(_) => runtime::prepare(hint, input, now) is Err,
                Ok(content) => runtime::prepare(hint, input, now) matches Ok(all) && all.len() == 1
                    && keeps(
                    all[0],
                    RecordSource::OpenInterface,
                    input,
                    content,
                    (
                        wrapper_id,
                        if wrapper_id is Some && message.payload is Some {
                            oi::written_issue(message.payload->0)
                        } else {
                            None
                        },
                    ),
                    now,
                ),
            },
            Ok(ParsedInputView::FramedStream(s)) => match ingest::parse_all(s.messages) {
                Err(_) => runtime::prepare(hint, input, now) is Err,
                Ok(contents) => runtime::prepare(hint, input, now) matches Ok(all) && all.len()
                    == contents.len() && forall|k: int|
                    0 <= k < all.len() ==> keeps(
                        #[trigger] all[k],
                        RecordSource::SatellitePid201,
                        s.messages[k],
                        contents[k],
                        (None, None),
                        now,
                    ),
            },
        },
{
    match ingest::parse_input(hint, input) {
        Err(_) => {},
        Ok(ParsedInputView::Bulletin { transport, content }) => {
            lemma_keeps(
                RecordSource::RawBulletin,
                transport.kind,
                input,
                content,
                (None, None),
                now,
            );
        },
        Ok(ParsedInputView::OpenInterface { transport, message, wrapper_id }) => {
            if let Ok(content) = oi::message_content(message) {
                lemma_keeps(
                    RecordSource::OpenInterface,
                    transport.kind,
                    input,
                    content,
                    runtime::wrapper_parts(wrapper_id, message),
                    now,
                );
            }
        },
        Ok(ParsedInputView::FramedStream(s)) => {
            if let Ok(contents) = ingest::parse_all(s.messages) {
                lemma_frames_kept(
                    s.transport.kind,
                    s.messages,
                    contents,
                    now,
                    0,
                    Seq::empty(),
                );
            }
        },
    }
}

/// Whether a message reads as the content.
pub open spec fn reads_as(message: Seq<u8>, content: NwwsContentView) -> bool {
    product::parse_content(message) == Ok::<NwwsContentView, ErrorKind>(content)
}

/// Whether message `k` is the first from `i` on that is not read, and why.
pub open spec fn fails_first(messages: Seq<Seq<u8>>, i: int, k: int, kind: ErrorKind) -> bool {
    &&& i <= k < messages.len()
    &&& product::parse_content(messages[k]) == Err::<NwwsContentView, ErrorKind>(kind)
    &&& forall|j: int| i <= j < k ==> product::parse_content(#[trigger] messages[j]) is Ok
}

#[verifier::spinoff_prover]
#[verifier::rlimit(50)]
proof fn lemma_rest_read(messages: Seq<Seq<u8>>, i: int, done: Seq<NwwsContentView>)
    requires
        0 <= i <= messages.len(),
        done.len() == i,
        forall|k: int| 0 <= k < i ==> reads_as(messages[k], #[trigger] done[k]),
    ensures
        ingest::parse_rest(messages, i, done) matches Ok(all) ==> all.len() == messages.len()
            && forall|k: int| 0 <= k < all.len() ==> reads_as(messages[k], #[trigger] all[k]),
    decreases messages.len() - i,
{
    if i < messages.len() {
        let read = product::parse_content(messages[i]);
        if read is Ok {
            let content = read->Ok_0;
            let more = done.push(content);
            assert(reads_as(messages[i], content));
            assert forall|k: int| 0 <= k < i + 1 implies reads_as(messages[k], #[trigger] more[k]) by {
                if k < i {
                    assert(more[k] == done[k]);
                }
            }
            lemma_rest_read(messages, i + 1, more);
        }
    }
}

#[verifier::spinoff_prover]
#[verifier::rlimit(50)]
proof fn lemma_rest_fails(messages: Seq<Seq<u8>>, i: int, done: Seq<NwwsContentView>) -> (k: int)
    requires
        0 <= i <= messages.len(),
    ensures
        ingest::parse_rest(messages, i, done) matches Err(kind) ==> fails_first(
            messages,
            i,
            k,
            kind,
        ),
    decreases messages.len() - i,
{
    if i < messages.len() {
        let read = product::parse_content(messages[i]);
        if read is Ok {
            lemma_rest_fails(messages, i + 1, done.push(read->Ok_0))
        } else {
            i
        }
    } else {
        i
    }
}

/// All messages of a stream are read, each by itself, or none is: the first
/// one that fails, message `k` here, is why.
pub proof fn streams_are_read_whole_or_fail_at_the_first(messages: Seq<Seq<u8>>) -> (k: int)
    ensures
        ingest::parse_all(messages) matches Ok(all) ==> all.len() == messages.len() && forall|k: int|
            0 <= k < all.len() ==> reads_as(messages[k], #[trigger] all[k]),
        ingest::parse_all(messages) matches Err(kind) ==> fails_first(messages, 0, k, kind),
{
    lemma_rest_read(messages, 0, Seq::empty());
    lemma_rest_fails(messages, 0, Seq::empty())
}

/// What a service does about a message: it remembers the fingerprint exactly
/// if it did not know it, and writes a copy for each archive unless it knew it
/// and keeps no duplicates. Every copy says whether the message was known.
pub proof fn services_remember_what_they_saw(service: ServiceView, record: PreparedView, i: int)
    ensures
        ({
            let plan = runtime::plan_for(service, record);
            let known = service.seen.contains(record.fingerprint);
            let roots = runtime::archives(service.router, record.metadata);
            &&& plan.record == record
            &&& plan.remember == !known
            &&& known && !service.archive_duplicates ==> plan.writes.len() == 0
            &&& !known || service.archive_duplicates ==> plan.writes.len() == roots.len()
            &&& 0 <= i < plan.writes.len() ==> {
                &&& plan.writes[i].duplicate == known
                &&& plan.writes[i].fingerprint == record.fingerprint
                &&& plan.writes[i].metadata == record.metadata
                &&& plan.writes[i].raw_path == runtime::raw_file(roots[i], record)
                &&& plan.writes[i].metadata_path == runtime::metadata_file(roots[i], record)
            }
            &&& forall|f: Seq<char>| #[trigger]
                runtime::after_record(service, record).seen.contains(f) <==> service.seen.contains(
                    f,
                ) || f == record.fingerprint
            &&& runtime::after_record(service, record).router == service.router
            &&& runtime::after_record(service, record).archive_duplicates
                == service.archive_duplicates
        }),
{
}

// ---------------------------------------------------------------------------
// Files
// ---------------------------------------------------------------------------

/// Whether a text can stand below another one in a path: it is not empty and
/// does not end with a slash.
pub open spec fn ends_plainly(s: Seq<char>) -> bool {
    s.len() > 0 && s.last() != '/'
}

proof fn lemma_replaced_plain(s: Seq<char>)
    requires
        s.len() > 0,
    ensures
        ends_plainly(paths::replaced(s)),
{
    let r = paths::replaced(s);
    assert(r.len() == s.len());
    assert(r.last() == r[s.len() - 1]);
}

/// The files of a record lie below the root in directories for the day, the
/// source, the office, the AWIPS identifier (the designator, without one) and
/// the family; they are named by the fingerprint.
pub proof fn records_lie_by_day_source_office_product_and_family(
    root: Seq<char>,
    record: PreparedView,
)
    requires
        ends_plainly(root),
        ends_plainly(record.day),
        record.metadata.cccc.len() > 0,
        record.metadata.ttaaii.len() > 0,
        record.metadata.awips_id matches Some(id) ==> id.len() > 0,
    ensures
        ({
            let m = record.metadata;
            let slash = seq!['/'];
            let product = if m.awips_id is Some {
                m.awips_id->0
            } else {
                m.ttaaii
            };
            let source = match m.source {
                RecordSource::OpenInterface => "open_interface"@,
                RecordSource::RawBulletin => "raw_bulletin"@,
                RecordSource::SatellitePid201 => "pid201"@,
            };
            let extension = match m.source {
                RecordSource::OpenInterface => ".xml"@,
                RecordSource::RawBulletin => ".txt"@,
                RecordSource::SatellitePid201 => ".wmo"@,
            };
            let directory = root + slash + record.day + slash + source + slash + paths::replaced(
                m.cccc,
            ) + slash + paths::replaced(product) + slash + families::family_slug_text(m.family)
                + slash;
            &&& runtime::raw_file(root, record) == directory + record.fingerprint + extension
            &&& runtime::metadata_file(root, record) == directory + record.fingerprint + ".json"@
        }),
{
    let m = record.metadata;
    reveal_strlit("open_interface");
    reveal_strlit("raw_bulletin");
    reveal_strlit("pid201");
    reveal_strlit("xml");
    reveal_strlit("txt");
    reveal_strlit("wmo");
    reveal_strlit(".xml");
    reveal_strlit(".txt");
    reveal_strlit(".wmo");
    assert(seq!['.'] + "xml"@ =~= ".xml"@);
    assert(seq!['.'] + "txt"@ =~= ".txt"@);
    assert(seq!['.'] + "wmo"@ =~= ".wmo"@);
    let product = runtime::awips_or_designator(m);
    lemma_replaced_plain(m.cccc);
    lemma_replaced_plain(product);
    let family = families::family_slug_text(m.family);
    families::slug_is_a_component(m.family);
    paths::component_is_safe(family);
    assert(paths::replaced(family) == family);
    assert(family.len() > 0);
    lemma_replaced_plain(family);
    let slash = seq!['/'];
    let dated = root + slash + record.day;
    assert(runtime::joined(root, record.day) == dated);
    assert(ends_plainly(dated));
    let source = m.source.spec_slug();
    assert(ends_plainly(source));
    let sourced = dated + slash + source;
    assert(runtime::joined(dated, source) == sourced);
    assert(ends_plainly(sourced));
    let office = sourced + slash + paths::replaced(m.cccc);
    assert(ends_plainly(office));
    let awips = office + slash + paths::replaced(product);
    assert(ends_plainly(awips));
    let directory = awips + slash + family;
    assert(ends_plainly(directory));
    assert(runtime::store_directory(root, record.day, m) == directory);
    let f = record.fingerprint;
    assert(directory + slash + (f + seq!['.'] + m.source.spec_extension()) =~= directory + slash
        + f + (seq!['.'] + m.source.spec_extension()));
    assert(directory + slash + (f + ".json"@) =~= directory + slash + f + ".json"@);
}

/// Characters that stand in file names as they are: letters, digits, hyphen,
/// underscore and dot. Every other one becomes an underscore.
pub proof fn names_hold_letters_digits_and_marks(s: Seq<char>, i: int)
    requires
        0 <= i < s.len(),
    ensures
        paths::replaced(s).len() == s.len(),
        paths::replaced(s)[i] == if ('a' <= s[i] <= 'z') || ('A' <= s[i] <= 'Z') || ('0' <= s[i]
            <= '9') || s[i] == '-' || s[i] == '_' || s[i] == '.' {
            s[i]
        } else {
            '_'
        },
        paths::component(s) == paths::replaced(s),
        paths::component(Seq::empty()) == "UNKNOWN"@,
{
}

// ---------------------------------------------------------------------------
// Imports
// ---------------------------------------------------------------------------

/// An imported record repeats what the bulletin says; the text it holds is
/// that of the bulletin.
pub proof fn imported_records_repeat_the_bulletin(
    source: Seq<char>,
    kind: InputKind,
    transport: TransportDescriptor,
    wrapper_id: Option<Seq<char>>,
    content: NwwsContentView,
)
    ensures
        ({
            let r = archive::record_of(source, kind, transport, wrapper_id, content);
            let b = content.bulletin;
            &&& r.source_path == source
            &&& r.input_kind == kind
            &&& r.transport == transport
            &&& r.wrapper_id == wrapper_id
            &&& r.bulletin_text == crate::lines::lf_text(b.bulletin)
            &&& r.sequence_number == b.sequence_number
            &&& r.ttaaii == b.heading.ttaaii
            &&& r.cccc == b.heading.cccc
            &&& r.awips_id == b.awips_id
            &&& r.heading == crate::header::heading_text(b.heading)
            &&& r.family == content.product.family
            &&& r.segment_count == content.product.segments.len()
        }),
{
}

/// An input gives one record for each of its bulletins, record `i` for
/// bulletin `i`: one for a bulletin and for a message of the open interface,
/// and one for every frame of a stream.
pub proof fn inputs_are_imported_whole(source: Seq<char>, parsed: ParsedInputView, i: int)
    ensures
        match parsed {
            ParsedInputView::Bulletin { transport, content } => archive::parsed_records(
                source,
                parsed,
            ) matches Ok(all) && all.len() == 1 && all[0] == archive::record_of(
                source,
                InputKind::Bulletin,
                transport,
                None,
                content,
            ),
            ParsedInputView::OpenInterface { transport, message, wrapper_id } => match oi::message_content(
                message,
            ) {
                Ok(content) => archive::parsed_records(source, parsed) matches Ok(all) && all.len()
                    == 1 && all[0] == archive::record_of(
                    source,
                    InputKind::OpenInterface,
                    transport,
                    wrapper_id,
                    content,
                ),
                Err(kind) => archive::parsed_records(source, parsed) is Err,
            },
            ParsedInputView::FramedStream(s) => match ingest::parse_all(s.messages) {
                Ok(contents) => archive::parsed_records(source, parsed) matches Ok(all) && all.len()
                    == s.messages.len() && (0 <= i < all.len() ==> all[i] == archive::record_of(
                    source,
                    InputKind::FramedStream,
                    s.transport,
                    None,
                    contents[i],
                )),
                Err(kind) => archive::parsed_records(source, parsed) is Err,
            },
        },
{
    if let ParsedInputView::FramedStream(s) = parsed {
        streams_are_read_whole_or_fail_at_the_first(s.messages);
    }
}

/// Where nothing is stored, a bulletin is written; where its own text is
/// stored, it is a duplicate; where another text is stored, the next place is
/// tried.
pub proof fn bulletins_are_written_once(record: ImportRecordView, bytes: Seq<u8>)
    ensures
        archive::persist_step_for(record, None) == PersistStep::Write,
        archive::persist_step_for(record, Some(bytes)) == PersistStep::Duplicate <==> bytes
            == vstd::utf8::encode_utf8(record.bulletin_text),
        archive::persist_step_for(record, Some(bytes)) == PersistStep::Retry <==> bytes
            != vstd::utf8::encode_utf8(record.bulletin_text),
{
}

/// A record is stored by office, designator and AWIPS identifier under the
/// digest of its text; further places add a hyphen and their number.
pub proof fn records_are_stored_by_office_designator_and_identifier(
    record: ImportRecordView,
    attempt: nat,
)
    ensures
        ({
            let directory = "records/"@ + paths::component(record.cccc) + seq!['/']
                + paths::component(record.ttaaii) + seq!['/'] + paths::component(
                match record.awips_id {
                    Some(id) => id,
                    None => "NO-AWIPS"@,
                },
            ) + seq!['/'];
            let stem = digest::digest_text(vstd::utf8::encode_utf8(record.bulletin_text));
            &&& archive::record_path(record, 0) == directory + stem + ".txt"@
            &&& attempt > 0 ==> archive::record_path(record, attempt) == directory + (stem + seq![
                '-',
            ] + number::decimal(attempt)) + ".txt"@
        }),
{
}

/// The line of a record in the manifest: its digest, where it is stored, the
/// kind of input, the transport, sequence number, designator, office, AWIPS
/// identifier, family, number of segments, wrapper identifier and source, with
/// a tab between each two; what is not there leaves its place empty.
pub proof fn manifests_have_a_line_of_twelve_fields(record: ImportRecordView, path: Seq<char>)
    ensures
        ({
            let tab = seq!['\t'];
            let none = Seq::<char>::empty();
            archive::manifest_text(record, path) == digest::digest_text(
                vstd::utf8::encode_utf8(record.bulletin_text),
            ) + tab + path + tab + record.input_kind.spec_label() + tab + ingest::transport_text(
                record.transport.kind,
            ) + tab + (match record.sequence_number {
                Some(n) => number::decimal(n as nat),
                None => none,
            }) + tab + record.ttaaii + tab + record.cccc + tab + (match record.awips_id {
                Some(id) => id,
                None => none,
            }) + tab + families::family_text(record.family) + tab + number::decimal(
                record.segment_count as nat,
            ) + tab + (match record.wrapper_id {
                Some(id) => id,
                None => none,
            }) + tab + paths::table_field(record.source_path)
        }),
{
    reveal_strlit("\t");
    assert("\t"@ =~= seq!['\t']);
    reveal_with_fuel(text::join, 13);
    let fields = archive::manifest_fields(record, path);
    lemma_join_last(fields.take(2), "\t"@);
    assert(fields.take(12) =~= fields);
    assert(text::join(fields.take(1), "\t"@) == fields[0]);
    lemma_join_take(fields, "\t"@, 1);
    lemma_join_take(fields, "\t"@, 2);
    lemma_join_take(fields, "\t"@, 3);
    lemma_join_take(fields, "\t"@, 4);
    lemma_join_take(fields, "\t"@, 5);
    lemma_join_take(fields, "\t"@, 6);
    lemma_join_take(fields, "\t"@, 7);
    lemma_join_take(fields, "\t"@, 8);
    lemma_join_take(fields, "\t"@, 9);
    lemma_join_take(fields, "\t"@, 10);
    lemma_join_take(fields, "\t"@, 11);
}

proof fn lemma_join_last(parts: Seq<Seq<char>>, sep: Seq<char>)
    requires
        parts.len() > 1,
    ensures
        text::join(parts, sep) == text::join(parts.drop_last(), sep) + sep + parts.last(),
{
}

proof fn lemma_join_take(parts: Seq<Seq<char>>, sep: Seq<char>, n: int)
    requires
        1 <= n < parts.len(),
    ensures
        text::join(parts.take(n + 1), sep) == text::join(parts.take(n), sep) + sep + parts[n],
{
    lemma_join_last(parts.take(n + 1), sep);
    assert(parts.take(n + 1).drop_last() =~= parts.take(n));
}

/// A table holds a field on one line: tabs and line ends become spaces, all
/// else stays.
pub proof fn table_fields_stay_on_one_line(s: Seq<char>, i: int)
    requires
        0 <= i < s.len(),
    ensures
        paths::table_field(s).len() == s.len(),
        paths::table_field(s)[i] == if s[i] == '\t' || s[i] == '\r' || s[i] == '\n' {
            ' '
        } else {
            s[i]
        },
{
}

/// An import counts what it did: a stored record among the archived ones, one
/// that was there among the duplicates, and each with what became of it.
pub proof fn outcomes_are_counted_for_what_they_are(
    v: ImportView,
    record: ImportRecordView,
    action: ArchiveAction,
    path: Seq<char>,
)
    requires
        v.archived_records < usize::MAX,
        v.duplicate_records < usize::MAX,
    ensures
        ({
            let w = archive::with_outcome(v, record, action, path);
            &&& action == ArchiveAction::Archived ==> w.archived_records == v.archived_records + 1
                && w.duplicate_records == v.duplicate_records
            &&& action == ArchiveAction::Duplicate ==> w.archived_records == v.archived_records
                && w.duplicate_records == v.duplicate_records + 1
            &&& w.scanned_inputs == v.scanned_inputs
            &&& w.parsed_inputs == v.parsed_inputs
            &&& w.failures == v.failures
            &&& w.errors == v.errors
            &&& w.records.len() == v.records.len() + 1
            &&& w.records.drop_last() == v.records
            &&& w.records.last().source_path == record.source_path
            &&& w.records.last().relative_path == path
            &&& w.records.last().heading == record.heading
            &&& w.records.last().family == families::family_text(record.family)
            &&& w.records.last().action == if action == ArchiveAction::Archived {
                "archived"@
            } else {
                "duplicate"@
            }
        }),
{
    let w = archive::with_outcome(v, record, action, path);
    assert(w.records.drop_last() =~= v.records);
}

/// An import counts its inputs: one that gave records among the parsed ones,
/// one that gave none among the failures, with the reason.
pub proof fn imports_count_their_inputs(
    v: ImportView,
    source: Seq<char>,
    hint: IngestHint,
    bytes: Seq<u8>,
)
    requires
        v.scanned_inputs < usize::MAX,
        v.parsed_inputs < usize::MAX,
        v.failures < usize::MAX,
    ensures
        ({
            let w = archive::with_read_input(v, source, hint, bytes);
            let read = archive::import_records(source, hint, bytes);
            &&& w.scanned_inputs == v.scanned_inputs + 1
            &&& read is Ok ==> w.parsed_inputs == v.parsed_inputs + 1 && w.failures == v.failures
                && w.errors == v.errors && read->Ok_0.len() > 0
            &&& read is Err ==> w.parsed_inputs == v.parsed_inputs && w.failures == v.failures + 1
                && w.errors == v.errors.push((source, read->Err_0))
            &&& w.archived_records == v.archived_records
            &&& w.duplicate_records == v.duplicate_records
            &&& w.records == v.records
        }),
{
}

// ---------------------------------------------------------------------------
// Verification
// ---------------------------------------------------------------------------

/// An archived file is sound exactly if it is one bulletin and its name, up to
/// a hyphen behind it, is the digest of its bytes.
pub proof fn files_are_held_to_their_names(path: Seq<char>, stem: Seq<char>, bytes: Seq<u8>)
    ensures
        ({
            let v = archive::verified(path, stem, bytes);
            let digest = digest::digest_text(bytes);
            let read = api::inspect(IngestHint::RawBulletin, bytes);
            let named = stem == digest || (digest.len() < stem.len() && stem[digest.len() as int]
                == '-' && begins_with(stem, digest));
            &&& v.path == path
            &&& v.error is None <==> read is Ok && read->Ok_0.messages.len() == 1 && named
            &&& v.error is None ==> v.status == "ok"@ && v.heading == Some(
                read->Ok_0.messages[0].heading,
            ) && v.family == Some(read->Ok_0.messages[0].family)
            &&& v.error is Some ==> v.status == "error"@
        }),
{
    let digest = digest::digest_text(bytes);
    let hyphened = digest + seq!['-'];
    lemma_begins(stem, hyphened);
    if begins_with(stem, hyphened) {
        assert forall|i: int| 0 <= i < digest.len() implies stem[i] == #[trigger] digest[i] by {
            assert(hyphened[i] == digest[i]);
        }
        assert(hyphened[digest.len() as int] == '-');
        assert(stem[digest.len() as int] == '-');
    }
    if digest.len() < stem.len() && stem[digest.len() as int] == '-' && begins_with(stem, digest) {
        assert forall|i: int| 0 <= i < hyphened.len() implies stem[i] == #[trigger] hyphened[i] by {
            if i < digest.len() {
                assert(hyphened[i] == digest[i]);
            }
        }
    }
}

/// A verification counts sound files as verified and all others as failures.
pub proof fn verdicts_are_counted_for_what_they_are(v: VerifyView, record: VerifyRecordView)
    requires
        v.verified_records < usize::MAX,
        v.failures < usize::MAX,
    ensures
        ({
            let w = archive::with_verdict(v, record);
            let sound = record.status == "ok"@;
            &&& sound ==> w.verified_records == v.verified_records + 1 && w.failures == v.failures
            &&& !sound ==> w.verified_records == v.verified_records && w.failures == v.failures + 1
            &&& w.records == v.records.push(record)
        }),
{
}

} // verus!
