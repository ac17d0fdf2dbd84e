//! What archives promise: what was imported verifies, and a bulletin is one
//! record whatever transport it came by.

use vstd::prelude::*;

use crate::api::InputKind;
use crate::archive;
use crate::archive::{ImportRecordView, VerifyView};
use crate::digest;
use crate::error::ErrorKind;
use crate::families;
use crate::framing;
use crate::ingest;
use crate::ingest::{IngestHint, ParsedInputView, TransportDescriptor};
use crate::line_ends;
use crate::lines;
use crate::oi;
use crate::oi::OiPayloadView;
use crate::product;
use crate::product::NwwsContentView;
use crate::summary;
use crate::summary::{ByteRange, WrapperSummaryView};
use crate::text;
use crate::wmo;
use crate::wmo::{WmoFrameKind, WmoMessageView};

verus! {

/// Whether a bulletin with its product was read from the text.
pub open spec fn read_from(t: Seq<char>, content: NwwsContentView) -> bool {
    &&& wmo::parse_text(t) == Ok::<WmoMessageView, ErrorKind>(content.bulletin)
    &&& product::content_of(content.bulletin) == Ok::<NwwsContentView, ErrorKind>(content)
}

/// What is archived of a bulletin reads again as that bulletin, bare, with
/// line feeds alone between its lines.
pub proof fn archived_text_reads_again(t: Seq<char>, m: WmoMessageView)
    requires
        wmo::parse_text(t) == Ok::<WmoMessageView, ErrorKind>(m),
    ensures
        wmo::parse_text(archive::archived_text(m.bulletin)) == Ok::<WmoMessageView, ErrorKind>(
            WmoMessageView {
                bulletin: archive::archived_text(m.bulletin),
                body: lines::lf_text(m.body),
                frame_kind: WmoFrameKind::Bare,
                ..m
            },
        ),
{
    let b = m.bulletin;
    let r = lines::lf_text(b);
    framing::bulletin_text_reads_again(t, m);
    let s = text::trim(t);
    framing::lemma_trim_idempotent(t);
    if s.len() > 0 && s[0] == '\x01' {
        framing::lemma_trim_idempotent(s.subrange(1, s.len() - 1));
    }
    assert(text::trim(b) == b);
    if b.len() > 0 && text::is_white(b[0]) {
        text::lemma_trim_start(b.skip(1));
        line_ends::lemma_trim_end_parts(text::trim_start(b));
        assert(false);
    }
    line_ends::lemma_lf_trim(b);
    line_ends::lemma_lf_head(b);
    line_ends::lemma_lf_first_line(b);
    let rest = wmo::after_sequence(b);
    line_ends::lemma_lf_trim_start(text::after_line(b));
    assert(wmo::after_sequence(r) == lines::lf_text(rest));
    line_ends::lemma_lf_first_line(rest);
    let tail = text::after_line(rest);
    line_ends::lemma_lf_first_line(tail);
}

/// What is archived of a bulletin reads again with the same product: heading,
/// family and number of segments are the same.
pub proof fn archived_bulletin_reads_again(t: Seq<char>, content: NwwsContentView)
    requires
        read_from(t, content),
    ensures
        ({
            let again = archive::archived_text(content.bulletin.bulletin);
            product::parse_content(digest::utf8(again)) matches Ok(c) && {
                &&& c.bulletin.heading == content.bulletin.heading
                &&& c.bulletin.awips_id == content.bulletin.awips_id
                &&& c.bulletin.sequence_number == content.bulletin.sequence_number
                &&& c.bulletin.bulletin == again
                &&& c.product.family == content.product.family
                &&& c.product.segments.len() == content.product.segments.len()
            }
        }),
{
    let m = content.bulletin;
    let again = archive::archived_text(m.bulletin);
    let body = lines::lf_text(m.body);
    archived_text_reads_again(t, m);
    vstd::utf8::encode_utf8_valid_utf8(again);
    vstd::utf8::encode_utf8_decode_utf8(again);
    line_ends::products_read_the_same(m, body);
    let read = WmoMessageView {
        bulletin: again,
        body,
        frame_kind: WmoFrameKind::Bare,
        ..m
    };
    assert(product::parse_product(read) == product::parse_product(WmoMessageView { body, ..m }));
}

/// The archive id that a summary gives of a message is the digest that its
/// record is stored under, whatever separates its lines.
pub proof fn archive_id_names_the_record(
    content: NwwsContentView,
    wrapper: Option<WrapperSummaryView>,
    byte_range: Option<ByteRange>,
    source: Seq<char>,
    kind: InputKind,
    transport: TransportDescriptor,
    wrapper_id: Option<Seq<char>>,
)
    ensures
        ({
            let record = archive::record_of(source, kind, transport, wrapper_id, content);
            let id = summary::message_summary(content, wrapper, byte_range).archive_id;
            &&& id == archive::record_digest(record)
            &&& archive::record_path(record, 0) == archive::record_directory(record) + id + ".txt"@
        }),
{
}

/// Every record that is stored verifies, whatever attempt it was stored at,
/// with the heading and family it was imported with.
pub proof fn stored_records_verify(
    t: Seq<char>,
    content: NwwsContentView,
    source: Seq<char>,
    kind: InputKind,
    transport: TransportDescriptor,
    wrapper_id: Option<Seq<char>>,
    attempt: nat,
    path: Seq<char>,
)
    requires
        read_from(t, content),
    ensures
        ({
            let record = archive::record_of(source, kind, transport, wrapper_id, content);
            archive::verified(
                path,
                archive::record_stem(record, attempt),
                digest::utf8(record.bulletin_text),
            ) == (archive::VerifyRecordView {
                path,
                status: "ok"@,
                heading: Some(record.heading),
                family: Some(families::family_text(record.family)),
                error: None,
            })
        }),
{
    let record = archive::record_of(source, kind, transport, wrapper_id, content);
    archived_bulletin_reads_again(t, content);
    let d = archive::record_digest(record);
    let stem = archive::record_stem(record, attempt);
    if attempt > 0 {
        let prefix = d + seq!['-'];
        assert(stem =~= prefix + crate::number::decimal(attempt));
        assert(stem.take(prefix.len() as int) =~= prefix);
    }
}

/// A bulletin that comes framed is the same record as one that comes bare: its
/// text, directory, family and number of segments are the same.
pub proof fn framed_bulletin_is_the_same_record(
    t: Seq<char>,
    content: NwwsContentView,
    source: Seq<char>,
    kind: InputKind,
    transport: TransportDescriptor,
    wrapper_id: Option<Seq<char>>,
    source2: Seq<char>,
    kind2: InputKind,
    transport2: TransportDescriptor,
    wrapper_id2: Option<Seq<char>>,
)
    requires
        framing::plain(t),
        read_from(t, content),
        content.bulletin.frame_kind == WmoFrameKind::Bare,
    ensures
        product::parse_content(digest::utf8(framing::frame(t))) matches Ok(framed) && {
            let a = archive::record_of(source, kind, transport, wrapper_id, content);
            let b = archive::record_of(source2, kind2, transport2, wrapper_id2, framed);
            &&& archive::same_bulletin(a, b)
            &&& a.family == b.family
            &&& a.segment_count == b.segment_count
            &&& a.heading == b.heading
            &&& forall|n: nat| archive::record_path(a, n) == archive::record_path(b, n)
        },
{
    let bare = content.bulletin;
    framing::framed_bulletin_reads_the_same(t, bare);
    let framed = wmo::parse_text(framing::frame(t))->Ok_0;
    vstd::utf8::encode_utf8_valid_utf8(framing::frame(t));
    vstd::utf8::encode_utf8_decode_utf8(framing::frame(t));
    line_ends::lemma_bulletin_is_plain(t, bare);
    line_ends::lemma_lf_plain(bare.bulletin);
    line_ends::lemma_lf_wire(bare.bulletin);
    line_ends::lemma_lf_wire(bare.body);
    line_ends::products_read_the_same(framed, bare.body);
    let unframed = WmoMessageView { body: bare.body, ..framed };
    assert(product::parse_product(unframed) == product::parse_product(bare));
}

proof fn lemma_unframe_lf(t: Seq<char>)
    ensures
        wmo::unframe(lines::lf_text(t)) == (match wmo::unframe(t) {
            Ok((kind, b)) => Ok::<(WmoFrameKind, Seq<char>), ErrorKind>((kind, lines::lf_text(b))),
            Err(e) => Err(e),
        }),
{
    let s = text::trim(t);
    let r = lines::lf_text(s);
    line_ends::lemma_lf_trim(t);
    text::lemma_trim_start(t);
    line_ends::lemma_trim_end_parts(text::trim_start(t));
    line_ends::lemma_lf_head(s);
    if s.len() > 0 {
        line_ends::lemma_lf_last(s);
        if s[0] == '\x01' && s.last() == '\x03' {
            let inner = s.subrange(1, s.len() - 1);
            let front = seq!['\x01'] + inner;
            let end = seq!['\x03'];
            assert(s =~= front + end);
            line_ends::lemma_lf_append(front, end);
            line_ends::lemma_lf_append(seq!['\x01'], inner);
            reveal_with_fuel(lines::lf_text, 2);
            assert(end.skip(1) =~= Seq::<char>::empty());
            assert(lines::lf_text(end) =~= end);
            assert(seq!['\x01'].skip(1) =~= Seq::<char>::empty());
            assert(lines::lf_text(seq!['\x01']) =~= seq!['\x01']);
            assert(r =~= seq!['\x01'] + lines::lf_text(inner) + end);
            assert(r.subrange(1, r.len() - 1) =~= lines::lf_text(inner));
            line_ends::lemma_lf_trim(inner);
        }
    }
}

/// A text reads the same with line feeds alone between its lines.
pub proof fn line_ends_read_the_same(t: Seq<char>)
    ensures
        wmo::parse_text(lines::lf_text(t)) == (match wmo::parse_text(t) {
            Ok(m) => Ok::<WmoMessageView, ErrorKind>(
                WmoMessageView {
                    bulletin: lines::lf_text(m.bulletin),
                    body: lines::lf_text(m.body),
                    ..m
                },
            ),
            Err(e) => Err(e),
        }),
{
    lemma_unframe_lf(t);
    if let Ok((_, b)) = wmo::unframe(t) {
        line_ends::lemma_lf_first_line(b);
        line_ends::lemma_lf_trim_start(text::after_line(b));
        let rest = wmo::after_sequence(b);
        assert(wmo::after_sequence(lines::lf_text(b)) == lines::lf_text(rest));
        line_ends::lemma_lf_first_line(rest);
        line_ends::lemma_lf_first_line(text::after_line(rest));
    }
}

/// Texts that differ in nothing but their line ends are the same record: the
/// same text is archived, in the same places, under the same heading and
/// family and with the same number of segments.
pub proof fn line_ends_make_no_other_record(
    t: Seq<char>,
    content: NwwsContentView,
    u: Seq<char>,
    source: Seq<char>,
    kind: InputKind,
    transport: TransportDescriptor,
    wrapper_id: Option<Seq<char>>,
    source2: Seq<char>,
    kind2: InputKind,
    transport2: TransportDescriptor,
    wrapper_id2: Option<Seq<char>>,
)
    requires
        lines::lf_text(t) == lines::lf_text(u),
        read_from(t, content),
    ensures
        product::parse_content(digest::utf8(u)) matches Ok(other) && {
            let a = archive::record_of(source, kind, transport, wrapper_id, content);
            let b = archive::record_of(source2, kind2, transport2, wrapper_id2, other);
            &&& archive::same_bulletin(a, b)
            &&& a.family == b.family
            &&& a.segment_count == b.segment_count
            &&& a.heading == b.heading
            &&& forall|n: nat| archive::record_path(a, n) == archive::record_path(b, n)
        },
{
    line_ends_read_the_same(t);
    line_ends_read_the_same(u);
    vstd::utf8::encode_utf8_valid_utf8(u);
    vstd::utf8::encode_utf8_decode_utf8(u);
    let m = content.bulletin;
    let w = wmo::parse_text(u)->Ok_0;
    let body = lines::lf_text(m.body);
    line_ends::products_read_the_same(m, body);
    line_ends::products_read_the_same(w, body);
    assert(product::parse_product(WmoMessageView { body, ..m }) == product::parse_product(
        WmoMessageView { body, ..w },
    ));
}

/// A bulletin that comes in an NWWS-OI message is the same record as one that
/// comes bare.
pub proof fn wrapped_bulletin_is_the_same_record(p: OiPayloadView, content: NwwsContentView)
    requires
        oi::payload_content(p) == Ok::<NwwsContentView, ErrorKind>(content),
    ensures
        product::parse_content(digest::utf8(p.raw_bulletin)) == Ok::<NwwsContentView, ErrorKind>(
            content,
        ),
        digest::fingerprint(content.bulletin) == digest::fingerprint(
            (wmo::parse_text(p.raw_bulletin)->Ok_0),
        ),
{
    vstd::utf8::encode_utf8_valid_utf8(p.raw_bulletin);
    vstd::utf8::encode_utf8_decode_utf8(p.raw_bulletin);
}

// ---------------------------------------------------------------------------
// Whole archives
// ---------------------------------------------------------------------------

/// Whether a record is that of a bulletin that was read from some text.
pub open spec fn was_read(record: ImportRecordView) -> bool {
    exists|
        t: Seq<char>,
        content: NwwsContentView,
        source: Seq<char>,
        kind: InputKind,
        transport: TransportDescriptor,
        wrapper_id: Option<Seq<char>>,
    |
        #![trigger read_from(t, content), archive::record_of(source, kind, transport, wrapper_id, content)]
        read_from(t, content) && record == archive::record_of(
            source,
            kind,
            transport,
            wrapper_id,
            content,
        )
}

/// Whether a bulletin with its product was read from some text.
pub open spec fn read_from_some(content: NwwsContentView) -> bool {
    exists|t: Seq<char>| read_from(t, content)
}

proof fn lemma_parse_rest_read(
    messages: Seq<Seq<u8>>,
    i: int,
    done: Seq<NwwsContentView>,
    k: int,
)
    requires
        ingest::parse_rest(messages, i, done) is Ok,
        0 <= k < (ingest::parse_rest(messages, i, done)->Ok_0).len(),
        forall|j: int| 0 <= j < done.len() ==> read_from_some(#[trigger] done[j]),
    ensures
        read_from_some((ingest::parse_rest(messages, i, done)->Ok_0)[k]),
    decreases messages.len() - i,
{
    if 0 <= i < messages.len() {
        let content = product::parse_content(messages[i])->Ok_0;
        let more = done.push(content);
        let text = vstd::utf8::decode_utf8(messages[i]);
        assert(read_from(text, content));
        assert(read_from_some(content));
        assert forall|j: int| 0 <= j < more.len() implies read_from_some(#[trigger] more[j]) by {
            if j < done.len() {
                assert(more[j] == done[j]);
            }
        }
        lemma_parse_rest_read(messages, i + 1, more, k);
    }
}

/// Every record that an import hands out is that of a bulletin that was read.
pub proof fn imported_records_were_read(
    source: Seq<char>,
    hint: IngestHint,
    bytes: Seq<u8>,
    records: Seq<ImportRecordView>,
    k: int,
)
    requires
        archive::import_records(source, hint, bytes) == Ok::<Seq<ImportRecordView>, Seq<char>>(
            records,
        ),
        0 <= k < records.len(),
    ensures
        was_read(records[k]),
{
    let parsed = ingest::parse_input(hint, bytes)->Ok_0;
    match parsed {
        ParsedInputView::Bulletin { transport, content } => {
            assert(read_from(vstd::utf8::decode_utf8(bytes), content));
            assert(records[k] == archive::record_of(
                source,
                InputKind::Bulletin,
                transport,
                None,
                content,
            ));
        },
        ParsedInputView::OpenInterface { transport, message, wrapper_id } => {
            let content = oi::message_content(message)->Ok_0;
            assert(read_from((message.payload->0).raw_bulletin, content));
            assert(records[k] == archive::record_of(
                source,
                InputKind::OpenInterface,
                transport,
                wrapper_id,
                content,
            ));
        },
        ParsedInputView::FramedStream(stream) => {
            let contents = ingest::parse_all(stream.messages)->Ok_0;
            lemma_parse_rest_read(stream.messages, 0, Seq::empty(), k);
            let t = choose|t: Seq<char>| read_from(t, contents[k]);
            assert(read_from(t, contents[k]));
            assert(records[k] == archive::record_of(
                source,
                InputKind::FramedStream,
                stream.transport,
                None,
                contents[k],
            ));
        },
    }
}

/// Whether the path is that of a file that holds a record, under the stem.
pub open spec fn holds_record(
    files: Map<Seq<char>, Seq<u8>>,
    path: Seq<char>,
    stem: Seq<char>,
) -> bool {
    exists|record: ImportRecordView, attempt: nat|
        #![trigger archive::record_path(record, attempt)]
        was_read(record) && path == archive::record_path(record, attempt) && stem
            == archive::record_stem(record, attempt) && files.dom().contains(path) && files[path]
            == digest::utf8(record.bulletin_text)
}

/// Whether every file of an archive holds a record.
pub open spec fn holds_records(files: Map<Seq<char>, Seq<u8>>) -> bool {
    forall|path: Seq<char>| #[trigger]
        files.dom().contains(path) ==> exists|stem: Seq<char>| holds_record(files, path, stem)
}

/// The archive after the records were stored at the attempts, one by one.
pub open spec fn after_import(
    files: Map<Seq<char>, Seq<u8>>,
    records: Seq<(ImportRecordView, nat)>,
) -> Map<Seq<char>, Seq<u8>>
    decreases records.len(),
{
    if records.len() == 0 {
        files
    } else {
        archive::after_step(
            after_import(files, records.drop_last()),
            records.last().0,
            records.last().1,
        )
    }
}

proof fn lemma_holds_after_step(
    files: Map<Seq<char>, Seq<u8>>,
    record: ImportRecordView,
    attempt: nat,
    path: Seq<char>,
    stem: Seq<char>,
)
    requires
        holds_record(files, path, stem),
    ensures
        holds_record(archive::after_step(files, record, attempt), path, stem),
{
    archive::storing_overwrites_nothing(files, record, attempt, path);
}

/// An import of records into an archive of records gives an archive of
/// records; nothing else comes into it.
pub proof fn imports_hold_records(
    files: Map<Seq<char>, Seq<u8>>,
    records: Seq<(ImportRecordView, nat)>,
)
    requires
        holds_records(files),
        forall|i: int| 0 <= i < records.len() ==> was_read((#[trigger] records[i]).0),
    ensures
        holds_records(after_import(files, records)),
    decreases records.len(),
{
    if records.len() > 0 {
        let front = records.drop_last();
        assert forall|i: int| 0 <= i < front.len() implies was_read((#[trigger] front[i]).0) by {
            assert(front[i] == records[i]);
        }
        imports_hold_records(files, front);
        let before = after_import(files, front);
        let record = records.last().0;
        let attempt = records.last().1;
        let after = archive::after_step(before, record, attempt);
        assert(was_read(records[records.len() - 1].0));
        assert forall|path: Seq<char>| #[trigger] after.dom().contains(path) implies exists|
            stem: Seq<char>,
        | holds_record(after, path, stem) by {
            if before.dom().contains(path) {
                let stem = choose|stem: Seq<char>| holds_record(before, path, stem);
                lemma_holds_after_step(before, record, attempt, path, stem);
                assert(holds_record(after, path, stem));
            } else {
                assert(path == archive::record_path(record, attempt));
                assert(holds_record(after, path, archive::record_stem(record, attempt)));
            }
        }
    }
}

/// The verification of the files at the paths, under the stems, one by one.
pub open spec fn verification(
    v: VerifyView,
    files: Map<Seq<char>, Seq<u8>>,
    listing: Seq<(Seq<char>, Seq<char>)>,
) -> VerifyView
    decreases listing.len(),
{
    if listing.len() == 0 {
        v
    } else {
        let (path, stem) = listing.last();
        archive::with_verdict(
            verification(v, files, listing.drop_last()),
            archive::verified(path, stem, files[path]),
        )
    }
}

/// A file that holds a record verifies.
pub proof fn record_files_verify(files: Map<Seq<char>, Seq<u8>>, path: Seq<char>, stem: Seq<char>)
    requires
        holds_record(files, path, stem),
    ensures
        archive::verified(path, stem, files[path]).status == "ok"@,
        archive::verified(path, stem, files[path]).error is None,
{
    let (record, attempt) = choose|record: ImportRecordView, attempt: nat|
        #![trigger archive::record_path(record, attempt)]
        was_read(record) && path == archive::record_path(record, attempt) && stem
            == archive::record_stem(record, attempt) && files.dom().contains(path) && files[path]
            == digest::utf8(record.bulletin_text);
    let (t, content, source, kind, transport, wrapper_id) = choose|
        t: Seq<char>,
        content: NwwsContentView,
        source: Seq<char>,
        kind: InputKind,
        transport: TransportDescriptor,
        wrapper_id: Option<Seq<char>>,
    |
        #![trigger read_from(t, content), archive::record_of(source, kind, transport, wrapper_id, content)]
        read_from(t, content) && record == archive::record_of(
            source,
            kind,
            transport,
            wrapper_id,
            content,
        );
    stored_records_verify(t, content, source, kind, transport, wrapper_id, attempt, path);
}

/// A whole import verifies: every file of it is sound and none is a failure,
/// as far as files can be counted.
pub proof fn whole_import_verifies(
    v: VerifyView,
    files: Map<Seq<char>, Seq<u8>>,
    listing: Seq<(Seq<char>, Seq<char>)>,
)
    requires
        v.verified_records + listing.len() <= usize::MAX,
        forall|i: int|
            0 <= i < listing.len() ==> holds_record(
                files,
                (#[trigger] listing[i]).0,
                listing[i].1,
            ),
    ensures
        verification(v, files, listing).verified_records == v.verified_records + listing.len(),
        verification(v, files, listing).failures == v.failures,
    decreases listing.len(),
{
    if listing.len() > 0 {
        let front = listing.drop_last();
        assert forall|i: int| 0 <= i < front.len() implies holds_record(
            files,
            (#[trigger] front[i]).0,
            front[i].1,
        ) by {
            assert(front[i] == listing[i]);
        }
        whole_import_verifies(v, files, front);
        assert(holds_record(files, listing[listing.len() - 1].0, listing[listing.len() - 1].1));
        record_files_verify(files, listing.last().0, listing.last().1);
    }
}

} // verus!
