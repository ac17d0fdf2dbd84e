//! What inputs promise: how each is read by its hint, what the wrapper of a
//! message is held to, and what the reports on inputs repeat of them.

use vstd::prelude::*;

use crate::api;
use crate::api::{ApiError, InputKind};
use crate::clock;
use crate::digest;
use crate::error::{ErrorKind, Field};
use crate::families;
use crate::header;
use crate::ingest;
use crate::ingest::{IngestHint, ParsedInputView, TransportDescriptor};
use crate::keeping_laws;
use crate::lines;
use crate::number;
use crate::oi;
use crate::oi::{NwwsOiId, OiMessageView, OiPayloadView, StanzaView, Target};
use crate::oi_archive;
use crate::paths;
use crate::product;
use crate::product::{NwwsContentView, ProductSegmentView};
use crate::summary;
use crate::summary::{ByteRange, WrapperSummaryView};
use crate::tag_laws;
use crate::text;
use crate::ugc;
use crate::wmo;

verus! {

// ---------------------------------------------------------------------------
// Hints and transports
// ---------------------------------------------------------------------------

/// The transports: the open interface asks for a login, the satellite channel
/// is 201, both are better used in a pair, and plain text is none of these.
pub proof fn transports_are_told_apart()
    ensures
        ({
            let open = TransportDescriptor::spec_open_interface();
            let satellite = TransportDescriptor::spec_satellite_pid201();
            let plain = TransportDescriptor::spec_plain_wmo_text();
            &&& api::transport_summary(open).kind == "open-interface"@
            &&& api::transport_summary(satellite).kind == "satellite-pid201"@
            &&& api::transport_summary(plain).kind == "plain-wmo-text"@
            &&& api::transport_summary(open).requires_authentication
            &&& !api::transport_summary(satellite).requires_authentication
            &&& !api::transport_summary(plain).requires_authentication
            &&& api::transport_summary(satellite).satellite_channel == Some(201u16)
            &&& api::transport_summary(open).satellite_channel is None
            &&& api::transport_summary(plain).satellite_channel is None
            &&& api::transport_summary(open).paired_transport_recommended
            &&& api::transport_summary(satellite).paired_transport_recommended
            &&& !api::transport_summary(plain).paired_transport_recommended
        }),
{
}

/// An input is read as its hint says. A hint that leaves it open has it read
/// as what it shows itself to be. A satellite stream and a framed stream are
/// read alike but for the transport.
pub proof fn inputs_are_read_by_their_hint(s: Seq<u8>)
    ensures
        ingest::parse_input(IngestHint::Auto, s) == ingest::parse_input(ingest::detect(s), s),
        ingest::parse_input(IngestHint::RawBulletin, s) is Ok <==> product::parse_content(s) is Ok,
        ingest::parse_input(IngestHint::RawBulletin, s) matches Ok(p) ==> (p matches
            ParsedInputView::Bulletin { transport, content } && product::parse_content(s) == Ok::<
            NwwsContentView,
            ErrorKind,
        >(content) && transport == TransportDescriptor::spec_plain_wmo_text()),
        ingest::parse_input(IngestHint::OpenInterface, s) is Ok <==> vstd::utf8::valid_utf8(s)
            && oi::parse_oi(vstd::utf8::decode_utf8(s)) is Ok,
        ingest::parse_input(IngestHint::OpenInterface, s) matches Ok(p) ==> (p matches
            ParsedInputView::OpenInterface { transport, message, wrapper_id } && oi::parse_oi(
            vstd::utf8::decode_utf8(s),
        ) == Ok::<OiMessageView, ErrorKind>(message) && transport
            == TransportDescriptor::spec_open_interface() && wrapper_id == (match message.payload {
            Some(p) => Some(oi_archive::id_text(p.id)),
            None => None,
        })),
        ingest::parse_input(IngestHint::SatellitePid201, s) matches Ok(p) && (p matches
            ParsedInputView::FramedStream(f) && f.transport
            == TransportDescriptor::spec_satellite_pid201()),
        ingest::parse_input(IngestHint::FramedStream, s) matches Ok(p) && (p matches
            ParsedInputView::FramedStream(f) && f.transport
            == TransportDescriptor::spec_plain_wmo_text()),
        ({
            let a = ingest::parse_input(IngestHint::SatellitePid201, s)->Ok_0->FramedStream_0;
            let b = ingest::parse_input(IngestHint::FramedStream, s)->Ok_0->FramedStream_0;
            a.messages == b.messages && a.ranges == b.ranges && a.pending_bytes == b.pending_bytes
                && a.leading_junk_prefix == b.leading_junk_prefix
        }),
{
}

/// Whether two words are the same, case aside.
pub open spec fn is_word(s: Seq<char>, word: Seq<char>) -> bool {
    s.len() == word.len() && forall|i: int|
        0 <= i < s.len() ==> tag_laws::same_letter(#[trigger] s[i], word[i])
}

/// A text is a word in lower case, case aside, exactly if it becomes that word
/// where capitals are made small.
pub proof fn words_are_told_in_any_case(s: Seq<char>, word: Seq<char>)
    requires
        forall|i: int| 0 <= i < word.len() ==> !('A' <= #[trigger] word[i] <= 'Z'),
    ensures
        text::lower(s) == word <==> is_word(s, word),
{
    let l = text::lower(s);
    assert(l.len() == s.len());
    if l == word {
        assert forall|i: int| 0 <= i < s.len() implies tag_laws::same_letter(
            #[trigger] s[i],
            word[i],
        ) by {
            assert(l[i] == text::lower_char(s[i]));
            tag_laws::capitals(s[i]);
        }
    }
    if is_word(s, word) {
        assert forall|i: int| 0 <= i < s.len() implies #[trigger] l[i] == word[i] by {
            assert(l[i] == text::lower_char(s[i]));
            assert(tag_laws::same_letter(s[i], word[i]));
            tag_laws::capitals(s[i]);
        }
        assert(l =~= word);
    }
}

/// A file name ending, in any case, tells what the file is: `xml` a message of
/// the open interface, `pid201` and `wmo` a satellite stream; any other leaves
/// it open.
pub proof fn endings_tell_what_files_are(extension: Seq<char>)
    ensures
        api::extension_hint(extension) == IngestHint::OpenInterface <==> is_word(
            extension,
            "xml"@,
        ),
        api::extension_hint(extension) == IngestHint::SatellitePid201 <==> is_word(
            extension,
            "pid201"@,
        ) || is_word(extension, "wmo"@),
        api::extension_hint(extension) == IngestHint::Auto <==> !is_word(extension, "xml"@)
            && !is_word(extension, "pid201"@) && !is_word(extension, "wmo"@),
{
    reveal_strlit("xml");
    reveal_strlit("pid201");
    reveal_strlit("wmo");
    words_are_told_in_any_case(extension, "xml"@);
    words_are_told_in_any_case(extension, "pid201"@);
    words_are_told_in_any_case(extension, "wmo"@);
    assert("xml"@[0] == 'x' && "wmo"@[0] == 'w' && "pid201"@[0] == 'p');
}

// ---------------------------------------------------------------------------
// Messages of the open interface
// ---------------------------------------------------------------------------

proof fn lemma_attr_first(
    attrs: Seq<(Seq<char>, Seq<char>)>,
    key: Seq<char>,
    i: int,
    k: int,
)
    requires
        0 <= i <= k <= attrs.len(),
        forall|j: int| i <= j < k ==> (#[trigger] attrs[j]).0 != key,
        k < attrs.len() ==> attrs[k].0 == key,
    ensures
        oi::attr_from(attrs, key, i) == if k < attrs.len() {
            Some(attrs[k].1)
        } else {
            None
        },
    decreases k - i,
{
    if i < k {
        assert(attrs[i].0 != key);
        lemma_attr_first(attrs, key, i + 1, k);
    }
}

/// An attribute has the value that stands first under its name, at `k` here;
/// without such a name it has none.
pub proof fn attributes_have_their_first_value(
    attrs: Seq<(Seq<char>, Seq<char>)>,
    key: Seq<char>,
    k: int,
)
    requires
        0 <= k <= attrs.len(),
        forall|j: int| 0 <= j < k ==> (#[trigger] attrs[j]).0 != key,
        k < attrs.len() ==> attrs[k].0 == key,
    ensures
        oi::attr(attrs, key) == if k < attrs.len() {
            Some(attrs[k].1)
        } else {
            None
        },
{
    lemma_attr_first(attrs, key, 0, k);
}

/// A payload needs the office, the designator, the issue time, the AWIPS
/// identifier and its own identifier, each in the attribute of its name. One
/// that is missing is told from one that cannot be read.
pub proof fn payloads_need_five_attributes(attrs: Seq<(Seq<char>, Seq<char>)>, raw: Seq<char>)
    ensures
        ({
            let there = oi::attr(attrs, "cccc"@) is Some && oi::attr(attrs, "ttaaii"@) is Some
                && oi::attr(attrs, "issue"@) is Some && oi::attr(attrs, "awipsid"@) is Some
                && oi::attr(attrs, "id"@) is Some;
            let legible = clock::rfc3339(oi::attr(attrs, "issue"@)->0) is Some && oi::parse_id(
                oi::attr(attrs, "id"@)->0,
            ) is Some;
            let r = oi::parse_payload(attrs, raw);
            &&& r is Ok <==> there && legible
            &&& !there ==> r == Err::<OiPayloadView, ErrorKind>(
                ErrorKind::MissingField(Field::OiAttribute),
            )
            &&& there && !legible ==> r == Err::<OiPayloadView, ErrorKind>(
                ErrorKind::InvalidField(Field::OiAttribute),
            )
            &&& r matches Ok(p) ==> {
                &&& Some(p.cccc) == oi::attr(attrs, "cccc"@)
                &&& Some(p.ttaaii) == oi::attr(attrs, "ttaaii"@)
                &&& Some(p.awips_id) == oi::attr(attrs, "awipsid"@)
                &&& Some((p.instant, p.utc_offset)) == clock::rfc3339(oi::attr(attrs, "issue"@)->0)
                &&& Some(p.id) == oi::parse_id(oi::attr(attrs, "id"@)->0)
                &&& p.raw_bulletin == raw
            }
        }),
{
}

/// The identifier of a payload is two numbers with a dot between them, and is
/// written as it is read.
pub proof fn payload_identifiers_read_back(id: NwwsOiId)
    ensures
        oi::parse_id(oi_archive::id_text(id)) == Some(id),
{
    oi_archive::id_reads_back(id);
}

/// The first element of a kind counts: a body behind the first one, an HTML
/// body behind the first one, and a payload behind the first one change
/// nothing, and neither does an `x` element of another name space.
pub proof fn later_elements_change_nothing(
    st: StanzaView,
    name: Seq<char>,
    attrs: Seq<(Seq<char>, Seq<char>)>,
    closed: bool,
)
    ensures
        ({
            let after = oi::entered(st, name, attrs, closed);
            &&& st.summary is Some ==> after.summary == st.summary
            &&& st.xhtml is Some ==> after.xhtml == st.xhtml
            &&& st.payload_attrs is Some ==> after.payload_attrs == st.payload_attrs
            &&& st.target != Target::Nothing ==> after == st
            &&& oi::attr(attrs, "xmlns"@) != Some("nwws-oi"@) ==> after.payload_attrs
                == st.payload_attrs
            &&& after.payload_attrs != st.payload_attrs ==> name == "x"@ && st.stack.len() == 1
                && after.payload_attrs == Some(attrs)
            &&& after.summary != st.summary ==> name == "body"@ && st.stack.len() == 1
            &&& after.xhtml != st.xhtml ==> name == "body"@ && st.stack.len() == 2 && st.stack[1]
                == "html"@
            &&& after.payload_text == st.payload_text
            &&& after.attrs == st.attrs
        }),
{
}

/// The bulletin of a payload is read exactly if it is one and has the
/// designator, the office and the AWIPS identifier of the wrapper, whose
/// identifier is empty where the bulletin has none. What differs is told, the
/// designator before the office and the office before the identifier.
pub proof fn wrappers_are_held_to_their_bulletin(p: OiPayloadView)
    ensures
        ({
            let r = oi::payload_bulletin(p);
            let read = wmo::parse_text(p.raw_bulletin);
            let m = read->Ok_0;
            let id = match m.awips_id {
                Some(id) => id,
                None => Seq::empty(),
            };
            &&& read is Err ==> r is Err && r->Err_0 == read->Err_0
            &&& r is Ok <==> read is Ok && m.heading.ttaaii == p.ttaaii && m.heading.cccc == p.cccc
                && id == p.awips_id
            &&& r is Ok ==> r->Ok_0 == m
            &&& read is Ok && m.heading.ttaaii != p.ttaaii ==> r->Err_0 == ErrorKind::Mismatch(
                Field::OiDesignator,
            )
            &&& read is Ok && m.heading.ttaaii == p.ttaaii && m.heading.cccc != p.cccc ==> r->Err_0
                == ErrorKind::Mismatch(Field::OiOffice)
            &&& read is Ok && m.heading.ttaaii == p.ttaaii && m.heading.cccc == p.cccc && id
                != p.awips_id ==> r->Err_0 == ErrorKind::Mismatch(Field::OiAwipsId)
        }),
{
}

/// A message without a payload has no content.
pub proof fn messages_need_a_payload(m: OiMessageView)
    ensures
        m.payload is None ==> oi::message_content(m) == Err::<NwwsContentView, ErrorKind>(
            ErrorKind::MissingField(Field::OiPayload),
        ),
        m.payload matches Some(p) ==> (oi::message_content(m) is Ok ==> oi::payload_bulletin(p)
            is Ok && oi::message_content(m)->Ok_0.bulletin == oi::payload_bulletin(p)->Ok_0),
{
}

// ---------------------------------------------------------------------------
// Reports
// ---------------------------------------------------------------------------

/// The summary of a message repeats what its bulletin, its product and its
/// wrapper say, with one summary for every segment.
pub proof fn summaries_repeat_their_message(
    content: NwwsContentView,
    wrapper: Option<WrapperSummaryView>,
    range: Option<ByteRange>,
    i: int,
)
    ensures
        ({
            let s = summary::message_summary(content, wrapper, range);
            let b = content.bulletin;
            &&& s.byte_range == range
            &&& s.wrapper == wrapper
            &&& s.frame_kind == if b.frame_kind == wmo::WmoFrameKind::Framed {
                "framed"@
            } else {
                "bare"@
            }
            &&& s.sequence_number == b.sequence_number
            &&& s.heading == header::heading_text(b.heading)
            &&& s.ttaaii == b.heading.ttaaii
            &&& s.cccc == b.heading.cccc
            &&& s.office == s.cccc
            &&& s.yygggg == b.heading.yygggg
            &&& s.bbb == b.heading.bbb
            &&& s.awips_id == b.awips_id
            &&& s.family == families::family_text(content.product.family)
            &&& s.raw_bulletin == b.bulletin
            &&& s.raw_bulletin_blake3 == digest::blake3_hex(vstd::utf8::encode_utf8(b.bulletin))
            &&& s.semantic_fingerprint == digest::fingerprint(b)
            &&& s.archive_id == digest::digest_text(
                vstd::utf8::encode_utf8(lines::lf_text(b.bulletin)),
            )
            &&& s.segment_count == content.product.segments.len()
            &&& s.segments.len() == content.product.segments.len()
            &&& 0 <= i < s.segments.len() ==> repeats(s.segments[i], content.product.segments[i])
        }),
{
    let s = summary::message_summary(content, wrapper, range);
    if 0 <= i < s.segments.len() {
        let segment = content.product.segments[i];
        assert(s.segments[i].pvtec =~= Seq::new(
            segment.pvtec.len(),
            |k: int| segment.pvtec[k].raw,
        ));
    }
}

/// Whether the summary of a segment repeats its texts and codes.
pub open spec fn repeats(s: summary::SegmentSummaryView, segment: ProductSegmentView) -> bool {
    &&& s.headline == segment.headline
    &&& s.body_lines == segment.body_lines
    &&& s.separated_by_dollars == segment.boundaries.separated_by_dollars
    &&& s.contains_andand == segment.boundaries.contains_andand
    &&& s.ugc_raw == segment.ugc.raw
    &&& s.ugcs == ugc::expand_codes(segment.ugc.codes)
    &&& s.hvtec == segment.hvtec
    &&& s.pvtec.len() == segment.pvtec.len()
    &&& forall|k: int| 0 <= k < s.pvtec.len() ==> #[trigger] s.pvtec[k] == segment.pvtec[k].raw
}

/// The report on an input tells what it was read as, and has a summary for
/// each of its messages: one for a bulletin and for a message of the open
/// interface, where the wrapper is told too, and one for every frame of a
/// stream with the place of the frame. A stream without frames is refused.
pub proof fn inspections_report_every_message(hint: IngestHint, s: Seq<u8>, i: int)
    ensures
        match ingest::parse_input(hint, s) {
            Err(kind) => api::inspect(hint, s) is Err,
            Ok(ParsedInputView::Bulletin { transport, content }) => api::inspect(hint, s) matches Ok(
                r,
            ) && r.input_kind == InputKind::Bulletin && r.transport == api::transport_summary(
                transport,
            ) && r.junk_bytes == 0 && r.pending_bytes == 0 && r.messages.len() == 1 && r.messages[0]
                == summary::message_summary(content, None, None),
            Ok(ParsedInputView::OpenInterface { transport, message, wrapper_id }) => match oi::message_content(
                message,
            ) {
                Err(kind) => api::inspect(hint, s) is Err,
                Ok(content) => api::inspect(hint, s) matches Ok(r) && r.input_kind
                    == InputKind::OpenInterface && r.transport == api::transport_summary(transport)
                    && r.junk_bytes == 0 && r.pending_bytes == 0 && r.messages.len() == 1
                    && r.messages[0] == summary::message_summary(
                    content,
                    Some(
                        WrapperSummaryView {
                            summary: if message.summary is Some {
                                message.summary
                            } else {
                                message.xhtml_summary
                            },
                            id: Some(oi_archive::id_text(message.payload->0.id)),
                            issue: oi::written_issue(message.payload->0),
                        },
                    ),
                    None,
                ),
            },
            Ok(ParsedInputView::FramedStream(f)) => if f.messages.len() == 0 {
                api::inspect(hint, s) is Err
            } else {
                match ingest::parse_all(f.messages) {
                    Err(kind) => api::inspect(hint, s) is Err,
                    Ok(contents) => api::inspect(hint, s) matches Ok(r) && r.input_kind
                        == InputKind::FramedStream && r.transport == api::transport_summary(
                        f.transport,
                    ) && r.junk_bytes == f.leading_junk_prefix && r.pending_bytes == f.pending_bytes
                        && r.messages.len() == f.messages.len() && (0 <= i < r.messages.len()
                        ==> r.messages[i] == summary::message_summary(
                        contents[i],
                        None,
                        Some(
                            ByteRange {
                                start: f.ranges[i].0 as usize,
                                end: f.ranges[i].1 as usize,
                            },
                        ),
                    )),
                }
            },
        },
{
    if let Ok(ParsedInputView::FramedStream(f)) = ingest::parse_input(hint, s) {
        keeping_laws::streams_are_read_whole_or_fail_at_the_first(f.messages);
    }
}

/// The split of a satellite stream has a record for every frame, numbered from
/// one, with the summary of its message and a file name made of the number in
/// at least five digits, the sequence number or zero, the designator and the
/// AWIPS identifier or what stands for none.
pub proof fn splits_have_a_record_for_every_frame(source: Option<Seq<char>>, s: Seq<u8>, i: int)
    ensures
        ({
            let f = ingest::parse_framed(TransportDescriptor::spec_satellite_pid201(), s);
            let read = ingest::parse_all(f.messages);
            let r = api::split_stream(source, s);
            &&& r is Ok <==> f.messages.len() > 0 && read is Ok
            &&& f.messages.len() == 0 ==> r->Err_0 == ApiError::NoFramedBulletins
            &&& r is Ok ==> {
                let all = r->Ok_0;
                &&& all.source_path == source
                &&& all.junk_bytes == f.leading_junk_prefix
                &&& all.pending_bytes == f.pending_bytes
                &&& all.records.len() == f.messages.len()
                &&& 0 <= i < all.records.len() ==> {
                    let b = read->Ok_0[i].bulletin;
                    &&& all.records[i].index == i + 1
                    &&& all.records[i].message == summary::message_summary(
                        read->Ok_0[i],
                        None,
                        Some(
                            ByteRange {
                                start: f.ranges[i].0 as usize,
                                end: f.ranges[i].1 as usize,
                            },
                        ),
                    )
                    &&& all.records[i].suggested_filename == number::padded((i + 1) as nat, 5)
                        + seq!['_'] + number::decimal(
                        match b.sequence_number {
                            Some(n) => n as nat,
                            None => 0,
                        },
                    ) + seq!['_'] + paths::component(b.heading.ttaaii) + seq!['_']
                        + paths::component(
                        match b.awips_id {
                            Some(id) => id,
                            None => "NO-AWIPS"@,
                        },
                    ) + ".txt"@
                }
            }
        }),
{
    let f = ingest::parse_framed(TransportDescriptor::spec_satellite_pid201(), s);
    keeping_laws::streams_are_read_whole_or_fail_at_the_first(f.messages);
}

} // verus!
