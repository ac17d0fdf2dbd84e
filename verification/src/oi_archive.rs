//! The XML form in which NWWS-OI messages are archived.

use vstd::prelude::*;

use crate::clock;
use crate::error::ErrorKind;
use crate::number;
use crate::oi;
use crate::oi::{NwwsOiId, NwwsOiMessage, OiMessageView, OiPayloadView, StanzaView, Target};
use crate::text;
use crate::xml;
use crate::xml::XmlTokenView;

verus! {

/// Why a message has no archive form.
#[derive(Debug, Clone, Copy, PartialEq, Eq, Structural)]
pub enum OiArchiveError {
    MissingPayload,
    UnwritableIssueTime,
}

impl OiArchiveError {
    pub open spec fn spec_message(self) -> Seq<char> {
        match self {
            OiArchiveError::MissingPayload => "NWWS-OI message did not contain a payload"@,
            OiArchiveError::UnwritableIssueTime => "failed to format NWWS-OI issue time: "@
                + clock::UNWRITABLE_YEAR@,
        }
    }

    pub fn message(self) -> (r: String)
        ensures
            r@ == self.spec_message(),
    {
        match self {
            OiArchiveError::MissingPayload => "NWWS-OI message did not contain a payload".to_owned(),
            OiArchiveError::UnwritableIssueTime => {
                let mut v = text::to_chars("failed to format NWWS-OI issue time: ");
                text::push_str(&mut v, clock::UNWRITABLE_YEAR);
                text::to_text(v.as_slice())
            },
        }
    }
}

/// The text of a payload identifier.
pub open spec fn id_text(id: NwwsOiId) -> Seq<char> {
    number::decimal(id.process_id as nat) + seq!['.'] + number::decimal(id.sequence as nat)
}

/// Writes a payload identifier.
pub fn wrapper_id(id: NwwsOiId) -> (r: String)
    ensures
        r@ == id_text(id),
{
    let mut v = number::to_decimal(id.process_id);
    v.push('.');
    let b = number::to_decimal(id.sequence);
    text::push_all(&mut v, b.as_slice());
    assert(v@ =~= id_text(id));
    text::to_text(v.as_slice())
}

// ---------------------------------------------------------------------------
// The archive form
// ---------------------------------------------------------------------------

/// The stanza type of a message, `groupchat` where it has none.
pub open spec fn type_text(m: OiMessageView) -> Seq<char> {
    match m.stanza_type {
        Some(t) => t,
        None => "groupchat"@,
    }
}

/// `done`, followed by the attribute if it has a value.
pub open spec fn with_attr(
    done: Seq<(Seq<char>, Seq<char>)>,
    key: Seq<char>,
    value: Option<Seq<char>>,
) -> Seq<(Seq<char>, Seq<char>)> {
    match value {
        Some(v) => done.push((key, v)),
        None => done,
    }
}

pub open spec fn message_attrs(m: OiMessageView) -> Seq<(Seq<char>, Seq<char>)> {
    with_attr(
        with_attr(seq![("type"@, type_text(m))], "from"@, m.from),
        "to"@,
        m.to,
    )
}

pub open spec fn payload_attrs(p: OiPayloadView, issue: Seq<char>) -> Seq<(Seq<char>, Seq<char>)> {
    seq![
        ("xmlns"@, "nwws-oi"@),
        ("cccc"@, p.cccc),
        ("ttaaii"@, p.ttaaii),
        ("issue"@, issue),
        ("awipsid"@, p.awips_id),
        ("id"@, id_text(p.id)),
    ]
}

pub open spec fn summary_xml(summary: Option<Seq<char>>) -> Seq<char> {
    match summary {
        Some(s) => xml::start_text("body"@, Seq::empty()) + xml::escape(s, false) + xml::end_text(
            "body"@,
        ),
        None => Seq::empty(),
    }
}

pub open spec fn html_attrs() -> Seq<(Seq<char>, Seq<char>)> {
    seq![("xmlns"@, "http://jabber.org/protocol/xhtml-im"@)]
}

pub open spec fn html_body_attrs() -> Seq<(Seq<char>, Seq<char>)> {
    seq![("xmlns"@, "http://www.w3.org/1999/xhtml"@)]
}

pub open spec fn xhtml_xml(summary: Option<Seq<char>>) -> Seq<char> {
    match summary {
        Some(s) => xml::start_text("html"@, html_attrs()) + xml::start_text(
            "body"@,
            html_body_attrs(),
        ) + xml::escape(s, false) + xml::end_text("body"@) + xml::end_text("html"@),
        None => Seq::empty(),
    }
}

pub open spec fn payload_xml(p: OiPayloadView, issue: Seq<char>) -> Seq<char> {
    xml::start_text("x"@, payload_attrs(p, issue)) + xml::escape(p.raw_bulletin, false)
        + xml::end_text("x"@)
}

/// The archive form of a message with payload `p` and issue time text `issue`.
pub open spec fn archive_xml(m: OiMessageView, p: OiPayloadView, issue: Seq<char>) -> Seq<char> {
    xml::start_text("message"@, message_attrs(m)) + summary_xml(m.summary) + xhtml_xml(
        m.xhtml_summary,
    ) + payload_xml(p, issue) + xml::end_text("message"@)
}

/// The message as the archive form has it: with its stanza type written out.
pub open spec fn archived(m: OiMessageView) -> OiMessageView {
    OiMessageView { stanza_type: Some(type_text(m)), ..m }
}

// ---------------------------------------------------------------------------
// Writing
// ---------------------------------------------------------------------------

proof fn lemma_attrs_text_push(attrs: Seq<(Seq<char>, Seq<char>)>, key: Seq<char>, value: Seq<char>)
    ensures
        xml::attrs_text(attrs.push((key, value))) == xml::attrs_text(attrs) + xml::attr_text(
            key,
            value,
        ),
    decreases attrs.len(),
{
    let all = attrs.push((key, value));
    if attrs.len() == 0 {
        assert(all.skip(1) =~= Seq::<(Seq<char>, Seq<char>)>::empty());
        assert(xml::attrs_text(all.skip(1)) =~= Seq::<char>::empty());
        assert(xml::attrs_text(all) =~= xml::attrs_text(attrs) + xml::attr_text(key, value));
    } else {
        assert(all.skip(1) =~= attrs.skip(1).push((key, value)));
        lemma_attrs_text_push(attrs.skip(1), key, value);
        assert(xml::attrs_text(all) =~= xml::attrs_text(attrs) + xml::attr_text(key, value));
    }
}

fn push_attr(
    xml: &mut Vec<char>,
    key: &str,
    value: &str,
    Ghost(before): Ghost<Seq<char>>,
    Ghost(done): Ghost<Seq<(Seq<char>, Seq<char>)>>,
)
    requires
        old(xml)@ == before + xml::attrs_text(done),
    ensures
        final(xml)@ == before + xml::attrs_text(done.push((key@, value@))),
{
    xml::push_xml_attr(xml, key, value);
    proof {
        lemma_attrs_text_push(done, key@, value@);
        assert(xml@ =~= before + xml::attrs_text(done.push((key@, value@))));
    }
}

fn open_tag(xml: &mut Vec<char>, name: &str)
    ensures
        final(xml)@ == old(xml)@ + seq!['<'] + name@,
        final(xml)@ == final(xml)@ + xml::attrs_text(Seq::empty()),
{
    let ghost start = xml@;
    xml.push('<');
    text::push_str(xml, name);
    assert(xml@ =~= start + seq!['<'] + name@);
    assert(xml@ =~= xml@ + xml::attrs_text(Seq::empty()));
}

fn close_tag(
    xml: &mut Vec<char>,
    Ghost(start): Ghost<Seq<char>>,
    Ghost(name): Ghost<Seq<char>>,
    Ghost(attrs): Ghost<Seq<(Seq<char>, Seq<char>)>>,
)
    requires
        old(xml)@ == start + seq!['<'] + name + xml::attrs_text(attrs),
    ensures
        final(xml)@ == start + xml::start_text(name, attrs),
{
    xml.push('>');
    assert(xml@ =~= start + xml::start_text(name, attrs));
}

fn push_message_start(xml: &mut Vec<char>, message: &NwwsOiMessage)
    ensures
        final(xml)@ == old(xml)@ + xml::start_text(
            "message"@,
            message_attrs(message.deep_view()),
        ),
{
    let ghost m = message.deep_view();
    let ghost start = xml@;
    open_tag(xml, "message");
    let ghost before = xml@;
    let ghost mut done: Seq<(Seq<char>, Seq<char>)> = Seq::empty();
    let stanza_type: &str = match &message.stanza_type {
        Some(t) => t.as_str(),
        None => "groupchat",
    };
    push_attr(xml, "type", stanza_type, Ghost(before), Ghost(done));
    proof {
        done = done.push(("type"@, type_text(m)));
        assert(done =~= seq![("type"@, type_text(m))]);
    }
    if let Some(from) = &message.from {
        push_attr(xml, "from", from.as_str(), Ghost(before), Ghost(done));
        proof {
            done = done.push(("from"@, from@));
        }
    }
    if let Some(to) = &message.to {
        push_attr(xml, "to", to.as_str(), Ghost(before), Ghost(done));
        proof {
            done = done.push(("to"@, to@));
        }
    }
    assert(done == message_attrs(m));
    close_tag(xml, Ghost(start), Ghost("message"@), Ghost(done));
}

fn push_summary(xml: &mut Vec<char>, summary: &Option<String>)
    ensures
        final(xml)@ == old(xml)@ + summary_xml(summary.deep_view()),
{
    let ghost start = xml@;
    if let Some(s) = summary {
        open_tag(xml, "body");
        close_tag(xml, Ghost(start), Ghost("body"@), Ghost(Seq::empty()));
        xml::push_xml_text(xml, s.as_str());
        xml::push_xml_end(xml, "body");
    }
    assert(xml@ =~= start + summary_xml(summary.deep_view()));
}

fn push_xhtml(xml: &mut Vec<char>, summary: &Option<String>)
    ensures
        final(xml)@ == old(xml)@ + xhtml_xml(summary.deep_view()),
{
    let ghost start = xml@;
    if let Some(s) = summary {
        open_tag(xml, "html");
        push_attr(
            xml,
            "xmlns",
            "http://jabber.org/protocol/xhtml-im",
            Ghost(xml@),
            Ghost(Seq::empty()),
        );
        proof {
            let one = Seq::<(Seq<char>, Seq<char>)>::empty().push(
                ("xmlns"@, "http://jabber.org/protocol/xhtml-im"@),
            );
            assert(one =~= html_attrs());
        }
        close_tag(xml, Ghost(start), Ghost("html"@), Ghost(html_attrs()));
        let ghost inner = xml@;
        open_tag(xml, "body");
        push_attr(
            xml,
            "xmlns",
            "http://www.w3.org/1999/xhtml",
            Ghost(xml@),
            Ghost(Seq::empty()),
        );
        proof {
            let one = Seq::<(Seq<char>, Seq<char>)>::empty().push(
                ("xmlns"@, "http://www.w3.org/1999/xhtml"@),
            );
            assert(one =~= html_body_attrs());
        }
        close_tag(xml, Ghost(inner), Ghost("body"@), Ghost(html_body_attrs()));
        xml::push_xml_text(xml, s.as_str());
        xml::push_xml_end(xml, "body");
        xml::push_xml_end(xml, "html");
    }
    assert(xml@ =~= start + xhtml_xml(summary.deep_view()));
}

fn push_payload(xml: &mut Vec<char>, payload: &oi::NwwsOiPayload, issue: &str)
    ensures
        final(xml)@ == old(xml)@ + payload_xml(payload.deep_view(), issue@),
{
    let ghost p = payload.deep_view();
    let ghost start = xml@;
    let ghost none = Seq::<(Seq<char>, Seq<char>)>::empty();
    open_tag(xml, "x");
    let ghost before = xml@;
    let ghost a1 = none.push(("xmlns"@, "nwws-oi"@));
    let ghost a2 = a1.push(("cccc"@, p.cccc));
    let ghost a3 = a2.push(("ttaaii"@, p.ttaaii));
    let ghost a4 = a3.push(("issue"@, issue@));
    let ghost a5 = a4.push(("awipsid"@, p.awips_id));
    let ghost a6 = a5.push(("id"@, id_text(p.id)));
    push_attr(xml, "xmlns", "nwws-oi", Ghost(before), Ghost(none));
    push_attr(xml, "cccc", payload.cccc.as_str(), Ghost(before), Ghost(a1));
    push_attr(xml, "ttaaii", payload.ttaaii.as_str(), Ghost(before), Ghost(a2));
    push_attr(xml, "issue", issue, Ghost(before), Ghost(a3));
    push_attr(xml, "awipsid", payload.awips_id.as_str(), Ghost(before), Ghost(a4));
    let id = wrapper_id(payload.id);
    push_attr(xml, "id", id.as_str(), Ghost(before), Ghost(a5));
    assert(a6 =~= payload_attrs(p, issue@));
    close_tag(xml, Ghost(start), Ghost("x"@), Ghost(a6));
    xml::push_xml_text(xml, payload.raw_bulletin.as_str());
    xml::push_xml_end(xml, "x");
    assert(xml@ =~= start + payload_xml(p, issue@));
}

/// Writes the archive form of a message. Reading it gives the message back.
pub fn oi_message_to_archive_xml(message: &NwwsOiMessage) -> (r: Result<String, OiArchiveError>)
    ensures
        match message.deep_view().payload {
            None => r == Err::<String, OiArchiveError>(OiArchiveError::MissingPayload),
            Some(p) => if clock::writable_at(p.instant, p.utc_offset) {
                let m = message.deep_view();
                r matches Ok(s) && s@ == archive_xml(
                    m,
                    p,
                    clock::rfc3339_text(p.instant, p.utc_offset),
                ) && oi::parse_oi(s@) == Ok::<OiMessageView, ErrorKind>(archived(m))
            } else {
                r == Err::<String, OiArchiveError>(OiArchiveError::UnwritableIssueTime)
            },
        },
{
    let payload = match &message.payload {
        Some(p) => p,
        None => {
            return Err(OiArchiveError::MissingPayload);
        },
    };
    let issue = match payload.issue.to_rfc3339() {
        Some(s) => s,
        None => {
            return Err(OiArchiveError::UnwritableIssueTime);
        },
    };
    let mut xml: Vec<char> = Vec::new();
    push_message_start(&mut xml, message);
    push_summary(&mut xml, &message.summary);
    push_xhtml(&mut xml, &message.xhtml_summary);
    push_payload(&mut xml, payload, issue.as_str());
    xml::push_xml_end(&mut xml, "message");
    proof {
        let m = message.deep_view();
        assert(xml@ =~= archive_xml(m, payload.deep_view(), issue@));
        archive_form_reads_back(m, payload.deep_view(), issue@);
    }
    Ok(text::to_text(xml.as_slice()))
}

// ---------------------------------------------------------------------------
// Reading back
// ---------------------------------------------------------------------------

proof fn lemma_run_start(
    pre: Seq<char>,
    name: Seq<char>,
    attrs: Seq<(Seq<char>, Seq<char>)>,
    rest: Seq<char>,
    st: StanzaView,
    after: StanzaView,
)
    requires
        xml::is_name(name),
        forall|i: int| 0 <= i < attrs.len() ==> xml::is_name((#[trigger] attrs[i]).0),
        oi::stanza_step(st, XmlTokenView::Start { name, attrs, closed: false }) == Some(after),
    ensures
        oi::stanza_from(
            pre + xml::start_text(name, attrs) + rest,
            pre.len() as int,
            st,
        ) == oi::stanza_from(
            pre + xml::start_text(name, attrs) + rest,
            (pre + xml::start_text(name, attrs)).len() as int,
            after,
        ),
{
    xml::lemma_start_reads_back(pre, name, attrs, rest);
}

proof fn lemma_run_end(
    pre: Seq<char>,
    name: Seq<char>,
    rest: Seq<char>,
    st: StanzaView,
    after: StanzaView,
)
    requires
        xml::is_name(name),
        oi::stanza_step(st, XmlTokenView::End { name }) == Some(after),
    ensures
        oi::stanza_from(pre + xml::end_text(name) + rest, pre.len() as int, st) == oi::stanza_from(
            pre + xml::end_text(name) + rest,
            (pre + xml::end_text(name)).len() as int,
            after,
        ),
{
    xml::lemma_end_reads_back(pre, name, rest);
}

proof fn lemma_run_text(
    pre: Seq<char>,
    value: Seq<char>,
    rest: Seq<char>,
    st: StanzaView,
    after: StanzaView,
)
    requires
        rest.len() > 0,
        rest[0] == '<',
        value.len() == 0 ==> after == st,
        value.len() > 0 ==> oi::stanza_step(st, XmlTokenView::Text { value }) == Some(after),
    ensures
        oi::stanza_from(
            pre + xml::escape(value, false) + rest,
            pre.len() as int,
            st,
        ) == oi::stanza_from(
            pre + xml::escape(value, false) + rest,
            (pre + xml::escape(value, false)).len() as int,
            after,
        ),
{
    if value.len() > 0 {
        xml::lemma_text_reads_back(pre, value, rest);
    } else {
        assert(pre + xml::escape(value, false) =~= pre);
    }
}

proof fn lemma_names()
    ensures
        xml::is_name("message"@),
        xml::is_name("body"@),
        xml::is_name("html"@),
        xml::is_name("x"@),
        xml::is_name("xmlns"@),
        xml::is_name("type"@),
        xml::is_name("from"@),
        xml::is_name("to"@),
        xml::is_name("cccc"@),
        xml::is_name("ttaaii"@),
        xml::is_name("issue"@),
        xml::is_name("awipsid"@),
        xml::is_name("id"@),
{
    reveal_strlit("message");
    reveal_strlit("body");
    reveal_strlit("html");
    reveal_strlit("x");
    reveal_strlit("xmlns");
    reveal_strlit("type");
    reveal_strlit("from");
    reveal_strlit("to");
    reveal_strlit("cccc");
    reveal_strlit("ttaaii");
    reveal_strlit("issue");
    reveal_strlit("awipsid");
    reveal_strlit("id");
}

proof fn lemma_regroup(pre: Seq<char>, a: Seq<char>, b: Seq<char>, c: Seq<char>, rest: Seq<char>)
    ensures
        pre + (a + b + c) + rest == pre + a + (b + c + rest),
        pre + (a + b + c) + rest == (pre + a) + b + (c + rest),
        pre + (a + b + c) + rest == (pre + a + b) + c + rest,
        pre + (a + b + c) == pre + a + b + c,
{
    assert(pre + (a + b + c) + rest =~= pre + a + (b + c + rest));
    assert(pre + (a + b + c) + rest =~= (pre + a) + b + (c + rest));
    assert(pre + (a + b + c) + rest =~= (pre + a + b) + c + rest);
    assert(pre + (a + b + c) =~= pre + a + b + c);
}

/// Reading an element that holds nothing but text.
proof fn lemma_run_leaf(
    pre: Seq<char>,
    name: Seq<char>,
    attrs: Seq<(Seq<char>, Seq<char>)>,
    v: Seq<char>,
    rest: Seq<char>,
    st: StanzaView,
    opened: StanzaView,
    filled: StanzaView,
    closed: StanzaView,
)
    requires
        xml::is_name(name),
        forall|i: int| 0 <= i < attrs.len() ==> xml::is_name((#[trigger] attrs[i]).0),
        oi::stanza_step(st, XmlTokenView::Start { name, attrs, closed: false }) == Some(opened),
        v.len() == 0 ==> filled == opened,
        v.len() > 0 ==> oi::stanza_step(opened, XmlTokenView::Text { value: v }) == Some(filled),
        oi::stanza_step(filled, XmlTokenView::End { name }) == Some(closed),
    ensures
        ({
            let piece = xml::start_text(name, attrs) + xml::escape(v, false) + xml::end_text(name);
            oi::stanza_from(pre + piece + rest, pre.len() as int, st) == oi::stanza_from(
                pre + piece + rest,
                (pre + piece).len() as int,
                closed,
            )
        }),
{
    let a = xml::start_text(name, attrs);
    let b = xml::escape(v, false);
    let c = xml::end_text(name);
    lemma_regroup(pre, a, b, c, rest);
    lemma_run_start(pre, name, attrs, b + c + rest, st, opened);
    assert((c + rest)[0] == '<');
    lemma_run_text(pre + a, v, c + rest, opened, filled);
    lemma_run_end(pre + a + b, name, rest, filled, closed);
}

proof fn lemma_run_summary(pre: Seq<char>, summary: Option<Seq<char>>, rest: Seq<char>, st: StanzaView)
    requires
        st.stack == seq!["message"@],
        st.target == Target::Nothing,
        st.depth == 0,
        st.summary is None,
    ensures
        oi::stanza_from(pre + summary_xml(summary) + rest, pre.len() as int, st)
            == oi::stanza_from(
            pre + summary_xml(summary) + rest,
            (pre + summary_xml(summary)).len() as int,
            StanzaView { summary, ..st },
        ),
{
    match summary {
        None => {
            assert(pre + summary_xml(summary) =~= pre);
            assert(StanzaView { summary, ..st } == st);
        },
        Some(v) => {
            lemma_names();
            let none = Seq::<(Seq<char>, Seq<char>)>::empty();
            let empty = Seq::<char>::empty();
            let opened = StanzaView {
                stack: st.stack.push("body"@),
                summary: Some(empty),
                target: Target::Summary,
                depth: 1,
                ..st
            };
            let filled = StanzaView { summary: Some(v), ..opened };
            assert(empty + v =~= v);
            assert(v.len() == 0 ==> v =~= empty);
            let closed = StanzaView { summary: Some(v), ..st };
            assert(filled.stack.drop_last() =~= st.stack);
            lemma_run_leaf(pre, "body"@, none, v, rest, st, opened, filled, closed);
        },
    }
}

proof fn lemma_run_xhtml(pre: Seq<char>, summary: Option<Seq<char>>, rest: Seq<char>, st: StanzaView)
    requires
        st.stack == seq!["message"@],
        st.target == Target::Nothing,
        st.depth == 0,
        st.xhtml is None,
    ensures
        oi::stanza_from(pre + xhtml_xml(summary) + rest, pre.len() as int, st) == oi::stanza_from(
            pre + xhtml_xml(summary) + rest,
            (pre + xhtml_xml(summary)).len() as int,
            StanzaView { xhtml: summary, ..st },
        ),
{
    match summary {
        None => {
            assert(pre + xhtml_xml(summary) =~= pre);
            assert(StanzaView { xhtml: summary, ..st } == st);
        },
        Some(v) => {
            lemma_names();
            let a = xml::start_text("html"@, html_attrs());
            let b = xml::start_text("body"@, html_body_attrs());
            let c = xml::escape(v, false);
            let d = xml::end_text("body"@);
            let e = xml::end_text("html"@);
            let leaf = b + c + d;
            let empty = Seq::<char>::empty();
            assert("html"@ != "body"@ && "html"@ != "x"@) by {
                reveal_strlit("html");
                reveal_strlit("body");
                reveal_strlit("x");
                assert("html"@[0] != "body"@[0]);
                assert("html"@.len() != "x"@.len());
            }
            assert(xhtml_xml(summary) == a + leaf + e) by {
                lemma_regroup(a, b, c, d, e);
            }
            lemma_regroup(pre, a, leaf, e, rest);
            let outer = StanzaView { stack: st.stack.push("html"@), ..st };
            lemma_run_start(pre, "html"@, html_attrs(), leaf + e + rest, st, outer);
            let opened = StanzaView {
                stack: outer.stack.push("body"@),
                xhtml: Some(empty),
                target: Target::Xhtml,
                depth: 2,
                ..outer
            };
            let filled = StanzaView { xhtml: Some(v), ..opened };
            assert(empty + v =~= v);
            assert(v.len() == 0 ==> v =~= empty);
            let inner = StanzaView { xhtml: Some(v), ..outer };
            assert(filled.stack.drop_last() =~= outer.stack);
            lemma_run_leaf(
                pre + a,
                "body"@,
                html_body_attrs(),
                v,
                e + rest,
                outer,
                opened,
                filled,
                inner,
            );
            let closed = StanzaView { xhtml: Some(v), ..st };
            assert(inner.stack.drop_last() =~= st.stack);
            lemma_run_end(pre + a + leaf, "html"@, rest, inner, closed);
        },
    }
}

proof fn lemma_payload_attr_values(p: OiPayloadView, issue: Seq<char>)
    ensures
        oi::attr(payload_attrs(p, issue), "xmlns"@) == Some("nwws-oi"@),
        oi::attr(payload_attrs(p, issue), "cccc"@) == Some(p.cccc),
        oi::attr(payload_attrs(p, issue), "ttaaii"@) == Some(p.ttaaii),
        oi::attr(payload_attrs(p, issue), "issue"@) == Some(issue),
        oi::attr(payload_attrs(p, issue), "awipsid"@) == Some(p.awips_id),
        oi::attr(payload_attrs(p, issue), "id"@) == Some(id_text(p.id)),
{
    reveal_strlit("xmlns");
    reveal_strlit("cccc");
    reveal_strlit("ttaaii");
    reveal_strlit("issue");
    reveal_strlit("awipsid");
    reveal_strlit("id");
    reveal_with_fuel(oi::attr_from, 7);
    assert("xmlns"@[0] == 'x');
    assert("cccc"@[0] == 'c');
    assert("ttaaii"@[0] == 't');
    assert("issue"@[0] == 'i');
    assert("awipsid"@[0] == 'a');
    assert("issue"@.len() != "id"@.len());
}

proof fn lemma_message_attr_values(m: OiMessageView)
    ensures
        oi::attr(message_attrs(m), "type"@) == Some(type_text(m)),
        oi::attr(message_attrs(m), "from"@) == m.from,
        oi::attr(message_attrs(m), "to"@) == m.to,
{
    reveal_strlit("type");
    reveal_strlit("from");
    reveal_strlit("to");
    reveal_with_fuel(oi::attr_from, 4);
    assert("type"@[0] == 't');
    assert("from"@[0] == 'f');
    assert("to"@.len() == 2);
    assert("type"@.len() == 4);
}

proof fn lemma_run_payload(
    pre: Seq<char>,
    p: OiPayloadView,
    issue: Seq<char>,
    rest: Seq<char>,
    st: StanzaView,
)
    requires
        st.stack == seq!["message"@],
        st.target == Target::Nothing,
        st.depth == 0,
        st.payload_attrs is None,
        st.payload_text == Seq::<char>::empty(),
    ensures
        oi::stanza_from(pre + payload_xml(p, issue) + rest, pre.len() as int, st)
            == oi::stanza_from(
            pre + payload_xml(p, issue) + rest,
            (pre + payload_xml(p, issue)).len() as int,
            StanzaView {
                payload_attrs: Some(payload_attrs(p, issue)),
                payload_text: p.raw_bulletin,
                ..st
            },
        ),
{
    lemma_names();
    lemma_payload_attr_values(p, issue);
    let attrs = payload_attrs(p, issue);
    let v = p.raw_bulletin;
    let a = xml::start_text("x"@, attrs);
    let b = xml::escape(v, false);
    let c = xml::end_text("x"@);
    let s = pre + payload_xml(p, issue) + rest;
    let empty = Seq::<char>::empty();
    assert("x"@ != "body"@) by {
        reveal_strlit("body");
        reveal_strlit("x");
        assert("x"@.len() != "body"@.len());
    }
    let opened = StanzaView {
        stack: st.stack.push("x"@),
        payload_attrs: Some(attrs),
        target: Target::Payload,
        depth: 1,
        ..st
    };
    assert(s =~= pre + a + (b + c + rest));
    lemma_run_start(pre, "x"@, attrs, b + c + rest, st, opened);
    let filled = StanzaView { payload_text: v, ..opened };
    assert(empty + v =~= v);
    assert(v.len() == 0 ==> v =~= empty);
    assert(s =~= (pre + a) + b + (c + rest));
    lemma_run_text(pre + a, v, c + rest, opened, filled);
    let closed = StanzaView { payload_attrs: Some(attrs), payload_text: v, ..st };
    assert(filled.stack.drop_last() =~= st.stack);
    assert(s =~= (pre + a + b) + c + rest);
    lemma_run_end(pre + a + b, "x"@, rest, filled, closed);
    assert(pre + a + b + c =~= pre + payload_xml(p, issue));
}

/// A written identifier reads back.
pub proof fn id_reads_back(id: NwwsOiId)
    ensures
        oi::parse_id(id_text(id)) == Some(id),
{
    let a = number::decimal(id.process_id as nat);
    let b = number::decimal(id.sequence as nat);
    let s = id_text(id);
    number::lemma_decimal_reads_back(id.process_id as nat);
    number::lemma_decimal_reads_back(id.sequence as nat);
    reveal_strlit(".");
    let dot = "."@;
    let k = a.len() as int;
    text::lemma_find_from(s, dot, 0);
    assert(s.subrange(k, k + 1) =~= dot);
    assert(text::occurs_at(s, dot, k));
    assert forall|j: int| 0 <= j < k implies !text::occurs_at(s, dot, j) by {
        assert(s.subrange(j, j + 1)[0] == s[j]);
        assert(s[j] == a[j]);
        assert(text::is_digit(a[j]));
    }
    assert(text::find(s, dot) == Some(k));
    assert(s.take(k) =~= a);
    assert(s.skip(k + 1) =~= b);
}

/// The archive form of a message reads back as the message.
pub proof fn archive_form_reads_back(m: OiMessageView, p: OiPayloadView, issue: Seq<char>)
    requires
        m.payload == Some(p),
        clock::rfc3339(issue) == Some((p.instant, p.utc_offset)),
    ensures
        oi::parse_oi(archive_xml(m, p, issue)) == Ok::<OiMessageView, ErrorKind>(archived(m)),
{
    lemma_names();
    lemma_message_attr_values(m);
    lemma_payload_attr_values(p, issue);
    id_reads_back(p.id);
    let s = archive_xml(m, p, issue);
    let none = Seq::<char>::empty();
    let attrs = message_attrs(m);
    let a = xml::start_text("message"@, attrs);
    let b = summary_xml(m.summary);
    let c = xhtml_xml(m.xhtml_summary);
    let d = payload_xml(p, issue);
    let e = xml::end_text("message"@);
    let st0 = oi::stanza_start();
    let st1 = StanzaView { stack: st0.stack.push("message"@), started: true, attrs, ..st0 };
    assert(st1.stack =~= seq!["message"@]);
    assert(s =~= none + a + (b + c + d + e));
    lemma_run_start(none, "message"@, attrs, b + c + d + e, st0, st1);
    assert(none + a =~= a);
    assert(s =~= a + b + (c + d + e));
    lemma_run_summary(a, m.summary, c + d + e, st1);
    let st2 = StanzaView { summary: m.summary, ..st1 };
    assert(s =~= (a + b) + c + (d + e));
    lemma_run_xhtml(a + b, m.xhtml_summary, d + e, st2);
    let st3 = StanzaView { xhtml: m.xhtml_summary, ..st2 };
    assert(s =~= (a + b + c) + d + e);
    lemma_run_payload(a + b + c, p, issue, e, st3);
    let st4 = StanzaView {
        payload_attrs: Some(payload_attrs(p, issue)),
        payload_text: p.raw_bulletin,
        ..st3
    };
    let st5 = StanzaView { stack: st4.stack.drop_last(), ..st4 };
    assert(s =~= (a + b + c + d) + e + none);
    lemma_run_end(a + b + c + d, "message"@, none, st4, st5);
    assert(st5.stack.len() == 0);
}

} // verus!
