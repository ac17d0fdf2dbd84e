//! NWWS-OI messages: stanzas, payloads and their archive form.

use vstd::prelude::*;

use crate::clock;
use crate::error::{ErrorKind, Field, ParseError, Result};
use crate::number;
use crate::product;
use crate::product::{NwwsContent, NwwsContentView};
use crate::text;
use crate::wmo;
use crate::wmo::{WmoMessage, WmoMessageView};
use crate::xml;
use crate::xml::{XmlToken, XmlTokenView};

verus! {

// ---------------------------------------------------------------------------
// Messages
// ---------------------------------------------------------------------------

/// The identifier `process.sequence` of a payload.
#[derive(Debug, Clone, Copy, PartialEq, Eq, Structural)]
pub struct NwwsOiId {
    pub process_id: u64,
    pub sequence: u64,
}

/// An issue time: an instant and the UTC offset it was written with.
#[derive(Debug, Clone, Copy, PartialEq, Eq, Structural)]
pub struct IssueTime {
    nanos: i128,
    offset: i32,
}

impl IssueTime {
    /// The offset is one that can be written, and the instant is near a
    /// representable date.
    #[verifier::type_invariant]
    spec fn in_range(self) -> bool {
        clock::is_offset(self.offset as int) && clock::in_span(self.nanos as int)
    }

    pub closed spec fn instant(self) -> int {
        self.nanos as int
    }

    pub closed spec fn utc_offset(self) -> int {
        self.offset as int
    }

    /// An issue time, if the offset can be written and the instant is near a
    /// representable date.
    pub fn new(nanos: i128, offset: i32) -> (r: Option<IssueTime>)
        ensures
            match r {
                Some(t) => t.instant() == nanos && t.utc_offset() == offset,
                None => !clock::is_offset(offset as int) || !clock::in_span(nanos as int),
            },
    {
        if -86_400 < offset && offset < 86_400 && offset % 60 == 0
            && -400_000_000_000_000_000_000 < nanos && nanos < 400_000_000_000_000_000_000 {
            Some(IssueTime { nanos, offset })
        } else {
            None
        }
    }

    /// Nanoseconds since the Unix epoch.
    pub fn nanos(self) -> (r: i128)
        ensures
            r == self.instant(),
            clock::in_span(r as int),
    {
        proof {
            use_type_invariant(self);
        }
        self.nanos
    }

    /// The RFC 3339 text, if the time can be written.
    pub fn to_rfc3339(self) -> (r: Option<String>)
        ensures
            r.deep_view() == issue_text(self),
            r matches Some(s) ==> clock::rfc3339(s@) == Some((self.instant(), self.utc_offset())),
    {
        proof {
            use_type_invariant(self);
        }
        clock::format_rfc3339(self.nanos, self.offset)
    }
}

/// The RFC 3339 text of an issue time, if it can be written.
pub open spec fn issue_text(t: IssueTime) -> Option<Seq<char>> {
    if clock::writable_at(t.instant(), t.utc_offset()) {
        Some(clock::rfc3339_text(t.instant(), t.utc_offset()))
    } else {
        None
    }
}

/// The payload of a message: a bulletin and what the wrapper says of it.
#[derive(Debug, Clone, PartialEq, Eq)]
pub struct NwwsOiPayload {
    pub cccc: String,
    pub ttaaii: String,
    pub issue: IssueTime,
    pub awips_id: String,
    pub id: NwwsOiId,
    pub raw_bulletin: String,
}

/// What a payload holds.
pub struct OiPayloadView {
    pub cccc: Seq<char>,
    pub ttaaii: Seq<char>,
    pub instant: int,
    pub utc_offset: int,
    pub awips_id: Seq<char>,
    pub id: NwwsOiId,
    pub raw_bulletin: Seq<char>,
}

impl DeepView for NwwsOiPayload {
    type V = OiPayloadView;

    open spec fn deep_view(&self) -> OiPayloadView {
        OiPayloadView {
            cccc: self.cccc@,
            ttaaii: self.ttaaii@,
            instant: self.issue.instant(),
            utc_offset: self.issue.utc_offset(),
            awips_id: self.awips_id@,
            id: self.id,
            raw_bulletin: self.raw_bulletin@,
        }
    }
}

/// The issue time of a payload as it is written, if it can be.
pub open spec fn written_issue(p: OiPayloadView) -> Option<Seq<char>> {
    if clock::writable_at(p.instant, p.utc_offset) {
        Some(clock::rfc3339_text(p.instant, p.utc_offset))
    } else {
        None
    }
}

/// A message stanza.
#[derive(Debug, Clone, PartialEq, Eq)]
pub struct NwwsOiMessage {
    pub stanza_type: Option<String>,
    pub from: Option<String>,
    pub to: Option<String>,
    pub summary: Option<String>,
    pub xhtml_summary: Option<String>,
    pub payload: Option<NwwsOiPayload>,
}

/// What a message stanza holds.
pub struct OiMessageView {
    pub stanza_type: Option<Seq<char>>,
    pub from: Option<Seq<char>>,
    pub to: Option<Seq<char>>,
    pub summary: Option<Seq<char>>,
    pub xhtml_summary: Option<Seq<char>>,
    pub payload: Option<OiPayloadView>,
}

impl DeepView for NwwsOiMessage {
    type V = OiMessageView;

    open spec fn deep_view(&self) -> OiMessageView {
        OiMessageView {
            stanza_type: self.stanza_type.deep_view(),
            from: self.from.deep_view(),
            to: self.to.deep_view(),
            summary: self.summary.deep_view(),
            xhtml_summary: self.xhtml_summary.deep_view(),
            payload: self.payload.deep_view(),
        }
    }
}

// ---------------------------------------------------------------------------
// Stanza grammar
// ---------------------------------------------------------------------------

/// The part of a message that text content goes to.
#[derive(Debug, Clone, Copy, PartialEq, Eq, Structural)]
pub enum Target {
    Nothing,
    Summary,
    Xhtml,
    Payload,
}

/// The state of reading a stanza: the open elements, where text goes (the
/// element at depth `depth`), and what was read so far.
pub struct StanzaView {
    pub stack: Seq<Seq<char>>,
    pub started: bool,
    pub target: Target,
    pub depth: int,
    pub attrs: Seq<(Seq<char>, Seq<char>)>,
    pub summary: Option<Seq<char>>,
    pub xhtml: Option<Seq<char>>,
    pub payload_attrs: Option<Seq<(Seq<char>, Seq<char>)>>,
    pub payload_text: Seq<char>,
}

/// The value of the first attribute with the given name, from `i` on.
pub open spec fn attr_from(attrs: Seq<(Seq<char>, Seq<char>)>, key: Seq<char>, i: int) -> Option<
    Seq<char>,
>
    decreases attrs.len() - i,
{
    if i < 0 || i >= attrs.len() {
        None
    } else if attrs[i].0 == key {
        Some(attrs[i].1)
    } else {
        attr_from(attrs, key, i + 1)
    }
}

/// The value of the first attribute with the given name.
pub open spec fn attr(attrs: Seq<(Seq<char>, Seq<char>)>, key: Seq<char>) -> Option<Seq<char>> {
    attr_from(attrs, key, 0)
}

/// The state after entering an element below the root.
pub open spec fn entered(
    st: StanzaView,
    name: Seq<char>,
    attrs: Seq<(Seq<char>, Seq<char>)>,
    closed: bool,
) -> StanzaView {
    let depth = if closed {
        0
    } else {
        st.stack.len() as int
    };
    if st.target != Target::Nothing {
        st
    } else if st.stack.len() == 1 && name == "body"@ && st.summary is None {
        StanzaView {
            summary: Some(Seq::empty()),
            target: if closed {
                Target::Nothing
            } else {
                Target::Summary
            },
            depth,
            ..st
        }
    } else if st.stack.len() == 2 && st.stack[1] == "html"@ && name == "body"@ && st.xhtml is None {
        StanzaView {
            xhtml: Some(Seq::empty()),
            target: if closed {
                Target::Nothing
            } else {
                Target::Xhtml
            },
            depth,
            ..st
        }
    } else if st.stack.len() == 1 && name == "x"@ && attr(attrs, "xmlns"@) == Some("nwws-oi"@)
        && st.payload_attrs is None {
        StanzaView {
            payload_attrs: Some(attrs),
            target: if closed {
                Target::Nothing
            } else {
                Target::Payload
            },
            depth,
            ..st
        }
    } else {
        st
    }
}

/// The text with `more` appended, if there is one.
pub open spec fn appended(s: Option<Seq<char>>, more: Seq<char>) -> Option<Seq<char>> {
    match s {
        Some(t) => Some(t + more),
        None => None,
    }
}

/// The state after a token; `None` where it cannot occur.
pub open spec fn stanza_step(st: StanzaView, token: XmlTokenView) -> Option<StanzaView> {
    match token {
        XmlTokenView::Start { name, attrs, closed } => if st.stack.len() == 0 {
            if st.started || name != "message"@ {
                None
            } else {
                Some(
                    StanzaView {
                        stack: if closed {
                            st.stack
                        } else {
                            st.stack.push(name)
                        },
                        started: true,
                        attrs,
                        ..st
                    },
                )
            }
        } else {
            Some(
                StanzaView {
                    stack: if closed {
                        st.stack
                    } else {
                        st.stack.push(name)
                    },
                    ..entered(st, name, attrs, closed)
                },
            )
        },
        XmlTokenView::End { name } => if st.stack.len() > 0 && st.stack.last() == name {
            let leaving = st.stack.len() - 1 == st.depth;
            Some(
                StanzaView {
                    stack: st.stack.drop_last(),
                    target: if leaving {
                        Target::Nothing
                    } else {
                        st.target
                    },
                    depth: if leaving {
                        0
                    } else {
                        st.depth
                    },
                    ..st
                },
            )
        } else {
            None
        },
        XmlTokenView::Text { value } => if st.stack.len() == 0 {
            if text::trim(value).len() == 0 {
                Some(st)
            } else {
                None
            }
        } else {
            match st.target {
                Target::Nothing => Some(st),
                Target::Summary => Some(
                    StanzaView { summary: appended(st.summary, value), ..st },
                ),
                Target::Xhtml => Some(StanzaView { xhtml: appended(st.xhtml, value), ..st }),
                Target::Payload => Some(
                    StanzaView { payload_text: st.payload_text + value, ..st },
                ),
            }
        },
    }
}

/// The state after the input from `i` on; `None` where it is malformed.
pub open spec fn stanza_from(s: Seq<char>, i: int, st: StanzaView) -> Option<StanzaView>
    decreases s.len() - i,
    when 0 <= i
    via stanza_decreases
{
    if i >= s.len() {
        Some(st)
    } else {
        match xml::token_at(s, i) {
            Some((Some(token), next)) => match stanza_step(st, token) {
                Some(after) => stanza_from(s, next, after),
                None => None,
            },
            Some((None, next)) => stanza_from(s, next, st),
            None => None,
        }
    }
}

#[via_fn]
proof fn stanza_decreases(s: Seq<char>, i: int, st: StanzaView) {
    if i < s.len() {
        xml::lemma_token_advances(s, i);
    }
}

pub open spec fn stanza_start() -> StanzaView {
    StanzaView {
        stack: Seq::empty(),
        started: false,
        target: Target::Nothing,
        depth: 0,
        attrs: Seq::empty(),
        summary: None,
        xhtml: None,
        payload_attrs: None,
        payload_text: Seq::empty(),
    }
}

/// Reads a payload identifier: two decimal numbers with a dot between.
pub open spec fn parse_id(s: Seq<char>) -> Option<NwwsOiId> {
    match text::split_once(s, "."@) {
        None => None,
        Some((a, b)) => if a.len() > 0 && b.len() > 0 && number::all_digits(a)
            && number::all_digits(b) && number::digits_value(a) <= u64::MAX
            && number::digits_value(b) <= u64::MAX {
            Some(
                NwwsOiId {
                    process_id: number::digits_value(a) as u64,
                    sequence: number::digits_value(b) as u64,
                },
            )
        } else {
            None
        },
    }
}

/// Reads the payload element.
pub open spec fn parse_payload(attrs: Seq<(Seq<char>, Seq<char>)>, raw: Seq<char>) -> std::result::Result<
    OiPayloadView,
    ErrorKind,
> {
    match (
        attr(attrs, "cccc"@),
        attr(attrs, "ttaaii"@),
        attr(attrs, "issue"@),
        attr(attrs, "awipsid"@),
        attr(attrs, "id"@),
    ) {
        (Some(cccc), Some(ttaaii), Some(issue), Some(awips_id), Some(id)) => match (
            clock::rfc3339(issue),
            parse_id(id),
        ) {
            (Some((instant, utc_offset)), Some(id)) => Ok(
                OiPayloadView { cccc, ttaaii, instant, utc_offset, awips_id, id, raw_bulletin: raw },
            ),
            _ => Err(ErrorKind::InvalidField(Field::OiAttribute)),
        },
        _ => Err(ErrorKind::MissingField(Field::OiAttribute)),
    }
}

/// Whether the issue time of a message's payload, if it has one, can be
/// written.
pub open spec fn issue_is_writable(m: OiMessageView) -> bool {
    m.payload matches Some(p) ==> clock::writable_at(p.instant, p.utc_offset)
}

/// Reads a message stanza.
pub open spec fn parse_oi(s: Seq<char>) -> std::result::Result<OiMessageView, ErrorKind> {
    match stanza_from(s, 0, stanza_start()) {
        None => Err(ErrorKind::InvalidField(Field::OiMessage)),
        Some(st) => finish_stanza(st),
    }
}

/// The message that a read stanza makes.
pub open spec fn finish_stanza(st: StanzaView) -> std::result::Result<OiMessageView, ErrorKind> {
    if !st.started || st.stack.len() > 0 {
        Err(ErrorKind::UnexpectedEof(Field::OiMessage))
    } else {
        let without = OiMessageView {
            stanza_type: attr(st.attrs, "type"@),
            from: attr(st.attrs, "from"@),
            to: attr(st.attrs, "to"@),
            summary: st.summary,
            xhtml_summary: st.xhtml,
            payload: None,
        };
        match st.payload_attrs {
            None => Ok(without),
            Some(attrs) => match parse_payload(attrs, st.payload_text) {
                Ok(payload) => Ok(OiMessageView { payload: Some(payload), ..without }),
                Err(kind) => Err(kind),
            },
        }
    }
}

// ---------------------------------------------------------------------------
// Reading
// ---------------------------------------------------------------------------

struct Stanza {
    stack: Vec<Vec<char>>,
    started: bool,
    target: Target,
    depth: usize,
    attrs: Vec<(Vec<char>, Vec<char>)>,
    summary: Option<Vec<char>>,
    xhtml: Option<Vec<char>>,
    payload_attrs: Option<Vec<(Vec<char>, Vec<char>)>>,
    payload_text: Vec<char>,
}

spec fn opt_chars(v: Option<Vec<char>>) -> Option<Seq<char>> {
    match v {
        Some(c) => Some(c@),
        None => None,
    }
}

spec fn opt_attrs(v: Option<Vec<(Vec<char>, Vec<char>)>>) -> Option<Seq<(Seq<char>, Seq<char>)>> {
    match v {
        Some(a) => Some(xml::attr_views(a@)),
        None => None,
    }
}

impl View for Stanza {
    type V = StanzaView;

    closed spec fn view(&self) -> StanzaView {
        StanzaView {
            stack: text::views(self.stack@),
            started: self.started,
            target: self.target,
            depth: self.depth as int,
            attrs: xml::attr_views(self.attrs@),
            summary: opt_chars(self.summary),
            xhtml: opt_chars(self.xhtml),
            payload_attrs: opt_attrs(self.payload_attrs),
            payload_text: self.payload_text@,
        }
    }
}

fn find_attr(attrs: &Vec<(Vec<char>, Vec<char>)>, key: &str) -> (r: Option<String>)
    ensures
        r.deep_view() == attr(xml::attr_views(attrs@), key@),
{
    let ghost all = xml::attr_views(attrs@);
    let mut i: usize = 0;
    while i < attrs.len()
        invariant
            i <= attrs@.len(),
            all == xml::attr_views(attrs@),
            attr(all, key@) == attr_from(all, key@, i as int),
        decreases attrs.len() - i,
    {
        if text::is_str(attrs[i].0.as_slice(), key) {
            return Some(text::to_text(attrs[i].1.as_slice()));
        }
        i += 1;
    }
    None
}

fn is_nwws(attrs: &Vec<(Vec<char>, Vec<char>)>) -> (r: bool)
    ensures
        r == (attr(xml::attr_views(attrs@), "xmlns"@) == Some("nwws-oi"@)),
{
    match find_attr(attrs, "xmlns") {
        Some(v) => {
            let c = text::to_chars(v.as_str());
            text::is_str(c.as_slice(), "nwws-oi")
        },
        None => false,
    }
}

impl Stanza {
    fn new() -> (r: Stanza)
        ensures
            r@ == stanza_start(),
    {
        let r = Stanza {
            stack: Vec::new(),
            started: false,
            target: Target::Nothing,
            depth: 0,
            attrs: Vec::new(),
            summary: None,
            xhtml: None,
            payload_attrs: None,
            payload_text: Vec::new(),
        };
        proof {
            assert(r@.stack =~= stanza_start().stack);
            assert(r@.attrs =~= stanza_start().attrs);
            assert(r@.payload_text =~= stanza_start().payload_text);
        }
        r
    }

    fn start(&mut self, name: Vec<char>, attrs: Vec<(Vec<char>, Vec<char>)>, closed: bool) -> (r:
        bool)
        ensures
            stanza_step(
                old(self)@,
                XmlTokenView::Start { name: name@, attrs: xml::attr_views(attrs@), closed },
            ) == (if r {
                Some(final(self)@)
            } else {
                None
            }),
    {
        let ghost before = self@;
        let ghost token = XmlTokenView::Start {
            name: name@,
            attrs: xml::attr_views(attrs@),
            closed,
        };
        let n: usize = self.stack.len();
        if n == 0 {
            if self.started || !text::is_str(name.as_slice(), "message") {
                return false;
            }
            self.started = true;
            self.attrs = attrs;
        } else if self.target == Target::Nothing {
            let body: bool = text::is_str(name.as_slice(), "body");
            let depth: usize = if closed {
                0
            } else {
                n
            };
            if n == 1 && body && self.summary.is_none() {
                self.summary = Some(Vec::new());
                self.target = if closed {
                    Target::Nothing
                } else {
                    Target::Summary
                };
                self.depth = depth;
                assert(opt_chars(self.summary) == Some(Seq::<char>::empty()));
            } else if n == 2 && body && self.xhtml.is_none() && text::is_str(
                self.stack[1].as_slice(),
                "html",
            ) {
                self.xhtml = Some(Vec::new());
                self.target = if closed {
                    Target::Nothing
                } else {
                    Target::Xhtml
                };
                self.depth = depth;
                assert(opt_chars(self.xhtml) == Some(Seq::<char>::empty()));
            } else if n == 1 && self.payload_attrs.is_none() && text::is_str(name.as_slice(), "x")
                && is_nwws(&attrs) {
                self.payload_attrs = Some(attrs);
                self.target = if closed {
                    Target::Nothing
                } else {
                    Target::Payload
                };
                self.depth = depth;
            }
        }
        let ghost mid = self.stack@;
        if !closed {
            self.stack.push(name);
            assert(text::views(self.stack@) =~= text::views(mid).push(name@));
        }
        assert(stanza_step(before, token) == Some(self@));
        true
    }

    fn end(&mut self, name: Vec<char>) -> (r: bool)
        ensures
            stanza_step(old(self)@, XmlTokenView::End { name: name@ }) == (if r {
                Some(final(self)@)
            } else {
                None
            }),
    {
        let n: usize = self.stack.len();
        if n == 0 {
            return false;
        }
        if !text::same(self.stack[n - 1].as_slice(), name.as_slice()) {
            return false;
        }
        let ghost before = self.stack@;
        if n - 1 == self.depth {
            self.target = Target::Nothing;
            self.depth = 0;
        }
        self.stack.truncate(n - 1);
        assert(text::views(self.stack@) =~= text::views(before).drop_last());
        true
    }

    fn text(&mut self, value: Vec<char>) -> (r: bool)
        ensures
            stanza_step(old(self)@, XmlTokenView::Text { value: value@ }) == (if r {
                Some(final(self)@)
            } else {
                None
            }),
    {
        if self.stack.len() == 0 {
            return text::trim_of(value.as_slice()).len() == 0;
        }
        match self.target {
            Target::Nothing => {},
            Target::Summary => {
                if let Some(mut s) = self.summary.take() {
                    text::push_all(&mut s, value.as_slice());
                    self.summary = Some(s);
                }
            },
            Target::Xhtml => {
                if let Some(mut s) = self.xhtml.take() {
                    text::push_all(&mut s, value.as_slice());
                    self.xhtml = Some(s);
                }
            },
            Target::Payload => {
                text::push_all(&mut self.payload_text, value.as_slice());
            },
        }
        true
    }

    fn accept(&mut self, token: XmlToken) -> (r: bool)
        ensures
            stanza_step(old(self)@, token.deep_view()) == (if r {
                Some(final(self)@)
            } else {
                None
            }),
    {
        match token {
            XmlToken::Start { name, attrs, closed } => self.start(name, attrs, closed),
            XmlToken::End { name } => self.end(name),
            XmlToken::Text { value } => self.text(value),
        }
    }
}

fn read_id(s: &str) -> (r: Option<NwwsOiId>)
    ensures
        r == parse_id(s@),
{
    let chars = text::to_chars(s);
    match text::split_once_str(chars.as_slice(), ".") {
        None => None,
        Some((a, b)) => {
            if a.len() == 0 || b.len() == 0 || !number::only_digits(a) || !number::only_digits(b) {
                return None;
            }
            match (number::digits_upto(a, u64::MAX), number::digits_upto(b, u64::MAX)) {
                (Some(process_id), Some(sequence)) => Some(NwwsOiId { process_id, sequence }),
                _ => None,
            }
        },
    }
}

fn read_payload(attrs: &Vec<(Vec<char>, Vec<char>)>, raw: &Vec<char>) -> (r: Result<NwwsOiPayload>)
    ensures
        parse_payload(xml::attr_views(attrs@), raw@) == (match r {
            Ok(p) => Ok::<OiPayloadView, ErrorKind>(p.deep_view()),
            Err(e) => Err::<OiPayloadView, ErrorKind>(e.kind),
        }),
        r matches Ok(p) ==> clock::writable_at(p.issue.instant(), p.issue.utc_offset()),
{
    match (
        find_attr(attrs, "cccc"),
        find_attr(attrs, "ttaaii"),
        find_attr(attrs, "issue"),
        find_attr(attrs, "awipsid"),
        find_attr(attrs, "id"),
    ) {
        (Some(cccc), Some(ttaaii), Some(issue), Some(awips_id), Some(id)) => {
            match (clock::parse_rfc3339(issue.as_str()), read_id(id.as_str())) {
                (Ok((nanos, offset)), Some(id)) => {
                    let issue = IssueTime { nanos, offset };
                    Ok(
                        NwwsOiPayload {
                            cccc,
                            ttaaii,
                            issue,
                            awips_id,
                            id,
                            raw_bulletin: text::to_text(raw.as_slice()),
                        },
                    )
                },
                _ => Err(ParseError::new(ErrorKind::InvalidField(Field::OiAttribute))),
            }
        },
        _ => Err(ParseError::new(ErrorKind::MissingField(Field::OiAttribute))),
    }
}

fn to_opt_text(v: &Option<Vec<char>>) -> (r: Option<String>)
    ensures
        r.deep_view() == opt_chars(*v),
{
    match v {
        Some(c) => Some(text::to_text(c.as_slice())),
        None => None,
    }
}

impl NwwsOiMessage {
    /// Reads a message stanza. The issue time of a payload can be written
    /// again.
    pub fn parse(input: &str) -> (r: Result<NwwsOiMessage>)
        ensures
            parse_oi(input@) == (match r {
                Ok(m) => Ok::<OiMessageView, ErrorKind>(m.deep_view()),
                Err(e) => Err::<OiMessageView, ErrorKind>(e.kind),
            }),
            r matches Ok(m) ==> issue_is_writable(m.deep_view()),
    {
        let bad = ParseError::new(ErrorKind::InvalidField(Field::OiMessage));
        let chars = text::to_chars(input);
        let s = chars.as_slice();
        let n: usize = s.len();
        let mut st = Stanza::new();
        let mut i: usize = 0;
        while i < n
            invariant
                n == s@.len(),
                s@ == input@,
                i <= n,
                bad.kind == ErrorKind::InvalidField(Field::OiMessage),
                stanza_from(s@, 0, stanza_start()) == stanza_from(s@, i as int, st@),
            decreases n - i,
        {
            match xml::read_token(s, i) {
                Some((token, next)) => {
                    if let Some(t) = token {
                        if !st.accept(t) {
                            return Err(bad);
                        }
                    }
                    i = next;
                },
                None => {
                    return Err(bad);
                },
            }
        }
        if !st.started || st.stack.len() > 0 {
            return Err(ParseError::new(ErrorKind::UnexpectedEof(Field::OiMessage)));
        }
        let payload = match &st.payload_attrs {
            Some(attrs) => match read_payload(attrs, &st.payload_text) {
                Ok(p) => Some(p),
                Err(e) => {
                    return Err(e);
                },
            },
            None => None,
        };
        Ok(
            NwwsOiMessage {
                stanza_type: find_attr(&st.attrs, "type"),
                from: find_attr(&st.attrs, "from"),
                to: find_attr(&st.attrs, "to"),
                summary: to_opt_text(&st.summary),
                xhtml_summary: to_opt_text(&st.xhtml),
                payload,
            },
        )
    }
}

// ---------------------------------------------------------------------------
// Wrapper and bulletin
// ---------------------------------------------------------------------------

/// Reads the bulletin of a payload and holds the wrapper to it: office,
/// designator and AWIPS identifier must be those of the bulletin.
pub open spec fn payload_bulletin(p: OiPayloadView) -> std::result::Result<
    WmoMessageView,
    ErrorKind,
> {
    match wmo::parse_text(p.raw_bulletin) {
        Err(kind) => Err(kind),
        Ok(m) => if m.heading.ttaaii != p.ttaaii {
            Err(ErrorKind::Mismatch(Field::OiDesignator))
        } else if m.heading.cccc != p.cccc {
            Err(ErrorKind::Mismatch(Field::OiOffice))
        } else if awips_text(m) != p.awips_id {
            Err(ErrorKind::Mismatch(Field::OiAwipsId))
        } else {
            Ok(m)
        },
    }
}

/// The AWIPS identifier of a bulletin, empty where it has none.
pub open spec fn awips_text(m: WmoMessageView) -> Seq<char> {
    match m.awips_id {
        Some(id) => id,
        None => Seq::empty(),
    }
}

/// The bulletin of a payload with the product in it.
pub open spec fn payload_content(p: OiPayloadView) -> std::result::Result<
    NwwsContentView,
    ErrorKind,
> {
    match payload_bulletin(p) {
        Err(kind) => Err(kind),
        Ok(m) => product::content_of(m),
    }
}

/// The bulletin of a message with the product in it.
pub open spec fn message_content(m: OiMessageView) -> std::result::Result<
    NwwsContentView,
    ErrorKind,
> {
    match m.payload {
        Some(p) => payload_content(p),
        None => Err(ErrorKind::MissingField(Field::OiPayload)),
    }
}

/// A wrapper is never trusted more than the bulletin: where a payload is read,
/// designator, office and AWIPS identifier of wrapper and bulletin agree.
pub proof fn wrapper_agrees_with_bulletin(p: OiPayloadView, content: NwwsContentView)
    requires
        payload_content(p) == Ok::<NwwsContentView, ErrorKind>(content),
    ensures
        content.bulletin.heading.ttaaii == p.ttaaii,
        content.bulletin.heading.cccc == p.cccc,
        awips_text(content.bulletin) == p.awips_id,
{
}

fn same_text(a: &str, b: &str) -> (r: bool)
    ensures
        r == (a@ == b@),
{
    let x = text::to_chars(a);
    text::is_str(x.as_slice(), b)
}

impl NwwsOiPayload {
    pub fn parse_bulletin(&self) -> (r: Result<WmoMessage>)
        ensures
            payload_bulletin(self.deep_view()) == (match r {
                Ok(m) => Ok::<WmoMessageView, ErrorKind>(m.deep_view()),
                Err(e) => Err::<WmoMessageView, ErrorKind>(e.kind),
            }),
    {
        let m = match WmoMessage::parse_str(self.raw_bulletin.as_str()) {
            Ok(m) => m,
            Err(e) => {
                return Err(e);
            },
        };
        if !same_text(m.heading.ttaaii(), self.ttaaii.as_str()) {
            return Err(ParseError::new(ErrorKind::Mismatch(Field::OiDesignator)));
        }
        if !same_text(m.heading.cccc(), self.cccc.as_str()) {
            return Err(ParseError::new(ErrorKind::Mismatch(Field::OiOffice)));
        }
        let same_awips: bool = match &m.awips_id {
            Some(id) => same_text(id.raw(), self.awips_id.as_str()),
            None => {
                let c = text::to_chars(self.awips_id.as_str());
                assert(c@.len() == 0 ==> c@ =~= Seq::<char>::empty());
                c.len() == 0
            },
        };
        if !same_awips {
            return Err(ParseError::new(ErrorKind::Mismatch(Field::OiAwipsId)));
        }
        Ok(m)
    }
}

impl NwwsContent {
    /// The bulletin of a payload with the product in it.
    pub fn from_oi_payload(payload: &NwwsOiPayload) -> (r: Result<NwwsContent>)
        ensures
            payload_content(payload.deep_view()) == (match r {
                Ok(c) => Ok::<NwwsContentView, ErrorKind>(c.deep_view()),
                Err(e) => Err::<NwwsContentView, ErrorKind>(e.kind),
            }),
    {
        match payload.parse_bulletin() {
            Ok(m) => NwwsContent::from_bulletin(m),
            Err(e) => Err(e),
        }
    }

    /// The bulletin of a message with the product in it.
    pub fn from_oi_message(message: &NwwsOiMessage) -> (r: Result<NwwsContent>)
        ensures
            message_content(message.deep_view()) == (match r {
                Ok(c) => Ok::<NwwsContentView, ErrorKind>(c.deep_view()),
                Err(e) => Err::<NwwsContentView, ErrorKind>(e.kind),
            }),
    {
        match &message.payload {
            Some(p) => NwwsContent::from_oi_payload(p),
            None => Err(ParseError::new(ErrorKind::MissingField(Field::OiPayload))),
        }
    }
}

/// Reads a message stanza.
pub fn parse_oi_message(input: &str) -> (r: Result<NwwsOiMessage>)
    ensures
        parse_oi(input@) == (match r {
            Ok(m) => Ok::<OiMessageView, ErrorKind>(m.deep_view()),
            Err(e) => Err::<OiMessageView, ErrorKind>(e.kind),
        }),
        r matches Ok(m) ==> issue_is_writable(m.deep_view()),
{
    NwwsOiMessage::parse(input)
}

} // verus!
