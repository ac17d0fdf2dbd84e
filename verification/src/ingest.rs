//! Inputs of every transport.

use vstd::prelude::*;

use crate::error::{ErrorKind, ParseError, Result};
use crate::oi;
use crate::oi::{NwwsOiMessage, OiMessageView};
use crate::oi_archive;
use crate::product;
use crate::product::{NwwsContent, NwwsContentView};
use crate::stream;
use crate::stream::FramedChunk;
use crate::wmo;
use crate::SOH;

verus! {

/// What an input is expected to be.
#[derive(Debug, Clone, Copy, PartialEq, Eq, Structural)]
pub enum IngestHint {
    Auto,
    OpenInterface,
    SatellitePid201,
    RawBulletin,
    FramedStream,
}

/// How a bulletin came in.
#[derive(Debug, Clone, Copy, PartialEq, Eq, Structural)]
pub enum TransportKind {
    OpenInterface,
    SatellitePid201,
    PlainWmoText,
}

/// The properties of a transport.
#[derive(Debug, Clone, Copy, PartialEq, Eq, Structural)]
pub struct TransportDescriptor {
    pub kind: TransportKind,
    pub satellite_channel: Option<u16>,
    pub requires_authentication: bool,
    pub highest_availability_requires_pairing: bool,
}

impl TransportDescriptor {
    pub open spec fn spec_open_interface() -> TransportDescriptor {
        TransportDescriptor {
            kind: TransportKind::OpenInterface,
            satellite_channel: None,
            requires_authentication: true,
            highest_availability_requires_pairing: true,
        }
    }

    pub open spec fn spec_satellite_pid201() -> TransportDescriptor {
        TransportDescriptor {
            kind: TransportKind::SatellitePid201,
            satellite_channel: Some(201),
            requires_authentication: false,
            highest_availability_requires_pairing: true,
        }
    }

    pub open spec fn spec_plain_wmo_text() -> TransportDescriptor {
        TransportDescriptor {
            kind: TransportKind::PlainWmoText,
            satellite_channel: None,
            requires_authentication: false,
            highest_availability_requires_pairing: false,
        }
    }

    pub fn open_interface() -> (r: TransportDescriptor)
        ensures
            r == TransportDescriptor::spec_open_interface(),
    {
        TransportDescriptor {
            kind: TransportKind::OpenInterface,
            satellite_channel: None,
            requires_authentication: true,
            highest_availability_requires_pairing: true,
        }
    }

    pub fn satellite_pid201() -> (r: TransportDescriptor)
        ensures
            r == TransportDescriptor::spec_satellite_pid201(),
    {
        TransportDescriptor {
            kind: TransportKind::SatellitePid201,
            satellite_channel: Some(201),
            requires_authentication: false,
            highest_availability_requires_pairing: true,
        }
    }

    pub fn plain_wmo_text() -> (r: TransportDescriptor)
        ensures
            r == TransportDescriptor::spec_plain_wmo_text(),
    {
        TransportDescriptor {
            kind: TransportKind::PlainWmoText,
            satellite_channel: None,
            requires_authentication: false,
            highest_availability_requires_pairing: false,
        }
    }
}

/// The label of a transport.
pub open spec fn transport_text(kind: TransportKind) -> Seq<char> {
    match kind {
        TransportKind::OpenInterface => "open-interface"@,
        TransportKind::SatellitePid201 => "satellite-pid201"@,
        TransportKind::PlainWmoText => "plain-wmo-text"@,
    }
}

pub fn transport_label(transport: TransportDescriptor) -> (r: &'static str)
    ensures
        r@ == transport_text(transport.kind),
{
    match transport.kind {
        TransportKind::OpenInterface => "open-interface",
        TransportKind::SatellitePid201 => "satellite-pid201",
        TransportKind::PlainWmoText => "plain-wmo-text",
    }
}

// ---------------------------------------------------------------------------
// Parsed inputs
// ---------------------------------------------------------------------------

/// One bare bulletin.
#[derive(Debug, Clone, PartialEq, Eq)]
pub struct BulletinIngest {
    pub transport: TransportDescriptor,
    pub content: NwwsContent,
}

/// What the wrapper says of the message it carries.
#[derive(Debug, Clone, PartialEq, Eq)]
pub struct OiWrapperMetadata {
    pub id: String,
}

/// One NWWS-OI message.
#[derive(Debug, Clone, PartialEq, Eq)]
pub struct OiIngest {
    pub transport: TransportDescriptor,
    pub message: NwwsOiMessage,
    pub wrapper: Option<OiWrapperMetadata>,
}

/// A stream of framed bulletins: its frames, the bytes before the first
/// start-of-heading byte, and the bytes behind the last frame.
#[derive(Debug, Clone, PartialEq, Eq)]
pub struct FramedStreamIngest {
    pub transport: TransportDescriptor,
    pub chunks: Vec<FramedChunk>,
    pub leading_junk_prefix: usize,
    pub pending_bytes: usize,
}

/// An input of any transport.
#[derive(Debug, Clone, PartialEq, Eq)]
pub enum ParsedInput {
    Bulletin(BulletinIngest),
    OpenInterface(OiIngest),
    FramedStream(FramedStreamIngest),
}

/// What a framed stream holds.
pub struct FramedStreamView {
    pub transport: TransportDescriptor,
    pub ranges: Seq<(int, int)>,
    pub messages: Seq<Seq<u8>>,
    pub leading_junk_prefix: int,
    pub pending_bytes: int,
}

/// What an input holds.
pub enum ParsedInputView {
    Bulletin { transport: TransportDescriptor, content: NwwsContentView },
    OpenInterface {
        transport: TransportDescriptor,
        message: OiMessageView,
        wrapper_id: Option<Seq<char>>,
    },
    FramedStream(FramedStreamView),
}

impl DeepView for FramedStreamIngest {
    type V = FramedStreamView;

    open spec fn deep_view(&self) -> FramedStreamView {
        FramedStreamView {
            transport: self.transport,
            ranges: stream::chunk_ranges(self.chunks@),
            messages: chunk_messages(self.chunks@),
            leading_junk_prefix: self.leading_junk_prefix as int,
            pending_bytes: self.pending_bytes as int,
        }
    }
}

pub open spec fn chunk_messages(chunks: Seq<FramedChunk>) -> Seq<Seq<u8>> {
    Seq::new(chunks.len(), |i: int| chunks[i].bytes@)
}

pub open spec fn wrapper_id_of(wrapper: Option<OiWrapperMetadata>) -> Option<Seq<char>> {
    match wrapper {
        Some(w) => Some(w.id@),
        None => None,
    }
}

impl DeepView for ParsedInput {
    type V = ParsedInputView;

    open spec fn deep_view(&self) -> ParsedInputView {
        match self {
            ParsedInput::Bulletin(v) => ParsedInputView::Bulletin {
                transport: v.transport,
                content: v.content.deep_view(),
            },
            ParsedInput::OpenInterface(v) => ParsedInputView::OpenInterface {
                transport: v.transport,
                message: v.message.deep_view(),
                wrapper_id: wrapper_id_of(v.wrapper),
            },
            ParsedInput::FramedStream(v) => ParsedInputView::FramedStream(v.deep_view()),
        }
    }
}

/// The messages at the ranges.
pub open spec fn messages_at(s: Seq<u8>, ranges: Seq<(int, int)>) -> Seq<Seq<u8>> {
    Seq::new(ranges.len(), |i: int| s.subrange(ranges[i].0, ranges[i].1))
}

/// Reads a framed stream.
pub open spec fn parse_framed(transport: TransportDescriptor, s: Seq<u8>) -> FramedStreamView {
    let ranges = stream::frame_ranges(s, 0);
    let junk = stream::byte_from(s, SOH, 0);
    FramedStreamView {
        transport,
        ranges,
        messages: messages_at(s, ranges),
        leading_junk_prefix: junk,
        pending_bytes: s.len() - (if ranges.len() > 0 {
            ranges.last().1
        } else {
            junk
        }),
    }
}

/// The first position from `i` on whose byte is no ASCII white space.
pub open spec fn first_visible(s: Seq<u8>, i: int) -> int
    decreases s.len() - i,
{
    if 0 <= i < s.len() && (s[i] == 9 || s[i] == 10 || s[i] == 12 || s[i] == 13 || s[i] == 32) {
        first_visible(s, i + 1)
    } else {
        i
    }
}

/// The hint that an input itself gives: markup is an NWWS-OI message, a
/// start-of-heading byte makes a framed stream, all else is a bulletin.
pub open spec fn detect(s: Seq<u8>) -> IngestHint {
    let i = first_visible(s, 0);
    if i < s.len() && s[i] == 60 {
        IngestHint::OpenInterface
    } else if stream::byte_from(s, SOH, 0) < s.len() {
        IngestHint::SatellitePid201
    } else {
        IngestHint::RawBulletin
    }
}

/// The identifier of the payload of a message.
pub open spec fn payload_id(m: OiMessageView) -> Option<Seq<char>> {
    match m.payload {
        Some(p) => Some(oi_archive::id_text(p.id)),
        None => None,
    }
}

/// Reads an input by its hint.
pub open spec fn parse_input(hint: IngestHint, s: Seq<u8>) -> std::result::Result<
    ParsedInputView,
    ErrorKind,
> {
    let hint = if hint == IngestHint::Auto {
        detect(s)
    } else {
        hint
    };
    match hint {
        IngestHint::OpenInterface => if vstd::utf8::valid_utf8(s) {
            match oi::parse_oi(vstd::utf8::decode_utf8(s)) {
                Ok(message) => Ok(
                    ParsedInputView::OpenInterface {
                        transport: TransportDescriptor::spec_open_interface(),
                        message,
                        wrapper_id: payload_id(message),
                    },
                ),
                Err(kind) => Err(kind),
            }
        } else {
            Err(ErrorKind::InvalidUtf8)
        },
        IngestHint::SatellitePid201 => Ok(
            ParsedInputView::FramedStream(
                parse_framed(TransportDescriptor::spec_satellite_pid201(), s),
            ),
        ),
        IngestHint::FramedStream => Ok(
            ParsedInputView::FramedStream(
                parse_framed(TransportDescriptor::spec_plain_wmo_text(), s),
            ),
        ),
        _ => match product::parse_content(s) {
            Ok(content) => Ok(
                ParsedInputView::Bulletin {
                    transport: TransportDescriptor::spec_plain_wmo_text(),
                    content,
                },
            ),
            Err(kind) => Err(kind),
        },
    }
}

fn detect_hint(s: &[u8]) -> (r: IngestHint)
    ensures
        r == detect(s@),
{
    let n: usize = s.len();
    let mut i: usize = 0;
    while i < n && (s[i] == 9 || s[i] == 10 || s[i] == 12 || s[i] == 13 || s[i] == 32)
        invariant
            n == s@.len(),
            i <= n,
            first_visible(s@, 0) == first_visible(s@, i as int),
        decreases n - i,
    {
        i += 1;
    }
    if i < n && s[i] == 60 {
        IngestHint::OpenInterface
    } else if stream::leading_junk(s) < n {
        IngestHint::SatellitePid201
    } else {
        IngestHint::RawBulletin
    }
}

impl FramedStreamIngest {
    /// Reads a framed stream.
    pub fn parse(transport: TransportDescriptor, s: &[u8]) -> (r: FramedStreamIngest)
        ensures
            r.deep_view() == parse_framed(transport, s@),
    {
        let chunks = stream::scan_frames(s);
        let junk: usize = stream::leading_junk(s);
        let n: usize = s.len();
        let ghost ranges = stream::frame_ranges(s@, 0);
        assert(stream::chunk_ranges(chunks@).len() == chunks@.len());
        let end: usize = if chunks.len() > 0 {
            assert(ranges.last() == (
                chunks@.last().start as int,
                chunks@.last().end as int,
            ));
            assert(chunks@[chunks@.len() - 1].end <= s@.len());
            chunks[chunks.len() - 1].end
        } else {
            junk
        };
        let r = FramedStreamIngest {
            transport,
            chunks,
            leading_junk_prefix: junk,
            pending_bytes: n - end,
        };
        proof {
            let want = messages_at(s@, ranges);
            let have = chunk_messages(chunks@);
            assert forall|i: int| 0 <= i < want.len() implies have[i] == want[i] by {
                assert(ranges[i] == (chunks@[i].start as int, chunks@[i].end as int));
            }
            assert(have =~= want);
        }
        r
    }

    /// Reads every bulletin of the stream.
    pub fn contents(&self) -> (r: Result<Vec<NwwsContent>>)
        ensures
            parse_all(self.deep_view().messages) == (match r {
                Ok(v) => Ok::<Seq<NwwsContentView>, ErrorKind>(v.deep_view()),
                Err(e) => Err::<Seq<NwwsContentView>, ErrorKind>(e.kind),
            }),
    {
        let ghost all = self.deep_view().messages;
        let mut out: Vec<NwwsContent> = Vec::new();
        let mut i: usize = 0;
        assert(out.deep_view() =~= Seq::<NwwsContentView>::empty());
        while i < self.chunks.len()
            invariant
                i <= self.chunks@.len(),
                all == self.deep_view().messages,
                parse_all(all) == parse_rest(all, i as int, out.deep_view()),
            decreases self.chunks.len() - i,
        {
            let ghost before = out.deep_view();
            match NwwsContent::parse_bulletin(self.chunks[i].bytes.as_slice()) {
                Ok(content) => {
                    out.push(content);
                    assert(out.deep_view() =~= before.push(content.deep_view()));
                },
                Err(e) => {
                    return Err(e);
                },
            }
            i += 1;
        }
        Ok(out)
    }
}

/// Reads the messages from `i` on, appending to `done`; fails with the first
/// that fails.
pub open spec fn parse_rest(
    messages: Seq<Seq<u8>>,
    i: int,
    done: Seq<NwwsContentView>,
) -> std::result::Result<Seq<NwwsContentView>, ErrorKind>
    decreases messages.len() - i,
{
    if i < 0 || i >= messages.len() {
        Ok(done)
    } else {
        match product::parse_content(messages[i]) {
            Ok(content) => parse_rest(messages, i + 1, done.push(content)),
            Err(kind) => Err(kind),
        }
    }
}

/// Reads all messages; fails with the first that fails.
pub open spec fn parse_all(messages: Seq<Seq<u8>>) -> std::result::Result<
    Seq<NwwsContentView>,
    ErrorKind,
> {
    parse_rest(messages, 0, Seq::empty())
}

impl OiIngest {
    /// The bulletin of the message with the product in it.
    pub fn content(&self) -> (r: Result<NwwsContent>)
        ensures
            oi::message_content(self.message.deep_view()) == (match r {
                Ok(c) => Ok::<NwwsContentView, ErrorKind>(c.deep_view()),
                Err(e) => Err::<NwwsContentView, ErrorKind>(e.kind),
            }),
    {
        NwwsContent::from_oi_message(&self.message)
    }
}

/// Reads an input by its hint.
pub fn parse_with_hint(hint: IngestHint, s: &[u8]) -> (r: Result<ParsedInput>)
    ensures
        parse_input(hint, s@) == (match r {
            Ok(v) => Ok::<ParsedInputView, ErrorKind>(v.deep_view()),
            Err(e) => Err::<ParsedInputView, ErrorKind>(e.kind),
        }),
{
    let hint = if hint == IngestHint::Auto {
        detect_hint(s)
    } else {
        hint
    };
    match hint {
        IngestHint::OpenInterface => {
            let input = match wmo::utf8_str(s) {
                Some(t) => t,
                None => {
                    return Err(ParseError::new(ErrorKind::InvalidUtf8));
                },
            };
            match NwwsOiMessage::parse(input) {
                Ok(message) => {
                    let wrapper = match &message.payload {
                        Some(p) => Some(OiWrapperMetadata { id: oi_archive::wrapper_id(p.id) }),
                        None => None,
                    };
                    Ok(
                        ParsedInput::OpenInterface(
                            OiIngest {
                                transport: TransportDescriptor::open_interface(),
                                message,
                                wrapper,
                            },
                        ),
                    )
                },
                Err(e) => Err(e),
            }
        },
        IngestHint::SatellitePid201 => Ok(
            ParsedInput::FramedStream(
                FramedStreamIngest::parse(TransportDescriptor::satellite_pid201(), s),
            ),
        ),
        IngestHint::FramedStream => Ok(
            ParsedInput::FramedStream(
                FramedStreamIngest::parse(TransportDescriptor::plain_wmo_text(), s),
            ),
        ),
        _ => match NwwsContent::parse_bulletin(s) {
            Ok(content) => Ok(
                ParsedInput::Bulletin(
                    BulletinIngest { transport: TransportDescriptor::plain_wmo_text(), content },
                ),
            ),
            Err(e) => Err(e),
        },
    }
}

} // verus!
