//! WMO bulletins: framing, sequence number, heading, AWIPS line and body.

use vstd::prelude::*;
use vstd::slice::slice_subrange;

use crate::error::{ErrorKind, Field, ParseError, Result};
use crate::header;
use crate::header::{AwipsId, WmoHeading, WmoHeadingView};
use crate::number;
use crate::text;

verus! {

/// Whether a bulletin came between start-of-heading and end-of-text bytes.
#[derive(Debug, Clone, Copy, PartialEq, Eq, Structural)]
pub enum WmoFrameKind {
    Bare,
    Framed,
}

impl WmoFrameKind {
    pub open spec fn spec_label(self) -> Seq<char> {
        match self {
            WmoFrameKind::Bare => "bare"@,
            WmoFrameKind::Framed => "framed"@,
        }
    }

    pub fn label(self) -> (r: &'static str)
        ensures
            r@ == self.spec_label(),
    {
        match self {
            WmoFrameKind::Bare => "bare",
            WmoFrameKind::Framed => "framed",
        }
    }
}

/// A parsed bulletin.
///
/// `bulletin` is the whole text without frame bytes and surrounding white
/// space, `body` the part of it behind the heading and AWIPS lines.
#[derive(Debug, Clone, PartialEq, Eq)]
pub struct WmoMessage {
    pub bulletin: String,
    pub body: String,
    pub heading: WmoHeading,
    pub awips_id: Option<AwipsId>,
    pub frame_kind: WmoFrameKind,
    pub sequence_number: Option<u16>,
}

/// What a bulletin holds.
pub struct WmoMessageView {
    pub bulletin: Seq<char>,
    pub body: Seq<char>,
    pub heading: WmoHeadingView,
    pub awips_id: Option<Seq<char>>,
    pub frame_kind: WmoFrameKind,
    pub sequence_number: Option<u16>,
}

impl DeepView for WmoMessage {
    type V = WmoMessageView;

    open spec fn deep_view(&self) -> WmoMessageView {
        WmoMessageView {
            bulletin: self.bulletin@,
            body: self.body@,
            heading: self.heading.deep_view(),
            awips_id: self.awips_id.deep_view(),
            frame_kind: self.frame_kind,
            sequence_number: self.sequence_number,
        }
    }
}

/// The text between the frame bytes, if any, without surrounding white space.
pub open spec fn unframe(input: Seq<char>) -> std::result::Result<
    (WmoFrameKind, Seq<char>),
    ErrorKind,
> {
    let s = text::trim(input);
    if s.len() > 0 && s[0] == '\x01' {
        if s.len() > 1 && s.last() == '\x03' {
            Ok((WmoFrameKind::Framed, text::trim(s.subrange(1, s.len() - 1))))
        } else {
            Err(ErrorKind::UnexpectedEof(Field::Frame))
        }
    } else {
        Ok((WmoFrameKind::Bare, s))
    }
}

/// The transmission sequence number that a line holds: one to five digits,
/// at most `u16::MAX`.
pub open spec fn sequence_line(line: Seq<char>) -> Option<u16> {
    if 1 <= line.len() <= 5 && number::all_digits(line) && number::digits_value(line) <= 65535 {
        Some(number::digits_value(line) as u16)
    } else {
        None
    }
}

/// What follows the sequence line, if the text has one.
pub open spec fn after_sequence(bulletin: Seq<char>) -> Seq<char> {
    if sequence_line(text::trim(text::first_line(bulletin))) is Some {
        text::trim_start(text::after_line(bulletin))
    } else {
        bulletin
    }
}

/// Reads a bulletin: an optional sequence line, the heading line, an optional
/// AWIPS line, and the body.
pub open spec fn parse_text(input: Seq<char>) -> std::result::Result<WmoMessageView, ErrorKind> {
    match unframe(input) {
        Err(kind) => Err(kind),
        Ok((frame_kind, bulletin)) => {
            let rest = after_sequence(bulletin);
            match header::parse_heading(text::trim(text::first_line(rest))) {
                None => Err(ErrorKind::InvalidField(Field::Heading)),
                Some(heading) => {
                    let tail = text::after_line(rest);
                    let line = text::trim(text::first_line(tail));
                    let has_awips = header::is_awips_id(line);
                    Ok(
                        WmoMessageView {
                            bulletin,
                            body: if has_awips {
                                text::after_line(tail)
                            } else {
                                tail
                            },
                            heading,
                            awips_id: if has_awips {
                                Some(line)
                            } else {
                                None
                            },
                            frame_kind,
                            sequence_number: sequence_line(text::trim(text::first_line(bulletin))),
                        },
                    )
                },
            }
        },
    }
}

/// Reads the bytes of a bulletin.
pub open spec fn parse_bytes(input: Seq<u8>) -> std::result::Result<WmoMessageView, ErrorKind> {
    if vstd::utf8::valid_utf8(input) {
        parse_text(vstd::utf8::decode_utf8(input))
    } else {
        Err(ErrorKind::InvalidUtf8)
    }
}

/// `std::str::from_utf8`: a byte slice is accepted exactly if it is valid
/// UTF-8, and the string is then the one whose encoding it is.
#[verifier::external_body]
pub(crate) fn utf8_str(input: &[u8]) -> (r: Option<&str>)
    ensures
        match r {
            Some(s) => vstd::utf8::valid_utf8(input@) && s@ == vstd::utf8::decode_utf8(input@),
            None => !vstd::utf8::valid_utf8(input@),
        },
{
    std::str::from_utf8(input).ok()
}

fn read_sequence(line: &[char]) -> (r: Option<u16>)
    ensures
        r == sequence_line(line@),
{
    if line.len() < 1 || line.len() > 5 || !number::only_digits(line) {
        return None;
    }
    match number::digits_upto(line, 65535) {
        Some(v) => Some(v as u16),
        None => None,
    }
}

impl WmoMessage {
    /// Reads a bulletin from bytes.
    pub fn parse(input: &[u8]) -> (r: Result<WmoMessage>)
        ensures
            match r {
                Ok(m) => parse_bytes(input@) == Ok::<WmoMessageView, ErrorKind>(m.deep_view()),
                Err(e) => parse_bytes(input@) == Err::<WmoMessageView, ErrorKind>(e.kind),
            },
    {
        match utf8_str(input) {
            Some(s) => WmoMessage::parse_str(s),
            None => Err(ParseError::new(ErrorKind::InvalidUtf8)),
        }
    }

    /// Reads a bulletin from text.
    pub fn parse_str(input: &str) -> (r: Result<WmoMessage>)
        ensures
            match r {
                Ok(m) => parse_text(input@) == Ok::<WmoMessageView, ErrorKind>(m.deep_view()),
                Err(e) => parse_text(input@) == Err::<WmoMessageView, ErrorKind>(e.kind),
            },
    {
        let chars = text::to_chars(input);
        let s = text::trim_of(chars.as_slice());
        let n: usize = s.len();
        let framed: bool = n > 0 && s[0] == '\x01';
        if framed && (n < 2 || s[n - 1] != '\x03') {
            return Err(ParseError::new(ErrorKind::UnexpectedEof(Field::Frame)));
        }
        let frame_kind = if framed {
            WmoFrameKind::Framed
        } else {
            WmoFrameKind::Bare
        };
        let bulletin: &[char] = if framed {
            text::trim_of(slice_subrange(s, 1, n - 1))
        } else {
            s
        };
        assert(unframe(input@) == Ok::<(WmoFrameKind, Seq<char>), ErrorKind>(
            (frame_kind, bulletin@),
        ));
        let sequence_number = read_sequence(text::trim_of(text::first_line_of(bulletin)));
        let rest: &[char] = if sequence_number.is_some() {
            text::trim_start_of(text::after_line_of(bulletin))
        } else {
            bulletin
        };
        let heading = match WmoHeading::parse(text::trim_of(text::first_line_of(rest))) {
            Ok(heading) => heading,
            Err(e) => {
                return Err(e);
            },
        };
        let tail = text::after_line_of(rest);
        let awips_id = AwipsId::parse(text::trim_of(text::first_line_of(tail)));
        let body: &[char] = if awips_id.is_some() {
            text::after_line_of(tail)
        } else {
            tail
        };
        Ok(
            WmoMessage {
                bulletin: text::to_text(bulletin),
                body: text::to_text(body),
                heading,
                awips_id,
                frame_kind,
                sequence_number,
            },
        )
    }
}

} // verus!
