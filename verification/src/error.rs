//! Parse errors.

use vstd::prelude::*;

use crate::text;

verus! {

/// The part of an input that an error is about.
#[derive(Debug, Clone, Copy, PartialEq, Eq, Structural)]
pub enum Field {
    Frame,
    Heading,
    UgcString,
    Pvtec,
    Hvtec,
    LatLon,
    TimeMotLoc,
    OiMessage,
    OiPayload,
    OiAttribute,
    OiOffice,
    OiDesignator,
    OiAwipsId,
}

impl Field {
    /// The name of the field as it appears in messages.
    pub open spec fn spec_name(self) -> Seq<char> {
        match self {
            Field::Frame => "frame"@,
            Field::Heading => "WMO heading"@,
            Field::UgcString => "UGC string"@,
            Field::Pvtec => "P-VTEC"@,
            Field::Hvtec => "H-VTEC"@,
            Field::LatLon => "LAT...LON"@,
            Field::TimeMotLoc => "TIME...MOT...LOC"@,
            Field::OiMessage => "nwws-oi message"@,
            Field::OiPayload => "nwws-oi payload"@,
            Field::OiAttribute => "nwws-oi attribute"@,
            Field::OiOffice => "nwws-oi cccc"@,
            Field::OiDesignator => "nwws-oi ttaaii"@,
            Field::OiAwipsId => "nwws-oi awipsid"@,
        }
    }

    pub fn name(self) -> (r: &'static str)
        ensures
            r@ == self.spec_name(),
    {
        match self {
            Field::Frame => "frame",
            Field::Heading => "WMO heading",
            Field::UgcString => "UGC string",
            Field::Pvtec => "P-VTEC",
            Field::Hvtec => "H-VTEC",
            Field::LatLon => "LAT...LON",
            Field::TimeMotLoc => "TIME...MOT...LOC",
            Field::OiMessage => "nwws-oi message",
            Field::OiPayload => "nwws-oi payload",
            Field::OiAttribute => "nwws-oi attribute",
            Field::OiOffice => "nwws-oi cccc",
            Field::OiDesignator => "nwws-oi ttaaii",
            Field::OiAwipsId => "nwws-oi awipsid",
        }
    }
}

/// What went wrong.
#[derive(Debug, Clone, Copy, PartialEq, Eq, Structural)]
pub enum ErrorKind {
    /// The input is not valid UTF-8.
    InvalidUtf8,
    /// The input ends before the field is complete.
    UnexpectedEof(Field),
    /// The field is absent.
    MissingField(Field),
    /// The field is present but malformed.
    InvalidField(Field),
    /// A wrapper attribute contradicts the bulletin it wraps.
    Mismatch(Field),
}

/// A failed parse.
#[derive(Debug, Clone, Copy, PartialEq, Eq, Structural)]
pub struct ParseError {
    pub kind: ErrorKind,
}

pub type Result<T> = std::result::Result<T, ParseError>;

impl ParseError {
    pub fn new(kind: ErrorKind) -> (r: Self)
        ensures
            r.kind == kind,
    {
        ParseError { kind }
    }

    /// The message of the error.
    pub open spec fn spec_message(self) -> Seq<char> {
        match self.kind {
            ErrorKind::InvalidUtf8 => "invalid UTF-8"@,
            ErrorKind::UnexpectedEof(field) => "unexpected end of "@ + field.spec_name(),
            ErrorKind::MissingField(field) => "missing "@ + field.spec_name(),
            ErrorKind::InvalidField(field) => "invalid "@ + field.spec_name(),
            ErrorKind::Mismatch(field) => "bulletin does not match "@ + field.spec_name(),
        }
    }

    pub fn message(&self) -> (r: String)
        ensures
            r@ == self.spec_message(),
    {
        let mut v: Vec<char> = Vec::new();
        match self.kind {
            ErrorKind::InvalidUtf8 => {
                text::push_str(&mut v, "invalid UTF-8");
            },
            ErrorKind::UnexpectedEof(field) => {
                text::push_str(&mut v, "unexpected end of ");
                text::push_str(&mut v, field.name());
            },
            ErrorKind::MissingField(field) => {
                text::push_str(&mut v, "missing ");
                text::push_str(&mut v, field.name());
            },
            ErrorKind::InvalidField(field) => {
                text::push_str(&mut v, "invalid ");
                text::push_str(&mut v, field.name());
            },
            ErrorKind::Mismatch(field) => {
                text::push_str(&mut v, "bulletin does not match ");
                text::push_str(&mut v, field.name());
            },
        }
        assert(v@ =~= self.spec_message());
        text::to_text(v.as_slice())
    }
}

} // verus!
