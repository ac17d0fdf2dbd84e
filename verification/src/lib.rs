//! Parsing, archiving and timeline logic for NOAA Weather Wire text products.

pub mod active;
pub mod api;
pub mod archive;
pub mod archive_laws;
pub mod bulletin_laws;
pub mod capture;
pub mod clock;
pub mod code_laws;
pub mod commands;
pub mod digest;
pub mod error;
pub mod families;
pub mod framing;
pub mod geo;
pub mod header;
pub mod ingest;
pub mod input_laws;
pub mod issue_time;
pub mod keeping_laws;
pub mod lead_time;
pub mod line_ends;
pub mod lines;
pub mod metrics;
pub mod metrics_laws;
pub mod number;
pub mod oi;
pub mod oi_archive;
pub mod oi_options;
pub mod option_laws;
pub mod options;
pub mod order_laws;
pub mod path_order;
pub mod paths;
pub mod pid201;
pub mod polygon;
pub mod product;
pub mod product_laws;
pub mod report;
pub mod report_laws;
pub mod runtime;
pub mod scan;
pub mod serve;
pub mod serve_laws;
pub mod session;
pub mod shape_laws;
pub mod stream;
pub mod summary;
pub mod tag_laws;
pub mod tags;
pub mod tally;
pub mod text;
pub mod timeline;
pub mod timeline_laws;
pub mod timeline_report;
pub mod ugc;
pub mod vtec;
pub mod warning;
pub mod warning_laws;
pub mod warning_tags;
pub mod wmo;
pub mod writing_laws;
pub mod xml;

pub use active::{ActiveWarningRecord, ActiveWarningReport};
pub use api::{
    inspect_bytes, inspect_oi_message, inspect_text, split_pid201_bytes, ApiError, InputKind,
    InspectionReport, Pid201SplitRecord, Pid201SplitReport, TransportSummary,
};
pub use archive::{
    ArchiveFailure, ArchiveImportReport, ArchivePersistResult, ArchiveVerifyRecord,
    ArchiveVerifyReport,
};
pub use digest::semantic_fingerprint;
pub use error::{ErrorKind, ParseError, Result};
pub use families::family_slug;
pub use geo::{LatLonBlock, TimeMotLoc};
pub use header::{AwipsId, WmoHeading};
pub use ingest::{
    parse_with_hint, BulletinIngest, FramedStreamIngest, IngestHint, OiIngest, OiWrapperMetadata,
    ParsedInput, TransportDescriptor, TransportKind,
};
pub use metrics::{
    area_time_polygon_metric_limitations, warning_interval_duration_seconds,
    warning_interval_overlap_seconds, AREA_TIME_POLYGON_METRICS_METHOD,
    AREA_TIME_POLYGON_METRICS_SCHEMA,
};
pub use oi::{parse_oi_message, NwwsOiId, NwwsOiMessage, NwwsOiPayload};
pub use pid201::{Pid201DrainState, Pid201Record, Pid201StreamAdapter};
pub use polygon::warning_polygon_area_square_degrees;
pub use product::{NwsProduct, NwwsContent, ProductFamily, ProductSegment, SegmentBoundaries};
pub use runtime::{
    ArchiveRecord, ArchiveStore, ArchivedMetadata, DedupeStore, IngestService, MessageRouter,
    ProcessReport, RecordSource, Route, RouteRule, RuntimeError,
};
pub use scan::{ScanCount, ScanFileResult, ScanReport};
pub use session::Pid201IngestSession;
pub use stream::FramedChunk;
pub use summary::{
    ByteRange, MessageSummary, PointSummary, SegmentSummary, TimeMotLocSummary, WrapperSummary,
};
pub use tags::{
    SegmentTag, SegmentTags, WarningActionKind, WarningActionSource, WarningActionTag,
    WarningParsedTags, WarningTextTag, WarningTextTagKind,
};
pub use timeline_report::{WarningTimelineFailure, WarningTimelineReport};
pub use ugc::{UgcCode, UgcPurgeTime, UgcString};
pub use vtec::{EventClass, Hvtec, Phenomenon, Pvtec, Significance, VtecAction};
pub use warning::{WarningByteRange, WarningLifecycleStatus, WarningTimelineRecord};
pub use warning_tags::{WarningPoint, WarningPolygon, WarningTags, WarningTimeMotion};
pub use wmo::{WmoFrameKind, WmoMessage};

use vstd::prelude::*;

verus! {

/// Start-of-heading control byte used by framed WMO messages.
pub const SOH: u8 = 0x01;

/// End-of-text control byte used by framed WMO messages.
pub const ETX: u8 = 0x03;

/// Carriage return byte used by WMO text framing.
pub const CR: u8 = 0x0D;

/// Line feed byte used by WMO text framing.
pub const LF: u8 = 0x0A;

/// Canonical WMO line separator.
pub const WMO_SEPARATOR: [u8; 3] = [CR, CR, LF];

} // verus!
