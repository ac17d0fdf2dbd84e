use nwws_rs::active::ActiveWarningReport;
use nwws_rs::archive::{
    manifest_line, persist_step, record_relative_path, verify_archived_file, ArchiveAction,
    ImportRecord, PersistStep, MANIFEST_HEADER,
};
use nwws_rs::capture::{
    archive_live_oi_message, oi_archive_message_report, Capture, CaptureEvent, CaptureLimit,
    LiveError,
};
use nwws_rs::clock::UNWRITABLE_YEAR;
use nwws_rs::digest::archive_digest;
use nwws_rs::error::Field;
use nwws_rs::lead_time::{lead_time_metrics, NO_INTERVAL_FLAG, NO_POLYGON_FLAG};
use nwws_rs::metrics::{area_time_metrics, parse_reference_utc};
use nwws_rs::oi::IssueTime;
use nwws_rs::oi_archive::{oi_message_to_archive_xml, OiArchiveError};
use nwws_rs::pid201::Pid201StreamAdapter;
use nwws_rs::polygon::{overlap_outlines, warning_polygon_area_square_degrees};
use nwws_rs::report::replay_line;
use nwws_rs::serve::{LiveProduct, StreamFilter};
use nwws_rs::tally::Tally;
use nwws_rs::timeline_report::TimelineBuilder;
use nwws_rs::warning_tags::WindSpeed;
use nwws_rs::{
    inspect_bytes, inspect_text, parse_with_hint, semantic_fingerprint, split_pid201_bytes,
    warning_interval_overlap_seconds, ApiError, ArchiveImportReport, ArchiveRecord, ArchiveStore,
    ArchiveVerifyReport, DedupeStore, ErrorKind, IngestHint, IngestService, InputKind,
    MessageRouter, NwwsContent, NwwsOiId, NwwsOiMessage, ParsedInput, Pid201IngestSession,
    ProcessReport, ProductFamily, RecordSource, Route, RouteRule, RuntimeError, ScanReport,
    TransportDescriptor, WarningActionKind, WarningLifecycleStatus, WarningPoint, WarningPolygon,
    WarningTags, WarningTextTagKind, WarningTimelineRecord, WarningTimelineReport, WmoMessage,
};

const TORNADO: &str = "\
000
WUUS53 KLOT 211600
TORLOT
ILC031-043-197-211630-
/O.NEW.KLOT.TO.W.0001.260421T1600Z-260421T1630Z/

BULLETIN - EAS ACTIVATION REQUESTED
Tornado Warning
National Weather Service Chicago/Romeoville IL
1100 AM CDT Tue Apr 21 2026

HAZARD...Tornado.

SOURCE...Radar indicated rotation.

IMPACT...Flying debris will be dangerous.

&&

LAT...LON 4215 8850 4221 8823 4213 8800 4190 8797
      4187 8836 4195 8852
TIME...MOT...LOC 1600Z 265DEG 30KT 4205 8840

TORNADO...RADAR INDICATED
MAX HAIL SIZE...1.00 IN

$$
";

const STATEMENT: &str = "\
000
WWUS73 KLOT 211620
SVSLOT

Severe Weather Statement
National Weather Service Chicago/Romeoville IL
1120 AM CDT Tue Apr 21 2026

ILC031-043-211630-
/O.CON.KLOT.TO.W.0001.000000T0000Z-260421T1630Z/

A tornado warning remains in effect.

LAT...LON 4215 8840 4221 8823 4213 8800 4190 8797
TIME...MOT...LOC 1620Z 265DEG 30KT 4205 8820

TORNADO...RADAR INDICATED

$$

ILC089-111-211700-
/O.NEW.KLOT.SV.W.0002.260421T1620Z-260421T1700Z/

A severe thunderstorm warning is in effect.

HAIL...1.00IN
WIND...60MPH

$$
";

const WRAPPER: &str = "<message type='groupchat' from='nwws@conference.nwws-oi.weather.gov/nwws-oi' to='user@nwws-oi.weather.gov/test'><body>KLOT issues TOR valid 2026-04-21T16:00:00Z</body><html xmlns='http://jabber.org/protocol/xhtml-im'><body xmlns='http://www.w3.org/1999/xhtml'>KLOT issues TOR</body></html><x xmlns='nwws-oi' cccc='KLOT' ttaaii='WUUS53' issue='2026-04-21T16:00:00Z' awipsid='TORLOT' id='41001.17'>";

const NOON: &str = "2026-04-21T16:05:00Z";

fn wrapped(bulletin: &str) -> String {
    format!("{WRAPPER}{}</x></message>", bulletin.replace('&', "&amp;"))
}

fn framed(bulletin: &str) -> String {
    let bulletin = bulletin.lines().collect::<Vec<_>>().join("\r\r\n");
    format!("\u{1}\r\r\n{bulletin}\r\r\n\u{3}")
}

fn at(text: &str) -> i128 {
    parse_reference_utc(text).unwrap()
}

fn content(bulletin: &str) -> NwwsContent {
    NwwsContent::parse_bulletin(bulletin.as_bytes()).unwrap()
}

fn service(root: &str) -> IngestService {
    let router = MessageRouter::new(Some(ArchiveStore::new(root.to_owned())));
    IngestService::new(router, DedupeStore::from_index("dedupe.txt".to_owned(), ""))
}

fn written(report: &ProcessReport) -> Vec<&ArchiveRecord> {
    report.plans.iter().flat_map(|plan| plan.writes.iter()).collect()
}

fn timeline(inputs: &[(&str, IngestHint, &str)], query: Option<&str>) -> WarningTimelineReport {
    gathered(inputs, query).finish()
}

fn active(inputs: &[(&str, IngestHint, &str)], query: &str) -> ActiveWarningReport {
    gathered(inputs, Some(query)).finish_active().unwrap()
}

fn gathered(inputs: &[(&str, IngestHint, &str)], query: Option<&str>) -> TimelineBuilder {
    let mut builder = TimelineBuilder::new("root".to_owned(), query.map(at));
    for (path, hint, text) in inputs {
        builder.add_input(path, *hint, text.as_bytes());
    }
    builder
}

const BOTH: [(&str, IngestHint, &str); 2] = [
    ("svs.txt", IngestHint::RawBulletin, STATEMENT),
    ("warning.txt", IngestHint::RawBulletin, TORNADO),
];

// ---------------------------------------------------------------------------
// Inspection
// ---------------------------------------------------------------------------

#[test]
fn inspect_bytes_returns_detailed_segment_data() {
    let report = inspect_bytes(TORNADO.as_bytes(), IngestHint::RawBulletin).unwrap();

    assert_eq!(report.messages.len(), 1);
    assert_eq!(report.messages[0].family, "tornado");
    assert_eq!(report.messages[0].office, "KLOT");
    assert_eq!(report.messages[0].raw_bulletin_blake3.len(), 64);
    assert_eq!(report.messages[0].archive_id.len(), 16);
    assert_eq!(report.messages[0].segments.len(), 1);
    assert_eq!(
        report.messages[0].segments[0].tornado_tag.as_deref(),
        Some("RADAR INDICATED")
    );
    assert_eq!(report.messages[0].segments[0].ugcs.len(), 3);
}

#[test]
fn inspect_json_emits_structured_warning_contract() {
    let report = inspect_text(TORNADO, IngestHint::Auto).unwrap();
    assert_eq!(report.input_kind.label(), "bulletin");
    assert_eq!(report.messages.len(), 1);

    let message = &report.messages[0];
    assert_eq!(message.heading, "WUUS53 KLOT 211600");
    assert_eq!(message.office, "KLOT");
    assert_eq!(message.awips_id.as_deref(), Some("TORLOT"));
    assert_eq!(message.family, "tornado");
    assert_eq!(message.raw_bulletin_blake3.len(), 64);
    assert_eq!(message.archive_id.len(), 16);

    let segment = &message.segments[0];
    assert!(segment.ugc_raw.starts_with("ILC031"));
    assert!(segment.pvtec[0].contains("KLOT.TO.W.0001"));
    assert!(segment.lat_lon.as_ref().unwrap().len() > 1);
    assert_eq!(segment.time_mot_loc.as_ref().unwrap().direction_degrees, 265);
    assert_eq!(segment.time_mot_loc.as_ref().unwrap().speed_knots, 30);
    assert_eq!(segment.time_mot_loc.as_ref().unwrap().time, "1600Z");
    assert_eq!(segment.lat_lon.as_ref().unwrap()[0].lat, 4215);
    assert_eq!(segment.lat_lon.as_ref().unwrap()[0].lon, -8850);
    assert_eq!(segment.ugcs, vec!["ILC031", "ILC043", "ILC197"]);
    assert!(segment.contains_andand);
    assert!(segment.separated_by_dollars);
}

#[test]
fn detects_open_interface_fixture() {
    let report = inspect_bytes(wrapped(TORNADO).as_bytes(), IngestHint::OpenInterface).unwrap();
    assert_eq!(report.input_kind, InputKind::OpenInterface);
    assert_eq!(report.messages.len(), 1);
    assert_eq!(report.messages[0].heading, "WUUS53 KLOT 211600");
    let wrapper = report.messages[0].wrapper.as_ref().unwrap();
    assert_eq!(wrapper.id.as_deref(), Some("41001.17"));
    assert_eq!(wrapper.issue.as_deref(), Some("2026-04-21T16:00:00Z"));
    assert_eq!(
        wrapper.summary.as_deref(),
        Some("KLOT issues TOR valid 2026-04-21T16:00:00Z")
    );
}

#[test]
fn detects_pid201_stream_with_multiple_messages() {
    let first = framed(TORNADO);
    let second = framed(STATEMENT);
    let input = format!("junk{first}{second}tail");

    let report = inspect_bytes(input.as_bytes(), IngestHint::SatellitePid201).unwrap();
    assert_eq!(report.input_kind, InputKind::FramedStream);
    assert_eq!(
        report.transport,
        nwws_rs::TransportSummary::from_descriptor(TransportDescriptor::satellite_pid201())
    );
    assert_eq!(report.messages.len(), 2);
    assert_eq!(report.junk_bytes, 4);
    assert_eq!(report.pending_bytes, 4);
    let range = report.messages[1].byte_range.unwrap();
    assert_eq!(range.start, 4 + first.len());
    assert_eq!(range.end, 4 + first.len() + second.len());
    assert_eq!(
        replay_line("capture.pid201", &report),
        "capture.pid201 | framed-stream/satellite-pid201 | messages=2 | heading=WUUS53 KLOT 211600 | awips=TORLOT | family=tornado | extra=1 | junk=4 | pending=4"
    );
}

#[test]
fn streams_without_messages_are_refused() {
    assert_eq!(
        inspect_bytes(b"nothing here", IngestHint::SatellitePid201),
        Err(ApiError::NoFramedMessages)
    );
    assert_eq!(split_pid201_bytes(b"nothing here"), Err(ApiError::NoFramedBulletins));
    assert!(ApiError::NoFramedMessages.message().contains("no framed messages"));
}

#[test]
fn scan_path_collects_success_and_failures() {
    let mut report = ScanReport::new("root".to_owned());
    report.add_input("bad.txt".to_owned(), "root/bad.txt", IngestHint::Auto, b"not a bulletin");
    report.add_input("good.txt".to_owned(), "root/good.txt", IngestHint::Auto, TORNADO.as_bytes());

    assert_eq!(report.scanned_files, 2);
    assert_eq!(report.parsed_files, 1);
    assert_eq!(report.failures, 1);
    assert_eq!(report.messages, 1);
    assert_eq!(report.families.count("tornado"), 1);
    assert_eq!(report.counts.len(), 1);
    assert_eq!(report.counts[0].input_kind, InputKind::Bulletin);
    assert_eq!(report.counts[0].files, 1);
    assert_eq!(report.files[0].path, "bad.txt");
    assert!(report.files[0].error.is_some());
    assert!(report.files[1].report.is_some());
}

#[test]
fn split_pid201_bytes_returns_records() {
    let input = format!("junk{}", framed(TORNADO));
    let report = split_pid201_bytes(input.as_bytes()).unwrap();

    assert_eq!(report.records.len(), 1);
    assert_eq!(report.junk_bytes, 4);
    assert!(report.records[0].suggested_filename.ends_with(".txt"));
    assert_eq!(report.records[0].suggested_filename, "00001_0_WUUS53_TORLOT.txt");
}

#[test]
fn pid201_split_writes_canonical_bulletin_files() {
    let input = format!("{}{}", framed(TORNADO), framed(STATEMENT));
    let report = split_pid201_bytes(input.as_bytes()).unwrap();

    assert_eq!(report.records.len(), 2);
    assert!(report.records[0].suggested_filename < report.records[1].suggested_filename);
    assert!(report.records[0].message.raw_bulletin.contains("WUUS53 KLOT 211600"));
    assert!(report.records[1].message.raw_bulletin.contains("WWUS73 KLOT 211620"));
}

#[test]
fn automatic_detection_tells_the_inputs_apart() {
    assert!(matches!(
        parse_with_hint(IngestHint::Auto, TORNADO.as_bytes()),
        Ok(ParsedInput::Bulletin(_))
    ));
    assert!(matches!(
        parse_with_hint(IngestHint::Auto, wrapped(TORNADO).as_bytes()),
        Ok(ParsedInput::OpenInterface(_))
    ));
    let two = format!("{}{}", framed(TORNADO), framed(STATEMENT));
    assert!(matches!(
        parse_with_hint(IngestHint::FramedStream, two.as_bytes()),
        Ok(ParsedInput::FramedStream(_))
    ));
}

#[test]
fn extracts_structured_tornado_warning_tags_and_action() {
    let product = content(TORNADO).product;
    let tags = product.segments[0].warning_tags();

    assert_eq!(tags.actions.len(), 1);
    assert_eq!(tags.actions[0].action, "NEW");
    assert_eq!(tags.actions[0].normalized_action, WarningActionKind::New);

    let source = tags
        .text_tags
        .iter()
        .find(|tag| tag.kind == WarningTextTagKind::Source)
        .unwrap();
    assert_eq!(source.raw_value, "Radar indicated rotation.");
    assert_eq!(source.normalized_value, "RADAR INDICATED ROTATION.");

    let tornado = tags
        .text_tags
        .iter()
        .find(|tag| tag.kind == WarningTextTagKind::Tornado)
        .unwrap();
    assert_eq!(tornado.raw_name, "TORNADO");
    assert_eq!(tornado.raw_value, "RADAR INDICATED");
    assert_eq!(tornado.normalized_value, "RADAR INDICATED");

    let hail = tags
        .text_tags
        .iter()
        .find(|tag| tag.kind == WarningTextTagKind::MaxHailSize)
        .unwrap();
    assert_eq!(hail.raw_value, "1.00 IN");
    assert_eq!(hail.normalized_value, "1.00 IN");
    assert_eq!(hail.numeric_value.as_ref().unwrap().parse::<f32>(), Ok(1.0));
    assert_eq!(hail.unit.as_deref(), Some("in"));
}

// ---------------------------------------------------------------------------
// Fingerprints
// ---------------------------------------------------------------------------

#[test]
fn semantic_fingerprint_matches_bare_and_open_interface() {
    let bare = content(TORNADO);
    let message = NwwsOiMessage::parse(&wrapped(TORNADO)).unwrap();
    let oi = NwwsContent::from_oi_message(&message).unwrap();

    assert_eq!(semantic_fingerprint(&bare), semantic_fingerprint(&oi));
}

#[test]
fn semantic_fingerprint_matches_bare_and_framed_bulletins() {
    let bare = content(TORNADO);
    let framed = NwwsContent::parse_bulletin(framed(TORNADO).as_bytes()).unwrap();

    assert_eq!(semantic_fingerprint(&bare), semantic_fingerprint(&framed));
    assert_ne!(semantic_fingerprint(&bare), semantic_fingerprint(&content(STATEMENT)));
}

#[test]
fn digests_are_those_of_the_bytes() {
    assert_eq!(archive_digest(b""), "cbf29ce484222325");
    assert_eq!(archive_digest(b"a"), "af63dc4c8601ec8c");
    assert_eq!(archive_digest(b"foobar"), "85944171f73967e8");

    let parsed = content(TORNADO);
    let digest = nwws_rs::digest::raw_bulletin_blake3(&parsed);
    assert_eq!(
        digest,
        blake3::hash(parsed.bulletin.bulletin.as_bytes()).to_hex().as_str()
    );
    let canonical = nwws_rs::digest::canonical_bulletin(&parsed);
    assert_eq!(
        semantic_fingerprint(&parsed),
        blake3::hash(canonical.as_bytes()).to_hex().as_str()
    );
}

// ---------------------------------------------------------------------------
// Wrapped messages
// ---------------------------------------------------------------------------

#[test]
fn wrappers_must_agree_with_their_bulletin() {
    let good = wrapped(TORNADO);
    for (from, to, field) in [
        ("cccc='KLOT'", "cccc='KDMX'", Field::OiOffice),
        ("ttaaii='WUUS53'", "ttaaii='WUUS54'", Field::OiDesignator),
        ("awipsid='TORLOT'", "awipsid='TORDMX'", Field::OiAwipsId),
    ] {
        let message = NwwsOiMessage::parse(&good.replace(from, to)).unwrap();
        let error = NwwsContent::from_oi_message(&message).unwrap_err();
        assert_eq!(error.kind, ErrorKind::Mismatch(field));
    }
    assert!(NwwsContent::from_oi_message(&NwwsOiMessage::parse(&good).unwrap()).is_ok());
}

#[test]
fn wrappers_without_payload_have_no_content() {
    let message = NwwsOiMessage::parse("<message><body>hello</body></message>").unwrap();
    assert!(message.payload.is_none());
    assert_eq!(message.summary.as_deref(), Some("hello"));
    assert!(NwwsContent::from_oi_message(&message).is_err());
    assert_eq!(oi_message_to_archive_xml(&message), Err(OiArchiveError::MissingPayload));
    assert!(NwwsOiMessage::parse("<presence/>").is_err());
}

#[test]
fn oi_archive_xml_ingests_with_runtime_archive_store() {
    let message = NwwsOiMessage::parse(&wrapped(TORNADO)).unwrap();
    let xml = oi_message_to_archive_xml(&message).unwrap();
    let reparsed = NwwsOiMessage::parse(&xml).unwrap();

    assert_eq!(
        reparsed.payload.as_ref().unwrap().raw_bulletin,
        message.payload.as_ref().unwrap().raw_bulletin
    );

    let mut service = service("archive");
    let report = service
        .process_bytes(IngestHint::OpenInterface, xml.as_bytes(), at(NOON))
        .unwrap();

    let records = written(&report);
    assert_eq!(records.len(), 1);
    assert_eq!(records[0].metadata.source, RecordSource::OpenInterface);
    assert_eq!(records[0].metadata.wrapper_id.as_deref(), Some("41001.17"));
    assert!(records[0].raw_path.ends_with(".xml"));
    assert!(records[0].metadata_path.ends_with(".json"));
}

#[test]
fn archive_form_keeps_what_needs_escaping() {
    let mut message = NwwsOiMessage::parse(&wrapped(TORNADO)).unwrap();
    message.summary = Some("A & B < C > \"D\"".to_owned());
    message.payload.as_mut().unwrap().id = NwwsOiId { process_id: 7, sequence: 9 };
    let xml = oi_message_to_archive_xml(&message).unwrap();
    let again = NwwsOiMessage::parse(&xml).unwrap();
    assert_eq!(again.summary, message.summary);
    assert_eq!(again.payload, message.payload);
    assert_eq!(again.from, message.from);
    assert_eq!(again.to, message.to);
}

#[test]
fn issue_times_that_cannot_be_written_are_refused() {
    let mut message = NwwsOiMessage::parse(&wrapped(TORNADO)).unwrap();
    let early = IssueTime::new(-70_000_000_000_000_000_000, 0).unwrap();
    message.payload.as_mut().unwrap().issue = early;
    assert_eq!(oi_message_to_archive_xml(&message), Err(OiArchiveError::UnwritableIssueTime));
    assert_eq!(early.to_rfc3339(), None);

    let reason = time::OffsetDateTime::from_unix_timestamp_nanos(-70_000_000_000_000_000_000)
        .unwrap()
        .format(&time::format_description::well_known::Rfc3339)
        .unwrap_err()
        .to_string();
    assert_eq!(reason, UNWRITABLE_YEAR);
    assert_eq!(
        OiArchiveError::UnwritableIssueTime.message(),
        format!("failed to format NWWS-OI issue time: {reason}")
    );
    assert_eq!(
        RuntimeError::CaptureTime.message(),
        format!("failed to format capture time: {reason}")
    );
}

#[test]
fn issue_times_on_the_last_day_are_archived_with_their_offset() {
    let issue = "9999-12-31T23:00:00-05:00";
    let xml = wrapped(TORNADO).replace("2026-04-21T16:00:00Z' awipsid", &format!("{issue}' awipsid"));
    let message = NwwsOiMessage::parse(&xml).unwrap();
    let archived = oi_message_to_archive_xml(&message).unwrap();
    assert!(archived.contains(issue));
    let again = NwwsOiMessage::parse(&archived).unwrap();
    assert_eq!(again.payload, message.payload);
}

// ---------------------------------------------------------------------------
// Runtime
// ---------------------------------------------------------------------------

#[test]
fn dedupe_store_persists_fingerprints() {
    let mut store = DedupeStore::from_index("seen.txt".to_owned(), "");
    assert!(store.insert("abc"));
    assert!(!store.insert("abc"));

    let reopened = DedupeStore::from_index("seen.txt".to_owned(), "abc\n");
    assert!(reopened.contains("abc"));
    assert!(!reopened.contains("abd"));
}

#[test]
fn index_lines_are_trimmed_and_blank_ones_skipped() {
    let store = DedupeStore::from_index("seen.txt".to_owned(), "  abc \r\n\n\tdef\n");
    assert!(store.contains("abc"));
    assert!(store.contains("def"));
    assert!(!store.contains(""));
    assert_eq!(store.index_path(), "seen.txt");
}

#[test]
fn service_archives_first_copy_and_skips_duplicate() {
    let mut service = service("archive");

    let first = service
        .process_bytes(IngestHint::RawBulletin, TORNADO.as_bytes(), at(NOON))
        .unwrap();
    let second = service
        .process_bytes(IngestHint::OpenInterface, wrapped(TORNADO).as_bytes(), at(NOON))
        .unwrap();

    assert_eq!(written(&first).len(), 1);
    assert!(first.plans[0].remember);
    assert_eq!(written(&first)[0].metadata.source, RecordSource::RawBulletin);
    assert!(written(&second).is_empty());
    assert!(!second.plans[0].remember);
}

#[test]
fn duplicates_are_archived_on_request() {
    let mut service = service("archive");
    service.set_archive_duplicates(true);
    let first = service
        .process_bytes(IngestHint::RawBulletin, TORNADO.as_bytes(), at(NOON))
        .unwrap();
    let second = service
        .process_bytes(IngestHint::RawBulletin, TORNADO.as_bytes(), at(NOON))
        .unwrap();
    assert!(!written(&first)[0].duplicate);
    assert!(written(&second)[0].duplicate);
    assert_eq!(written(&first)[0].fingerprint, written(&second)[0].fingerprint);
}

#[test]
fn records_lie_under_day_source_office_and_family() {
    let mut service = service("archive");
    let report = service
        .process_bytes(IngestHint::RawBulletin, TORNADO.as_bytes(), at(NOON))
        .unwrap();
    let record = written(&report)[0];
    let fingerprint = semantic_fingerprint(&content(TORNADO));
    assert_eq!(record.fingerprint, fingerprint);
    assert_eq!(
        record.raw_path,
        format!("archive/2026/04/21/raw_bulletin/KLOT/TORLOT/tornado/{fingerprint}.txt")
    );
    assert_eq!(
        record.metadata_path,
        format!("archive/2026/04/21/raw_bulletin/KLOT/TORLOT/tornado/{fingerprint}.json")
    );
    assert_eq!(record.metadata.captured_at, NOON);
}

#[test]
fn capture_times_that_cannot_be_written_are_refused() {
    let mut service = service("archive");
    let error = service
        .process_bytes(IngestHint::RawBulletin, TORNADO.as_bytes(), i128::MAX)
        .unwrap_err();
    assert_eq!(error, RuntimeError::CaptureTime);
    let error = service
        .process_bytes(IngestHint::RawBulletin, b"\xff\xfe", at(NOON))
        .unwrap_err();
    assert!(matches!(error, RuntimeError::Parse(_)));
}

#[test]
fn router_matches_family_and_awips_prefix() {
    let mut router = MessageRouter::new(Some(ArchiveStore::new("default".to_owned())));
    router.add_route(Route {
        rule: RouteRule {
            family: Some(ProductFamily::Tornado),
            cccc: Some("KLOT".to_owned()),
            awips_prefix: Some("TOR".to_owned()),
        },
        archive: ArchiveStore::new("tor".to_owned()),
    });

    let dedupe = DedupeStore::from_index("dedupe.txt".to_owned(), "");
    let mut service = IngestService::new(router, dedupe);
    let report = service
        .process_bytes(IngestHint::RawBulletin, TORNADO.as_bytes(), at(NOON))
        .unwrap();
    assert_eq!(written(&report).len(), 1);
    assert!(written(&report)[0].raw_path.starts_with("tor/"));

    let other = service
        .process_bytes(IngestHint::RawBulletin, STATEMENT.as_bytes(), at(NOON))
        .unwrap();
    assert_eq!(written(&other).len(), 1);
    assert!(written(&other)[0].raw_path.starts_with("default/"));
}

#[test]
fn pid201_session_processes_chunked_stream() {
    let mut session = Pid201IngestSession::new(service("archive"));

    let framed = format!("noise{}", framed(TORNADO)).into_bytes();
    let split = framed.len() / 2;

    let first = session.push(&framed[..split], at(NOON));
    assert!(first.error.is_none());
    assert!(first.plans.is_empty());
    assert!(!session.pending().is_empty());

    let second = session.push(&framed[split..], at(NOON));
    assert!(second.error.is_none());
    assert_eq!(second.plans.len(), 1);
    let record = &second.plans[0].writes[0];
    assert_eq!(record.metadata.source, RecordSource::SatellitePid201);
    assert!(record.raw_path.starts_with("archive/"));
    assert!(record.raw_path.contains("pid201"));

    let drain = session.finish();
    assert_eq!(drain.pending_bytes, 0);
    assert!(drain.discarded_junk >= 5);
}

#[test]
fn sessions_keep_their_adapter_and_service() {
    let mut adapter = Pid201StreamAdapter::new();
    let framed = framed(TORNADO).into_bytes();
    assert!(adapter.push(&framed[..10]).is_empty());
    let mut session = Pid201IngestSession::with_adapter(adapter, service("archive"));
    session.service_mut().set_archive_duplicates(true);
    assert_eq!(session.service().index_path(), "dedupe.txt");
    let report = session.push(&framed[10..], at(NOON));
    assert_eq!(report.plans.len(), 1);
}

#[test]
fn streams_give_the_same_messages_in_any_pieces() {
    let stream = format!("junk{}between{}tail", framed(TORNADO), framed(STATEMENT)).into_bytes();
    let mut whole = Pid201StreamAdapter::new();
    let expected = whole.push(&stream);
    assert_eq!(expected.len(), 2);
    for step in [1usize, 7, 64] {
        let mut adapter = Pid201StreamAdapter::new();
        let mut records = Vec::new();
        for piece in stream.chunks(step) {
            records.extend(adapter.push(piece));
        }
        assert_eq!(records, expected);
    }
}

// ---------------------------------------------------------------------------
// Archive
// ---------------------------------------------------------------------------

fn import_record(bulletin: &str) -> ImportRecord {
    ImportRecord::from_content(
        "fixture.txt",
        InputKind::Bulletin,
        TransportDescriptor::plain_wmo_text(),
        None,
        &content(bulletin),
    )
}

#[test]
fn canonical_archive_path_uses_digest() {
    let record = import_record(TORNADO);
    let digest = archive_digest(record.bulletin_text.as_bytes());
    let path = record_relative_path(&record, 0);

    assert!(path.ends_with(&format!("{digest}.txt")));
    assert!(path.contains("KLOT"));
    assert!(path.contains("WUUS53"));
    assert!(path.contains("TORLOT"));
}

/// Stores a record among the files as the archive does.
fn store(
    files: &mut std::collections::BTreeMap<String, Vec<u8>>,
    record: &ImportRecord,
) -> (ArchiveAction, String) {
    let mut attempt = 0;
    loop {
        let path = record_relative_path(record, attempt);
        let step = persist_step(record, files.get(&path).map(|bytes| bytes.as_slice()));
        match step {
            PersistStep::Duplicate => return (ArchiveAction::Duplicate, path),
            PersistStep::Write => {
                files.insert(path.clone(), record.bulletin_text.clone().into_bytes());
                return (ArchiveAction::Archived, path);
            }
            PersistStep::Retry => attempt += 1,
        }
    }
}

fn total(tally: &Tally) -> usize {
    tally.entries().iter().map(|entry| entry.count).sum()
}

fn verified(files: &std::collections::BTreeMap<String, Vec<u8>>) -> ArchiveVerifyReport {
    let mut verify = ArchiveVerifyReport::new("archive".to_owned());
    for (path, bytes) in files {
        let stem = path.rsplit('/').next().unwrap().trim_end_matches(".txt");
        verify.add_file(path, stem, bytes);
    }
    verify
}

#[test]
fn archive_import_and_verify_round_trip() {
    let mut files = std::collections::BTreeMap::new();
    let mut import = ArchiveImportReport::new("archive".to_owned());
    for record in import.add_input("warning.txt", IngestHint::Auto, TORNADO.as_bytes()) {
        let (action, path) = store(&mut files, &record);
        import.add_outcome(&record, action, &path);
    }
    assert_eq!(import.archived_records, 1);
    assert_eq!(import.failures, 0);

    let verify = verified(&files);
    assert_eq!(verify.verified_records, 1);
    assert_eq!(verify.failures, 0);
}

#[test]
fn archive_import_and_verify_deduplicate_mixed_inputs() {
    let capture = framed(STATEMENT);
    let xml = wrapped(TORNADO);
    let inputs = [
        ("capture.pid201", IngestHint::SatellitePid201, capture.as_str()),
        ("warning.txt", IngestHint::Auto, TORNADO),
        ("warning.xml", IngestHint::OpenInterface, xml.as_str()),
    ];
    let mut files = std::collections::BTreeMap::new();
    let mut import = ArchiveImportReport::new("archive".to_owned());
    for (source, hint, text) in inputs {
        for record in import.add_input(source, hint, text.as_bytes()) {
            let (action, path) = store(&mut files, &record);
            import.add_outcome(&record, action, &path);
        }
    }
    assert_eq!(import.scanned_inputs, 3);
    assert_eq!(import.parsed_inputs, 3);
    assert_eq!(import.archived_records, 2);
    assert_eq!(import.duplicate_records, 1);
    assert_eq!(files.len(), 2);
    assert_eq!(import.records[2].action, "duplicate");
    assert_eq!(import.records[2].relative_path, import.records[1].relative_path);
    assert_eq!(import.families.count("tornado"), 2);
    assert_eq!(total(&import.families), import.records.len());
    assert_eq!(total(&import.transports), import.records.len());

    let verify = verified(&files);
    assert_eq!(verify.verified_records, 2);
    assert_eq!(verify.failures, 0);
    assert_eq!(total(&verify.families), verify.verified_records);
}

#[test]
fn framed_and_bare_copies_are_one_record() {
    let bare = import_record(STATEMENT);
    let framed = NwwsContent::parse_bulletin(framed(STATEMENT).as_bytes()).unwrap();
    let framed = ImportRecord::from_content(
        "fixture.txt",
        InputKind::FramedStream,
        TransportDescriptor::satellite_pid201(),
        None,
        &framed,
    );
    assert_eq!(bare.bulletin_text, framed.bulletin_text);
    assert_eq!(record_relative_path(&bare, 0), record_relative_path(&framed, 0));
    assert!(!framed.bulletin_text.contains('\r'));
}

#[test]
fn copies_with_other_line_ends_are_duplicates() {
    let record = import_record(STATEMENT);
    let mut files = std::collections::BTreeMap::new();
    let (first, place) = store(&mut files, &record);
    assert_eq!(first, ArchiveAction::Archived);
    for end in ["\r\n", "\r\r\n"] {
        let copy = import_record(&STATEMENT.replace('\n', end));
        assert_eq!(copy.heading, record.heading);
        assert_eq!(copy.segment_count, record.segment_count);
        let (again, path) = store(&mut files, &copy);
        assert_eq!(again, ArchiveAction::Duplicate);
        assert_eq!(path, place);
    }
    assert_eq!(verified(&files).verified_records, 1);
}

#[test]
fn archive_ids_name_the_stored_records() {
    for text in [STATEMENT.to_owned(), STATEMENT.replace('\n', "\r\r\n"), framed(STATEMENT)] {
        let message = &inspect_text(&text, IngestHint::RawBulletin).unwrap().messages[0];
        let path = record_relative_path(&import_record(&text), 0);
        assert!(path.ends_with(&format!("/{}.txt", message.archive_id)));
    }
}

#[test]
fn other_bulletins_at_a_place_are_not_overwritten() {
    let record = import_record(TORNADO);
    assert_eq!(persist_step(&record, None), PersistStep::Write);
    assert_eq!(persist_step(&record, Some(b"something else")), PersistStep::Retry);
    assert_eq!(
        persist_step(&record, Some(record.bulletin_text.as_bytes())),
        PersistStep::Duplicate
    );
    let first = record_relative_path(&record, 0);
    let second = record_relative_path(&record, 1);
    assert_ne!(first, second);
    assert!(second.ends_with("-1.txt"));
}

#[test]
fn changed_and_broken_archive_files_are_reported() {
    let record = import_record(TORNADO);
    let digest = archive_digest(record.bulletin_text.as_bytes());
    let good = verify_archived_file("a.txt", &digest, record.bulletin_text.as_bytes());
    assert_eq!(good.status, "ok");
    assert_eq!(good.heading.as_deref(), Some("WUUS53 KLOT 211600"));
    assert_eq!(good.family.as_deref(), Some("tornado"));

    let changed = record.bulletin_text.replace("Tornado.", "Hail.");
    let changed = verify_archived_file("a.txt", &digest, changed.as_bytes());
    assert_eq!(changed.status, "error");
    assert!(changed.error.is_some());

    let broken = verify_archived_file("a.txt", &digest, b"not a bulletin");
    assert_eq!(broken.status, "error");

    let mut report = ArchiveVerifyReport::new("archive".to_owned());
    report.add_record(good);
    report.add_record(changed);
    report.read_failed("b.txt", "permission denied");
    assert_eq!(report.verified_records, 1);
    assert_eq!(report.failures, 2);
}

#[test]
fn manifest_lines_have_the_fields_of_their_header() {
    let record = import_record(TORNADO);
    let line = manifest_line(&record, "records/a.txt");
    assert_eq!(
        line.split('\t').count(),
        MANIFEST_HEADER.split('\t').count()
    );
    assert!(line.contains("records/a.txt"));
}

#[test]
fn inputs_that_do_not_parse_are_import_failures() {
    let mut import = ArchiveImportReport::new("archive".to_owned());
    assert!(import.add_input("a.txt", IngestHint::Auto, b"not a bulletin").is_empty());
    import.read_failed("b.txt", "gone");
    assert_eq!(import.scanned_inputs, 2);
    assert_eq!(import.failures, 2);
    assert_eq!(import.parsed_inputs, 0);
    assert_eq!(import.errors[0].source_path, "a.txt");
    assert_eq!(import.errors[1].source_path, "b.txt");
}

// ---------------------------------------------------------------------------
// Timelines
// ---------------------------------------------------------------------------

#[test]
fn polygon_timeline_at_returns_versioned_warning_records() {
    let report = timeline(&BOTH, Some("2026-04-21T16:25:00Z"));

    assert_eq!(report.scanned_files, 2);
    assert_eq!(report.parsed_files, 2);
    assert_eq!(report.messages, 2);
    assert_eq!(report.failures, 0);
    assert_eq!(report.warning_records, 3);
    assert_eq!(report.records.len(), 3);

    let tornado_records = report
        .records
        .iter()
        .filter(|record| record.event_id == "KLOT.O.TO.W.0001")
        .collect::<Vec<_>>();
    assert_eq!(tornado_records.len(), 2);
    assert_eq!(tornado_records[0].action, "NEW");
    assert_eq!(
        tornado_records[0].lifecycle_status,
        Some(WarningLifecycleStatus::Superseded)
    );
    assert_eq!(
        tornado_records[0].issued_at.as_deref(),
        Some("2026-04-21T16:00:00Z")
    );
    assert_eq!(
        tornado_records[0].valid_start.as_deref(),
        Some("2026-04-21T16:00:00Z")
    );
    assert_eq!(
        tornado_records[0].expires_at.as_deref(),
        Some("2026-04-21T16:30:00Z")
    );
    assert_eq!(
        tornado_records[0].tags.tornado.as_deref(),
        Some("RADAR INDICATED")
    );
    assert!(tornado_records[0]
        .tags
        .text_tags
        .iter()
        .any(|tag| tag.kind == WarningTextTagKind::Source
            && tag.raw_value == "Radar indicated rotation."));
    assert_eq!(tornado_records[0].tags.actions[0].action, "NEW");
    assert_eq!(
        tornado_records[0].tags.actions[0].normalized_action,
        WarningActionKind::New
    );
    let polygon = tornado_records[0].polygon.as_ref().unwrap();
    assert!(polygon.raw.starts_with("LAT...LON"));
    assert_eq!(polygon.points.len(), 6);
    assert_eq!(polygon.points[0].lat as f64 / 100.0, 42.15);
    assert_eq!(polygon.points[0].lon as f64 / 100.0, -88.5);

    assert_eq!(tornado_records[1].action, "CON");
    assert_eq!(
        tornado_records[1].lifecycle_status,
        Some(WarningLifecycleStatus::Active)
    );
    assert_eq!(
        tornado_records[1].updated_at.as_deref(),
        Some("2026-04-21T16:20:00Z")
    );
    assert_eq!(tornado_records[1].valid_start, None);
    assert_eq!(tornado_records[1].tags.actions[0].action, "CON");
    assert_eq!(
        tornado_records[1].tags.actions[0].normalized_action,
        WarningActionKind::Continue
    );

    let severe = report
        .records
        .iter()
        .find(|record| record.event_id == "KLOT.O.SV.W.0002")
        .unwrap();
    assert_eq!(severe.action, "NEW");
    assert_eq!(
        severe.lifecycle_status,
        Some(WarningLifecycleStatus::Active)
    );
    assert_eq!(severe.ugcs, vec!["ILC089", "ILC111"]);
    assert_eq!(severe.tags.wind_mph, Some(WindSpeed::Mph(60)));
}

#[test]
fn timeline_json_returns_warning_lifecycle_records() {
    let report = timeline(&BOTH, Some("2026-04-21T16:25:00Z"));
    assert_eq!(report.query_time_utc.as_deref(), Some("2026-04-21T16:25:00Z"));
    assert_eq!(report.warning_records, 3);
    assert_eq!(report.failures, 0);
    assert!(report
        .records
        .iter()
        .any(|record| record.lifecycle_status == Some(WarningLifecycleStatus::Active)));
    assert!(report.records.iter().any(|record| record.event_id.contains("TO.W.0001")));
}

#[test]
fn polygon_timeline_uses_open_interface_wrapper_issue() {
    let xml = wrapped(TORNADO);
    let report = timeline(
        &[("warning.xml", IngestHint::OpenInterface, xml.as_str())],
        Some("2026-04-21T16:05:00Z"),
    );

    assert_eq!(report.warning_records, 1);
    let record = &report.records[0];
    assert_eq!(record.wrapper_id.as_deref(), Some("41001.17"));
    assert_eq!(
        record.wrapper_issued_at.as_deref(),
        Some("2026-04-21T16:00:00Z")
    );
    assert_eq!(record.issued_at.as_deref(), Some("2026-04-21T16:00:00Z"));
    assert_eq!(
        record.lifecycle_status,
        Some(WarningLifecycleStatus::Active)
    );
}

#[test]
fn polygon_timeline_marks_latest_record_expired_after_valid_end() {
    let report = timeline(&BOTH, Some("2026-04-21T17:05:00Z"));

    let tornado = report
        .records
        .iter()
        .rev()
        .find(|record| record.event_id == "KLOT.O.TO.W.0001")
        .unwrap();
    assert_eq!(tornado.action, "CON");
    assert_eq!(
        tornado.lifecycle_status,
        Some(WarningLifecycleStatus::Expired)
    );
}

#[test]
fn records_issued_later_are_future_records() {
    let report = timeline(&BOTH, Some("2026-04-21T16:10:00Z"));
    assert_eq!(
        report.records[0].lifecycle_status,
        Some(WarningLifecycleStatus::Active)
    );
    assert_eq!(
        report.records[1].lifecycle_status,
        Some(WarningLifecycleStatus::Future)
    );
    let plain = timeline(&BOTH, None);
    assert!(plain.records.iter().all(|record| record.lifecycle_status.is_none()));
    assert_eq!(plain.query_time_utc, None);
}

#[test]
fn canceled_warnings_are_canceled() {
    let cancel = STATEMENT.replace("/O.CON.KLOT.TO", "/O.CAN.KLOT.TO");
    let inputs = [
        ("a.txt", IngestHint::RawBulletin, TORNADO),
        ("b.txt", IngestHint::RawBulletin, cancel.as_str()),
    ];
    let report = timeline(&inputs, Some("2026-04-21T16:25:00Z"));
    let last = report
        .records
        .iter()
        .rev()
        .find(|record| record.event_id == "KLOT.O.TO.W.0001")
        .unwrap();
    assert_eq!(last.lifecycle_status, Some(WarningLifecycleStatus::Canceled));
    assert_eq!(last.canceled_at.as_deref(), Some("2026-04-21T16:20:00Z"));
    let active = active(&inputs, "2026-04-21T16:25:00Z");
    assert!(active.records.iter().all(|record| record.action != "CAN"));
}

#[test]
fn inputs_that_fail_are_counted_in_the_timeline() {
    let mut builder = gathered(&[("bad.txt", IngestHint::Auto, "not a bulletin")], None);
    builder.read_failed("gone.txt", "no such file");
    let report = builder.finish();
    assert_eq!(report.scanned_files, 2);
    assert_eq!(report.failures, 2);
    assert!(report.errors[0].error.starts_with("failed to parse with Auto: "));
    assert_eq!(report.errors[1].error, "failed to read: no such file");
    assert!(gathered(&BOTH, None).finish_active().is_none());
}

#[test]
fn active_at_tool_result_returns_archive_warning_state() {
    let same_areas = STATEMENT.replace("ILC031-043-211630-", "ILC031-043-197-211630-");
    let inputs = [
        ("svs.txt", IngestHint::RawBulletin, same_areas.as_str()),
        ("warning.txt", IngestHint::RawBulletin, TORNADO),
    ];
    let report = active(&inputs, "2026-04-21T16:25:00Z");
    assert_eq!(report.reference_utc.as_deref(), Some("2026-04-21T16:25:00Z"));
    assert_eq!(report.active_records, 2);
    assert_eq!(report.warning_vtec_segments, 3);

    let tornado = report
        .records
        .iter()
        .find(|record| record.event_family == "tornado")
        .unwrap();
    assert_eq!(tornado.action, "CON");
    assert_eq!(tornado.product_family, "statement");
    assert!(tornado.key.contains("TO.W.0001"));
    assert_eq!(tornado.office, "KLOT");
    assert_eq!(tornado.key, "KLOT.O.TO.W.0001|ILC031,ILC043,ILC197|tornado");
}

#[test]
fn active_warnings_resolves_fixture_window() {
    let inputs = [("warning.txt", IngestHint::RawBulletin, TORNADO)];
    let report = active(&inputs, "2026-04-21T16:25:00Z");
    assert_eq!(report.active_records, 1);
    assert_eq!(report.records[0].office, "KLOT");

    let expired = active(&inputs, "2026-04-21T17:00:00Z");
    assert_eq!(expired.active_records, 0);

    let early = active(&BOTH, "2026-04-21T16:10:00Z");
    assert_eq!(early.active_records, 1);
    assert_eq!(early.future_messages, 1);
}

#[test]
fn lead_time_tool_result_returns_point_event_metrics() {
    let event = "2026-04-21T16:20:00Z";
    let report = timeline(&BOTH, Some(event));
    let covers = report
        .records
        .iter()
        .map(|record| record.polygon.is_some())
        .collect::<Vec<_>>();
    let metrics = lead_time_metrics(&report.records, &covers, at(event));
    assert!(!metrics.missed_event);
    assert_eq!(metrics.lead_time_seconds, Some(1200));
    assert!(metrics.first_valid_warning_event_id.unwrap().contains("TO.W.0001"));
    assert_eq!(metrics.point_warning_records, 2);
    assert_eq!(metrics.event_warning_records, 2);
    assert_eq!(metrics.false_alarm_duration_seconds, 0);

    let late = lead_time_metrics(&report.records, &covers, at("2026-04-21T18:00:00Z"));
    assert!(late.missed_event);
    assert_eq!(late.lead_time_seconds, None);
    assert_eq!(late.false_alarm_duration_seconds, 1800 + 600);

    let nowhere = lead_time_metrics(&report.records, &vec![false; covers.len()], at(event));
    assert!(nowhere.missed_event);
    assert_eq!(nowhere.point_warning_records, 0);
}

#[test]
fn lead_times_are_flagged_where_records_lack_something() {
    let event = "2026-04-21T16:20:00Z";
    let mut report = timeline(&BOTH, Some(event));
    let covers = vec![true; report.records.len()];
    let flags = lead_time_metrics(&report.records, &covers, at(event)).quality_flags;
    assert_eq!(flags, vec![NO_POLYGON_FLAG]);

    report.records.retain(|record| record.polygon.is_some());
    let covers = vec![true; report.records.len()];
    assert!(lead_time_metrics(&report.records, &covers, at(event)).quality_flags.is_empty());

    report.records[0].valid_end = None;
    report.records[0].expires_at = None;
    let flags = lead_time_metrics(&report.records, &covers, at(event)).quality_flags;
    assert_eq!(flags, vec![NO_INTERVAL_FLAG]);
}

#[test]
fn records_of_the_same_time_are_in_the_order_of_their_paths() {
    let inputs = [
        ("day-2/warning.txt", IngestHint::RawBulletin, TORNADO),
        ("day/warning.txt", IngestHint::RawBulletin, TORNADO),
        ("Day/warning.txt", IngestHint::RawBulletin, TORNADO),
    ];
    let report = timeline(&inputs, Some(NOON));
    let paths = report.records.iter().map(|record| record.source_path.as_str()).collect::<Vec<_>>();
    assert_eq!(paths, vec!["Day/warning.txt", "day/warning.txt", "day-2/warning.txt"]);
    assert_eq!(report.records[0].lifecycle_status, Some(WarningLifecycleStatus::Superseded));
    assert_eq!(report.records[2].lifecycle_status, Some(WarningLifecycleStatus::Active));
}

// ---------------------------------------------------------------------------
// Metrics
// ---------------------------------------------------------------------------

fn polygon(points: &[(f32, f32)]) -> WarningPolygon {
    WarningPolygon {
        raw: "LAT...LON test".to_owned(),
        points: points
            .iter()
            .map(|(lat, lon)| WarningPoint {
                lat: (lat * 100.0).round() as i32,
                lon: (lon * 100.0).round() as i32,
            })
            .collect(),
    }
}

fn square_polygon(min_lat: f32, min_lon: f32, max_lat: f32, max_lon: f32) -> WarningPolygon {
    polygon(&[
        (min_lat, min_lon),
        (min_lat, max_lon),
        (max_lat, max_lon),
        (max_lat, min_lon),
    ])
}

fn square_degrees(polygon: &WarningPolygon) -> Option<f64> {
    warning_polygon_area_square_degrees(polygon).map(|area| area as f64 / 20_000.0)
}

fn test_record(
    record_key: &str,
    event_id: &str,
    valid_start: &str,
    valid_end: &str,
    polygon: WarningPolygon,
) -> WarningTimelineRecord {
    WarningTimelineRecord {
        record_key: record_key.to_owned(),
        event_id: event_id.to_owned(),
        source_path: "test.txt".to_owned(),
        byte_range: None,
        message_index: 1,
        segment_index: 1,
        vtec_index: 1,
        heading: "WUUS53 KAAA 211600".to_owned(),
        issued_at: Some(valid_start.to_owned()),
        wrapper_id: None,
        wrapper_issued_at: None,
        office: "KAAA".to_owned(),
        message_office: "KAAA".to_owned(),
        awips_id: Some("TORAAA".to_owned()),
        product_family: "tornado".to_owned(),
        event_family: "tornado".to_owned(),
        event_class: "O".to_owned(),
        action: "NEW".to_owned(),
        phenomenon: "TO".to_owned(),
        significance: "W".to_owned(),
        event_tracking_number: 1,
        valid_start: Some(valid_start.to_owned()),
        valid_end: Some(valid_end.to_owned()),
        expires_at: Some(valid_end.to_owned()),
        canceled_at: None,
        updated_at: None,
        lifecycle_status: None,
        vtec: "/O.NEW.KAAA.TO.W.0001.260421T1600Z-260421T1700Z/".to_owned(),
        ugc_raw: "AAC001-211700-".to_owned(),
        ugc_purge_time: "211700".to_owned(),
        ugcs: vec!["AAC001".to_owned()],
        headline: None,
        tags: WarningTags {
            tornado: None,
            flash_flood_observed: false,
            flash_flood_emergency: false,
            hail_inches: None,
            wind_mph: None,
            damage_threat: None,
            text_tags: Vec::new(),
            actions: Vec::new(),
        },
        polygon: Some(polygon),
        time_mot_loc: None,
        raw_bulletin_blake3: "test".to_owned(),
    }
}

#[test]
fn area_time_polygon_metrics_returns_deterministic_pair_values() {
    let left = test_record(
        "left",
        "KAAA.O.TO.W.0001",
        "2026-04-21T16:00:00Z",
        "2026-04-21T17:00:00Z",
        square_polygon(0.0, 0.0, 2.0, 2.0),
    );
    let right = test_record(
        "right",
        "KAAA.O.TO.W.0002",
        "2026-04-21T16:30:00Z",
        "2026-04-21T17:30:00Z",
        square_polygon(1.0, 1.0, 3.0, 3.0),
    );

    assert_eq!(
        nwws_rs::AREA_TIME_POLYGON_METRICS_SCHEMA,
        "warning.area_time_polygon_metrics.v1"
    );
    assert_eq!(
        nwws_rs::AREA_TIME_POLYGON_METRICS_METHOD,
        "planar-lon-lat-shoelace-convex-clip-v1"
    );
    assert!(nwws_rs::area_time_polygon_metric_limitations()
        .iter()
        .any(|limitation| limitation.contains("square-degrees")));

    let metrics = area_time_metrics(&left, &right);
    assert_eq!(metrics.left_duration_seconds, Some(3600));
    assert_eq!(metrics.right_duration_seconds, Some(3600));
    assert_eq!(metrics.time_overlap_seconds, Some(1800));
    assert_eq!(metrics.time_union_seconds, Some(5400));
    assert_eq!(metrics.time_overlap_ratio, Some((1800, 5400)));
    assert_eq!(square_degrees(left.polygon.as_ref().unwrap()), Some(4.0));
    assert_eq!(square_degrees(right.polygon.as_ref().unwrap()), Some(4.0));
    assert!(overlap_outlines(left.polygon.as_ref().unwrap(), right.polygon.as_ref().unwrap()).is_some());
    assert_eq!(metrics.left_area, Some(80_000));

    let swapped = area_time_metrics(&right, &left);
    assert_eq!(swapped.left_record_key, metrics.right_record_key);
    assert_eq!(swapped.left_interval_start, metrics.right_interval_start);
    assert_eq!(swapped.right_interval_end, metrics.left_interval_end);
    assert_eq!(swapped.left_duration_seconds, metrics.right_duration_seconds);
    assert_eq!(swapped.left_area, metrics.right_area);
    assert_eq!(swapped.right_area, metrics.left_area);
    assert_eq!(swapped.time_overlap_seconds, metrics.time_overlap_seconds);
    assert_eq!(swapped.time_union_seconds, metrics.time_union_seconds);
    assert_eq!(swapped.time_overlap_ratio, metrics.time_overlap_ratio);
    assert_eq!(swapped.overlap_outlines, metrics.overlap_outlines.map(|(a, b)| (b, a)));
    assert_eq!(
        warning_interval_overlap_seconds(&left, &right),
        warning_interval_overlap_seconds(&right, &left)
    );
}

#[test]
fn area_time_polygon_helpers_use_parsed_timeline_records() {
    let report = timeline(&BOTH, Some("2026-04-21T16:25:00Z"));
    let tornado_records = report
        .records
        .iter()
        .filter(|record| record.event_id == "KLOT.O.TO.W.0001")
        .collect::<Vec<_>>();
    let metrics = area_time_metrics(tornado_records[0], tornado_records[1]);

    assert_eq!(metrics.left_duration_seconds, Some(1800));
    assert_eq!(metrics.right_duration_seconds, Some(600));
    assert_eq!(
        warning_interval_overlap_seconds(tornado_records[0], tornado_records[1]),
        Some(600)
    );
    assert_eq!(metrics.time_overlap_seconds, Some(600));
    assert!(square_degrees(tornado_records[0].polygon.as_ref().unwrap()).unwrap() > 0.0);
    assert!(square_degrees(tornado_records[1].polygon.as_ref().unwrap()).unwrap() > 0.0);
}

#[test]
fn polygon_overlap_skips_self_intersecting_shapes() {
    let bowtie = polygon(&[(0.0, 0.0), (2.0, 2.0), (0.0, 2.0), (2.0, 0.0)]);
    let square = square_polygon(0.0, 0.0, 3.0, 3.0);

    assert_eq!(square_degrees(&bowtie), None);
    assert_eq!(overlap_outlines(&bowtie, &square), None);
    assert_eq!(overlap_outlines(&square, &bowtie), None);
}

#[test]
fn outlines_are_read_alike_open_or_closed() {
    let open = polygon(&[(0.0, 0.0), (0.0, 3.0), (2.0, 0.0)]);
    let closed = polygon(&[(0.0, 0.0), (0.0, 3.0), (0.0, 3.0), (2.0, 0.0), (0.0, 0.0)]);
    assert_eq!(square_degrees(&open), Some(3.0));
    assert_eq!(square_degrees(&closed), Some(3.0));
    let reversed = polygon(&[(2.0, 0.0), (0.0, 3.0), (0.0, 0.0)]);
    assert_eq!(square_degrees(&reversed), Some(3.0));
    let dented = polygon(&[(0.0, 0.0), (0.0, 4.0), (4.0, 4.0), (1.0, 2.0)]);
    assert_eq!(square_degrees(&dented), Some(6.0));
    assert_eq!(overlap_outlines(&dented, &open), None);
    assert_eq!(square_degrees(&polygon(&[(0.0, 0.0), (1.0, 1.0)])), None);
    let far = WarningPolygon {
        raw: String::new(),
        points: vec![
            WarningPoint { lat: 0, lon: 0 },
            WarningPoint { lat: i32::MAX, lon: 0 },
            WarningPoint { lat: i32::MAX, lon: i32::MIN },
        ],
    };
    let area = i128::from(i32::MAX) * -i128::from(i32::MIN);
    assert_eq!(warning_polygon_area_square_degrees(&far), Some(area));
}

#[test]
fn spans_end_at_the_cancellation() {
    let mut record = test_record(
        "a",
        "e",
        "2026-04-21T16:00:00Z",
        "2026-04-21T17:00:00Z",
        square_polygon(0.0, 0.0, 1.0, 1.0),
    );
    record.canceled_at = Some("2026-04-21T16:10:00Z".to_owned());
    assert_eq!(nwws_rs::warning_interval_duration_seconds(&record), Some(600));
    record.canceled_at = Some("2026-04-21T15:00:00Z".to_owned());
    assert_eq!(nwws_rs::warning_interval_duration_seconds(&record), None);
    record.canceled_at = None;
    record.valid_start = Some("2026-04-21T11:30:00-04:30".to_owned());
    assert_eq!(nwws_rs::warning_interval_duration_seconds(&record), Some(3600));
}

// ---------------------------------------------------------------------------
// Live capture
// ---------------------------------------------------------------------------

#[test]
fn live_messages_are_archived_once() {
    let mut service = service("archive");
    let message = NwwsOiMessage::parse(&wrapped(TORNADO)).unwrap();
    let (plan, issue) = archive_live_oi_message(&mut service, &message, at(NOON)).unwrap();
    assert_eq!(issue, "2026-04-21T16:00:00Z");
    assert_eq!(plan.writes.len(), 1);
    let report = oi_archive_message_report(
        1,
        message.payload.as_ref().unwrap(),
        issue,
        &plan.writes,
    );
    assert_eq!(report.wrapper_id, "41001.17");
    assert_eq!(report.archived_records, 1);
    assert_eq!(report.duplicate_records, 0);
    assert_eq!(report.records[0].family, "tornado");

    let (again, _) = archive_live_oi_message(&mut service, &message, at(NOON)).unwrap();
    assert!(again.writes.is_empty());

    let empty = NwwsOiMessage::parse("<message/>").unwrap();
    assert_eq!(
        archive_live_oi_message(&mut service, &empty, at(NOON)),
        Err(LiveError::Message(OiArchiveError::MissingPayload))
    );
}

#[test]
fn captures_stop_at_their_limits() {
    let mut capture = Capture::new(2);
    assert!(capture.wants_message());
    capture.apply(CaptureEvent::BeforeRead { time_is_up: false });
    capture.apply(CaptureEvent::MessageRead);
    capture.apply(CaptureEvent::ArchiveFailed("broken".to_owned()));
    assert_eq!(capture.failures, 1);
    capture.apply(CaptureEvent::MessageRead);
    assert!(!capture.wants_message());
    capture.finish();
    assert_eq!(capture.limit_reached, Some(CaptureLimit::MaxMessages));
    assert_eq!(capture.messages_read, 2);

    let mut timed = Capture::new(5);
    timed.apply(CaptureEvent::BeforeRead { time_is_up: true });
    assert!(!timed.wants_message());
    timed.finish();
    assert_eq!(timed.limit_reached, Some(CaptureLimit::Duration));

    let mut lost = Capture::new(5);
    lost.apply(CaptureEvent::ReadFailed("closed".to_owned()));
    assert!(!lost.wants_message());
    assert_eq!(lost.errors.len(), 1);
}

#[test]
fn live_products_show_what_was_archived() {
    let mut service = service("archive");
    let message = NwwsOiMessage::parse(&wrapped(TORNADO)).unwrap();
    let payload = message.payload.as_ref().unwrap();
    let (plan, _) = archive_live_oi_message(&mut service, &message, at(NOON)).unwrap();
    let product = LiveProduct::from_payload(payload, false, &plan.writes);
    assert_eq!(product.fingerprint.as_deref(), Some(plan.record.fingerprint.as_str()));
    assert_eq!(product.cccc, "KLOT");
    assert_eq!(product.issue.as_deref(), Some("2026-04-21T16:00:00Z"));
    assert_eq!(product.raw_bulletin, payload.raw_bulletin);
    let tornado = StreamFilter {
        family: Some("TORNADO".to_owned()),
        ..StreamFilter::default()
    };
    assert!(tornado.matches(&product));

    let repeated = LiveProduct::from_payload(payload, true, &Vec::new());
    assert!(repeated.duplicate);
    assert_eq!(repeated.fingerprint, None);
    assert!(!tornado.matches(&repeated));
}

#[test]
fn scan_counts_are_in_order() {
    let capture = framed(STATEMENT);
    let xml = wrapped(TORNADO);
    let mut report = ScanReport::new("root".to_owned());
    for (name, hint, text) in [
        ("c.pid201", IngestHint::SatellitePid201, capture.as_str()),
        ("b.txt", IngestHint::RawBulletin, TORNADO),
        ("a.xml", IngestHint::OpenInterface, xml.as_str()),
        ("d.txt", IngestHint::RawBulletin, STATEMENT),
    ] {
        report.add_input(name.to_owned(), name, hint, text.as_bytes());
    }
    let kinds = report.counts.iter().map(|count| count.input_kind).collect::<Vec<_>>();
    assert_eq!(
        kinds,
        vec![InputKind::OpenInterface, InputKind::Bulletin, InputKind::FramedStream]
    );
    assert_eq!(report.counts[1].files, 2);
    assert_eq!(report.counts[1].messages, 2);
    assert_eq!(report.messages, 4);
    report.add_failure("e.txt".to_owned(), "unreadable".to_owned());
    assert_eq!(report.parsed_files + report.failures, report.scanned_files);
    assert_eq!(report.counts.iter().map(|count| count.files).sum::<usize>(), report.parsed_files);
    assert_eq!(report.counts.iter().map(|count| count.messages).sum::<usize>(), report.messages);
    assert_eq!(total(&report.families), report.messages);
}

// ---------------------------------------------------------------------------
// Broken input
// ---------------------------------------------------------------------------

#[test]
fn every_parse_error_has_its_input() {
    let kind = |bytes: &[u8]| WmoMessage::parse(bytes).unwrap_err().kind;
    assert_eq!(kind(b"\xff"), ErrorKind::InvalidUtf8);
    assert_eq!(kind(b""), ErrorKind::InvalidField(Field::Heading));
    assert_eq!(kind(b"000\nnot a heading\n"), ErrorKind::InvalidField(Field::Heading));
    assert!(matches!(kind(b"\x01\r\r\n000"), ErrorKind::UnexpectedEof(Field::Frame)));

    let bad = TORNADO.replace("ILC031-043-197-211630-", "ILC031-0X3-197-211630-");
    assert!(content(&bad).product.segments.is_empty());
    let bad = TORNADO.replace("LAT...LON 4215 8850", "LAT...LON 4215 88X0");
    assert_eq!(
        NwwsContent::parse_bulletin(bad.as_bytes()).unwrap_err().kind,
        ErrorKind::InvalidField(Field::LatLon)
    );
    let bad = TORNADO.replace("265DEG", "26XDEG");
    assert_eq!(
        NwwsContent::parse_bulletin(bad.as_bytes()).unwrap_err().kind,
        ErrorKind::InvalidField(Field::TimeMotLoc)
    );
}

#[test]
fn broken_stanzas_are_refused() {
    let kind = |text: &str| NwwsOiMessage::parse(text).unwrap_err().kind;
    assert_eq!(kind("<message><body>"), ErrorKind::UnexpectedEof(Field::OiMessage));
    assert_eq!(kind("no stanza"), ErrorKind::InvalidField(Field::OiMessage));
    let good = wrapped(TORNADO);
    assert_eq!(
        kind(&good.replace(" cccc='KLOT'", "")),
        ErrorKind::MissingField(Field::OiAttribute)
    );
    assert_eq!(
        kind(&good.replace("41001.17", "41001")),
        ErrorKind::InvalidField(Field::OiAttribute)
    );
    assert_eq!(
        kind(&good.replace("2026-04-21T16:00:00Z' awipsid", "today' awipsid")),
        ErrorKind::InvalidField(Field::OiAttribute)
    );
    let empty = NwwsOiMessage::parse("<message/>").unwrap();
    assert_eq!(
        NwwsContent::from_oi_message(&empty).unwrap_err().kind,
        ErrorKind::MissingField(Field::OiPayload)
    );
    let marked = good.replace("Tornado Warning", "Tornado &#87;arning &#x26; more");
    let message = NwwsOiMessage::parse(&marked).unwrap();
    assert!(message.payload.unwrap().raw_bulletin.contains("Tornado Warning & more"));
}
