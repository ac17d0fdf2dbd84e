use std::cmp::Ordering;
use std::path::Path;

use nwws_rs::clock::{
    civil_instant, date_of, date_of_julian, julian_day_of, write_date, write_opt,
};
use nwws_rs::header::{AwipsId, WmoHeading};
use nwws_rs::issue_time::infer_wmo_issue_time;
use nwws_rs::lead_time::lead_time_event_metric_limitations;
use nwws_rs::lines::to_lf_text;
use nwws_rs::metrics::{parse_reference_utc, ReferenceError};
use nwws_rs::number::{is_float_literal, to_decimal, to_hex, to_padded};
use nwws_rs::path_order::{order_paths, PathOrder};
use nwws_rs::paths::{sanitize_component, sanitize_path_segment, sanitize_tsv_field};
use nwws_rs::report::{tool_evidence, tool_limitations, yes_no, MetricParts, Operation, ResultParts};
use nwws_rs::tally::{comes_before, Tally};
use nwws_rs::text::{to_chars, to_text, white};
use nwws_rs::ugc::expand_ugc_codes;
use nwws_rs::xml::{escape_xml_attr, escape_xml_text, unescape_text};
use nwws_rs::{
    EventClass, Hvtec, LatLonBlock, Phenomenon, Pvtec, Significance, TimeMotLoc, UgcString,
    VtecAction,
};

fn chars(text: &str) -> Vec<char> {
    to_chars(text)
}

#[test]
fn sanitize_component_replaces_path_breakers() {
    assert_eq!(sanitize_component("TOR/LOT"), "TOR_LOT");
}

#[test]
fn components_are_never_empty_and_stay_as_they_are() {
    assert_eq!(sanitize_component(""), "UNKNOWN");
    for raw in ["TORLOT", "a b\\c", "../..", ""] {
        let once = sanitize_component(raw);
        assert_eq!(sanitize_component(&once), once);
        assert!(!once.contains('/'));
        assert!(!once.is_empty());
    }
    assert!(!sanitize_path_segment("a/b").contains('/'));
    assert_eq!(sanitize_tsv_field("a\tb\r\nc"), "a b  c");
}

#[test]
fn white_space_is_that_of_the_standard_library() {
    for code in 0..=0x10FFFFu32 {
        if let Some(c) = char::from_u32(code) {
            assert_eq!(white(c), c.is_whitespace(), "{code:x}");
        }
    }
}

#[test]
fn text_comes_back() {
    let text = "A\u{e9}\u{4e16}\u{1f600}\r\n";
    assert_eq!(to_text(&to_chars(text)), text);
    assert_eq!(to_text(&to_lf_text(&to_chars("a\r\r\nb\r\nc\rd\n"))), "a\nb\nc\rd\n");
}

#[test]
fn numbers_are_written() {
    assert_eq!(to_text(&to_decimal(0)), "0");
    assert_eq!(to_text(&to_decimal(u64::MAX)), u64::MAX.to_string());
    assert_eq!(to_text(&to_padded(42, 6)), "000042");
    assert_eq!(to_text(&to_hex(0xcbf29ce484222325, 16)), "cbf29ce484222325");
    for (text, expected) in [
        ("1.75", true),
        (".75", true),
        ("5.", true),
        ("-1e3", true),
        ("inf", true),
        ("NaN", true),
        ("", false),
        (".", false),
        ("1e", false),
        ("1,5", false),
        ("0x1", false),
    ] {
        assert_eq!(is_float_literal(&chars(text)), expected, "{text}");
        assert_eq!(text.parse::<f32>().is_ok(), expected, "{text}");
    }
}

#[test]
fn dates_are_those_of_the_calendar() {
    assert_eq!(civil_instant(1970, 1, 1, 0, 0), Some(0));
    assert_eq!(civil_instant(2026, 4, 21, 16, 0), parse_reference_utc("2026-04-21T16:00:00Z").ok());
    assert_eq!(civil_instant(2024, 2, 29, 0, 0), parse_reference_utc("2024-02-29T00:00:00Z").ok());
    assert_eq!(civil_instant(2023, 2, 29, 0, 0), None);
    assert_eq!(civil_instant(2024, 13, 1, 0, 0), None);
    assert_eq!(civil_instant(2024, 1, 1, 24, 0), None);
    let instant = parse_reference_utc("1999-12-31T23:59:59Z").unwrap();
    assert_eq!(date_of(instant), (1999, 12, 31));
    assert_eq!(date_of(-1), (1969, 12, 31));
    assert_eq!(date_of_julian(julian_day_of(instant)), (1999, 12, 31));
    assert_eq!(julian_day_of(0), 2_440_588);
    assert_eq!(write_date(instant, "/"), "1999/12/31");
}

#[test]
fn times_are_written_in_utc() {
    let instant = parse_reference_utc("2026-04-21T16:00:00.250+02:00").ok();
    assert_eq!(write_opt(instant).as_deref(), Some("2026-04-21T14:00:00.25Z"));
    assert_eq!(write_opt(None), None);
    assert_eq!(write_opt(Some(i128::MAX)), None);
    for text in ["2026-04-21", "2026-02-30T00:00:00Z"] {
        let reason = time::OffsetDateTime::parse(text, &time::format_description::well_known::Rfc3339)
            .unwrap_err()
            .to_string();
        let error = parse_reference_utc(text).unwrap_err();
        assert_eq!(error, ReferenceError::Unreadable(reason.clone()));
        assert_eq!(error.message(), reason);
    }
    let late = parse_reference_utc("9999-12-31T23:00:00-05:00").unwrap_err();
    assert_eq!(late, ReferenceError::OutOfRange);
    assert_eq!(late.message(), "time lies outside the dates that can be represented");
}

#[test]
fn issue_times_are_the_nearest_to_the_reference() {
    let reference = parse_reference_utc("2026-03-01T00:10:00Z").unwrap();
    assert_eq!(
        infer_wmo_issue_time("282350", reference),
        parse_reference_utc("2026-02-28T23:50:00Z").ok()
    );
    assert_eq!(
        infer_wmo_issue_time("010005", reference),
        parse_reference_utc("2026-03-01T00:05:00Z").ok()
    );
    assert_eq!(infer_wmo_issue_time("3x0005", reference), None);
    assert_eq!(infer_wmo_issue_time("010060", reference), None);
}

#[test]
fn headings_are_strict() {
    let heading = WmoHeading::parse(&chars("WUUS53 KLOT 211600 AAA")).unwrap();
    assert_eq!(heading.ttaaii(), "WUUS53");
    assert_eq!(heading.cccc(), "KLOT");
    assert_eq!(heading.yygggg(), "211600");
    assert_eq!(heading.bbb().as_deref(), Some("AAA"));
    for bad in ["WUUS53 KLOT", "WUUS5 KLOT 211600", "WUUS53 KLOTX 211600", "WUUS53 KLOT 321600"] {
        assert!(WmoHeading::parse(&chars(bad)).is_err(), "{bad}");
    }
    assert_eq!(AwipsId::parse(&chars("TORLOT")).unwrap().raw(), "TORLOT");
    assert!(AwipsId::parse(&chars("Tornado Warning")).is_none());
}

#[test]
fn vtec_lines_are_read() {
    let line = "/O.NEW.KLOT.TO.W.0001.260421T1600Z-260421T1630Z/";
    let pvtec = Pvtec::parse(&chars(line)).unwrap();
    assert_eq!(pvtec.raw(), line);
    assert_eq!(pvtec.event_class(), EventClass::Operational);
    assert_eq!(pvtec.action(), VtecAction::New);
    assert_eq!(pvtec.office_id(), "KLOT");
    assert_eq!(pvtec.phenomenon(), Phenomenon::Tornado);
    assert_eq!(pvtec.significance(), Significance::Warning);
    assert_eq!(pvtec.event_tracking_number(), 1);
    assert_eq!(pvtec.start_time().datetime(), parse_reference_utc("2026-04-21T16:00:00Z").ok());
    assert_eq!(pvtec.end_time().datetime(), parse_reference_utc("2026-04-21T16:30:00Z").ok());

    let open = Pvtec::parse(&chars("/T.CON.KLOT.XX.A.0012.000000T0000Z-260421T1630Z/")).unwrap();
    assert_eq!(open.start_time().datetime(), None);
    assert_eq!(open.phenomenon(), Phenomenon::Other('X', 'X'));
    for bad in [
        "O.NEW.KLOT.TO.W.0001.260421T1600Z-260421T1630Z",
        "/O.NEW.KLOT.TO.W.0001.260421T1600Z/",
        "/O.ZZZ.KLOT.TO.W.0001.260421T1600Z-260421T1630Z/",
        "/O.NEW.KLOT.TO.W.001.260421T1600Z-260421T1630Z/",
        "/O.NEW.KLOT.TO.W.0001.260431T1600Z-260421T1630Z/",
    ] {
        assert!(Pvtec::parse(&chars(bad)).is_err(), "{bad}");
    }
    assert!(Hvtec::parse(&chars(
        "/MSRI2.2.ER.260421T1600Z.260421T1800Z.260422T0000Z.NO/"
    ))
    .is_ok());
    assert!(Hvtec::parse(&chars("/nonsense/")).is_err());
}

#[test]
fn ugc_ranges_are_expanded() {
    let ugc = UgcString::parse(&chars("ILC001-003>005-INZ010-211630-")).unwrap();
    assert_eq!(
        expand_ugc_codes(&ugc),
        vec!["ILC001", "ILC003", "ILC004", "ILC005", "INZ010"]
    );
    assert_eq!(ugc.purge_time().to_text(), "211630");
    for bad in ["ILC001-", "ILC001-211630", "IL001-211630-", "ILC005>003-211630-", "ILC001-322400-"] {
        assert!(UgcString::parse(&chars(bad)).is_err(), "{bad}");
    }
}

#[test]
fn geometry_is_read() {
    let block = LatLonBlock::parse(&chars("LAT...LON 4215 8850 4221 8823 4213 8800")).unwrap();
    assert_eq!(block.points().len(), 3);
    assert_eq!(block.points()[0].latitude, 4215);
    assert_eq!(block.points()[2].longitude, 8800);
    assert!(LatLonBlock::parse(&chars("LAT...LON 4215 8850 4221")).is_err());

    let line = TimeMotLoc::parse(&chars("TIME...MOT...LOC 1605Z 265DEG 30KT 4205 8840")).unwrap();
    assert_eq!((line.hour(), line.minute()), (16, 5));
    assert_eq!(line.direction_degrees(), 265);
    assert_eq!(line.speed_knots(), 30);
    assert_eq!(line.locations().len(), 1);
    assert!(TimeMotLoc::parse(&chars("TIME...MOT...LOC 2460Z 265DEG 30KT 4205 8840")).is_err());
}

#[test]
fn escapes_are_undone() {
    let text = "a & b < c > \"d\" 'e'\r\n\t\u{e9}";
    let attr = escape_xml_attr(text);
    assert!(!attr.contains('<'));
    assert!(!attr.contains('"'));
    assert_eq!(unescape_text(&chars(&attr)).map(|text| to_text(&text)).as_deref(), Some(text));
    let body = escape_xml_text(text);
    assert_eq!(unescape_text(&chars(&body)).map(|text| to_text(&text)).as_deref(), Some(text));
    assert_eq!(
        unescape_text(&chars("&#65;&#x42;&apos;")).map(|text| to_text(&text)).as_deref(),
        Some("AB'")
    );
    assert!(unescape_text(&chars("&unknown;")).is_none());
}

#[test]
fn tallies_count_in_order_of_name() {
    let mut tally = Tally::new();
    for name in ["tornado", "flood", "tornado", "Flood"] {
        tally.bump(name);
    }
    let names = tally.entries().iter().map(|entry| entry.name.as_str()).collect::<Vec<_>>();
    assert_eq!(names, vec!["Flood", "flood", "tornado"]);
    assert_eq!(tally.count("tornado"), 2);
    assert_eq!(tally.count("marine"), 0);
    for (a, b) in [("", "a"), ("a", "b"), ("a", "aa"), ("Z", "a"), ("e", "\u{e9}")] {
        assert_eq!(comes_before(a, b), a < b);
        assert_eq!(comes_before(b, a), b < a);
        assert!(!comes_before(a, a));
    }
}

#[test]
fn paths_are_ordered_by_their_components() {
    let paths = [
        "", ".", "..", "/", "//", "a", "/a", "a/", "./a", "a/.", "a/./b", "a/../b", "a/b", "a//b",
        "a-b", "a-b/c", "a.txt", "A", "a/b/c", "\u{e9}/a", "../a", "/..", "/./a", "...", "./.",
    ];
    for a in paths {
        for b in paths {
            let expected = match Path::new(a).cmp(Path::new(b)) {
                Ordering::Less => PathOrder::Before,
                Ordering::Equal => PathOrder::Same,
                Ordering::Greater => PathOrder::After,
            };
            assert_eq!(order_paths(a, b), expected, "{a:?} {b:?}");
        }
    }
}

#[test]
fn results_come_with_evidence_and_limits() {
    let none = ResultParts {
        messages_read: None,
        archived_records: None,
        active_records: None,
        warning_records: None,
        metrics: None,
        messages: None,
        scanned_files: None,
        records: None,
    };
    assert!(!tool_evidence(none).is_empty());

    let evidence = tool_evidence(ResultParts { active_records: Some(2), ..none });
    assert_eq!(evidence[0].evidence_type, "active_warning_records");
    assert_eq!(evidence[0].summary, "Returned 2 active warning record(s).");
    assert_eq!(evidence[0].count, Some(2));

    let evidence = tool_evidence(ResultParts {
        warning_records: Some(3),
        metrics: Some(MetricParts { lead_time_seconds: Some(1200), missed_event: false }),
        ..none
    });
    assert_eq!(evidence[1].evidence_type, "warning_lead_time_metrics");
    assert_eq!(evidence[1].summary, "Computed warning lead time of 1200 second(s).");

    assert_eq!(Operation::ArchiveVerify.tool_name(), "warning.archive_verify");
    assert_eq!(Operation::ActiveAt.tool_name(), "warning.active_at_reference");
    assert_eq!(tool_limitations(Operation::Inspect).len(), 2);
    let lead_time = tool_limitations(Operation::LeadTime);
    assert_eq!(lead_time[..3], tool_limitations(Operation::Timeline)[..]);
    assert_eq!(lead_time[3..], lead_time_event_metric_limitations()[..]);
    assert_eq!(tool_limitations(Operation::OiArchive).len(), 3);
    assert_eq!(yes_no(true), "yes");
    assert_eq!(yes_no(false), "no");
}
