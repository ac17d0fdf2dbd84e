use nwws_rs::metrics::parse_reference_utc;
use nwws_rs::paths::sanitize_component;
use nwws_rs::serve::{
    day_dirs, family_from_stored, is_fingerprint, is_sidecar_file, lookback_days, newest,
    parse_reference, raw_sibling_names, recent_limit, scans_record, sidecar_matches, sidecar_name,
    vtec_relevant_family, IngestEvent, IngestStatus, LiveProduct, Sidecar, StreamFilter,
};
use nwws_rs::{family_slug, ProductFamily};

fn product(cccc: &str, awips: &str) -> LiveProduct {
    LiveProduct {
        fingerprint: None,
        duplicate: false,
        cccc: cccc.to_owned(),
        ttaaii: "WUUS53".to_owned(),
        awips_id: awips.to_owned(),
        issue: None,
        metadata: None,
        raw_bulletin: String::new(),
    }
}

fn now() -> i128 {
    parse_reference_utc("2026-06-10T12:00:00Z").unwrap()
}

#[test]
fn stream_filter_office_and_pil() {
    let filter = StreamFilter {
        office: Some("klot".to_owned()),
        pil: Some("tor".to_owned()),
        family: None,
    };
    assert!(filter.matches(&product("KLOT", "TORLOT")));
    assert!(!filter.matches(&product("KDMX", "TORDMX")));
    assert!(!filter.matches(&product("KLOT", "SVRLOT")));
}

#[test]
fn family_filter_requires_metadata() {
    let filter = StreamFilter {
        office: None,
        pil: None,
        family: Some("tornado".to_owned()),
    };
    assert!(!filter.matches(&product("KLOT", "TORLOT")));
}

#[test]
fn reference_parsing() {
    assert!(parse_reference(None, now()).is_ok());
    assert!(parse_reference(Some("now"), now()).is_ok());
    assert!(parse_reference(Some("2026-06-09T05:51:00Z"), now()).is_ok());
    assert!(parse_reference(Some("yesterday"), now()).is_err());
}

#[test]
fn references_default_to_now() {
    assert_eq!(parse_reference(None, now()).unwrap().nanos, now());
    assert_eq!(parse_reference(Some("now"), now()).unwrap().nanos, now());
    assert!(parse_reference(Some("NOW"), now()).is_err());
    let given = parse_reference(Some("2026-06-09T07:51:00+02:00"), now()).unwrap();
    assert_eq!(given.nanos, parse_reference_utc("2026-06-09T05:51:00Z").unwrap());
    assert_eq!(given.offset, 7200);
    for text in ["x", "2026-06-09", "2026-13-09T05:51:00Z"] {
        let reason = time::OffsetDateTime::parse(text, &time::format_description::well_known::Rfc3339)
            .unwrap_err();
        assert_eq!(
            parse_reference(Some(text), now()).unwrap_err().message(),
            format!("invalid 'at' (want RFC3339 UTC, e.g. 2026-06-09T05:51:00Z): {reason}")
        );
    }
}

#[test]
fn recent_products_lists_and_filters() {
    let sidecar = Sidecar {
        cccc: "KLOT".to_owned(),
        awips_id: "TORLOT".to_owned(),
        family: "Tornado".to_owned(),
    };
    let filter = |office: Option<&str>, pil: Option<&str>, family: Option<&str>| StreamFilter {
        office: office.map(str::to_owned),
        pil: pil.map(str::to_owned),
        family: family.map(str::to_owned),
    };
    assert!(sidecar_matches(&sidecar, &StreamFilter::default()));
    assert!(sidecar_matches(&sidecar, &filter(Some("klot"), Some("TOR"), None)));
    assert!(sidecar_matches(&sidecar, &filter(None, None, Some("tornado"))));
    assert!(!sidecar_matches(&sidecar, &filter(Some("KDMX"), None, None)));
    assert!(!sidecar_matches(&sidecar, &filter(None, None, Some("flood"))));
}

#[test]
fn newest_products_come_first() {
    let captured = [
        Some("2026-06-09T05:00:00Z"),
        None,
        Some("2026-06-09T05:00:00.5Z"),
        Some("2026-06-09T09:30:00+05:00"),
    ]
    .map(|time| time.map(str::to_owned))
    .to_vec();
    assert_eq!(newest(&captured, 10), vec![2, 0, 3, 1]);
    assert_eq!(newest(&captured, 2), vec![2, 0]);
    assert!(newest(&captured, 0).is_empty());
}

#[test]
fn windows_and_limits_are_bounded() {
    assert_eq!(lookback_days(None, 3), 3);
    assert_eq!(lookback_days(Some(0), 3), 1);
    assert_eq!(lookback_days(Some(500), 3), 92);
    assert_eq!(recent_limit(None), 100);
    assert_eq!(recent_limit(Some(0)), 1);
    assert_eq!(recent_limit(Some(5000)), 1000);

    let reference = parse_reference(Some("2026-03-01T05:00:00Z"), now()).unwrap();
    assert_eq!(day_dirs(reference, now(), 1), vec!["2026/03/01"]);
    let mut days = day_dirs(reference, now(), 2);
    days.sort();
    assert_eq!(days, vec!["2026/02/28", "2026/03/01", "2026/03/02"]);
    let today = parse_reference(None, now()).unwrap();
    assert!(!day_dirs(today, now(), 5).contains(&"2026/06/12".to_owned()));
}

#[test]
fn archive_layout_rules() {
    assert!(vtec_relevant_family("tornado"));
    assert!(!vtec_relevant_family("discussion"));
    assert!(is_sidecar_file(Some("json")));
    assert!(!is_sidecar_file(Some("txt")));
    assert!(!is_sidecar_file(None));
    assert!(!scans_record(Some("json"), "tornado", false));
    assert!(scans_record(Some("txt"), "tornado", false));
    assert!(!scans_record(Some("txt"), "discussion", false));
    assert!(scans_record(Some("txt"), "discussion", true));
    assert_eq!(sidecar_name("abc"), "abc.json");
    assert!(raw_sibling_names("abc").contains(&"abc.xml".to_owned()));
    assert!(is_fingerprint("00000000deadbeef"));
    assert!(!is_fingerprint(""));
    assert!(!is_fingerprint("../etc"));
    let hash = blake3::hash(b"x").to_hex();
    assert!(is_fingerprint(hash.as_str()));
}

#[test]
fn family_slugs_name_the_families() {
    assert_eq!(family_slug(ProductFamily::SevereThunderstorm), "severe_thunderstorm");
    assert_eq!(family_slug(ProductFamily::Unknown), "unknown");
    assert_eq!(family_from_stored("FlashFlood"), Some(ProductFamily::FlashFlood));
    assert_eq!(family_from_stored("nonsense"), None);

    let slugs = [
        ProductFamily::Tornado,
        ProductFamily::SevereThunderstorm,
        ProductFamily::FlashFlood,
        ProductFamily::Flood,
        ProductFamily::Marine,
        ProductFamily::Discussion,
        ProductFamily::Forecast,
        ProductFamily::Statement,
        ProductFamily::Hydrology,
        ProductFamily::Watch,
        ProductFamily::Advisory,
        ProductFamily::Administrative,
        ProductFamily::Unknown,
    ]
    .map(family_slug);
    let names = slugs.iter().collect::<std::collections::BTreeSet<_>>();
    assert_eq!(names.len(), slugs.len());
    assert!(slugs.iter().all(|slug| sanitize_component(slug) == *slug));
}

#[test]
fn status_counts_what_happened() {
    let mut status = IngestStatus::new();
    status.apply(&IngestEvent::Connected);
    assert!(status.connected);
    status.apply(&IngestEvent::MessageProcessed {
        duplicate: false,
        at: Some("2026-06-09T05:00:00Z".to_owned()),
    });
    status.apply(&IngestEvent::MessageProcessed { duplicate: true, at: None });
    status.apply(&IngestEvent::MessageSkipped);
    status.apply(&IngestEvent::IngestFailed("bad".to_owned()));
    assert_eq!(status.archived_records, 1);
    assert_eq!(status.duplicate_records, 1);
    assert_eq!(status.ingest_failures, 1);
    assert_eq!(status.last_error.as_deref(), Some("bad"));
    status.apply(&IngestEvent::StoreFailed("no space".to_owned()));
    assert_eq!(status.connect_failures, 0);
    assert_eq!(status.last_error.as_deref(), Some("failed to open dedupe store: no space"));
    status.apply(&IngestEvent::ConnectFailed("refused".to_owned()));
    assert_eq!(status.connect_failures, 1);
    status.apply(&IngestEvent::Disconnected(None));
    assert!(!status.connected);
}
