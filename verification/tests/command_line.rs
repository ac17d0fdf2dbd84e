use nwws_rs::commands::{parse_invocation, CommandKind};
use nwws_rs::options::{parse_hint_value, parse_output_format, CliError, OutputFormat, USAGE};
use nwws_rs::commands::Invocation;
use nwws_rs::IngestHint;

fn invoke(args: &[&str]) -> Result<Invocation, CliError> {
    let args = args.iter().map(|arg| arg.to_string()).collect::<Vec<_>>();
    let finite = args
        .iter()
        .map(|arg| arg.parse::<f32>().is_ok_and(f32::is_finite))
        .collect::<Vec<_>>();
    parse_invocation(&args, &finite)
}

#[test]
fn parses_hint_aliases() {
    assert_eq!(parse_hint_value("oi").unwrap(), IngestHint::OpenInterface);
    assert_eq!(
        parse_hint_value("pid201").unwrap(),
        IngestHint::SatellitePid201
    );
    assert_eq!(parse_hint_value("wmo").unwrap(), IngestHint::RawBulletin);
    assert_eq!(
        parse_hint_value("framed-stream").unwrap(),
        IngestHint::FramedStream
    );
}

#[test]
fn help_mentions_pid201_and_archive_commands() {
    assert_eq!(invoke(&["--help"]).unwrap().kind, CommandKind::Help);
    assert!(USAGE.contains("pid201 split"));
    assert!(USAGE.contains("active-at"));
    assert!(USAGE.contains("archive import"));
    assert!(USAGE.contains("archive verify"));
    assert!(USAGE.contains("--format <text|json|jsonl|tool-result>"));
}

#[test]
fn unknown_words_are_usage_errors() {
    assert_eq!(invoke(&["frobnicate"]).unwrap_err().exit_code, 2);
    assert_eq!(parse_hint_value("fax").unwrap_err().exit_code, 2);
    assert_eq!(parse_output_format("xml").unwrap_err().exit_code, 2);
    assert_eq!(invoke(&["inspect"]).unwrap_err().exit_code, 2);
    assert_eq!(invoke(&["inspect", "a.txt", "--nonsense"]).unwrap_err().exit_code, 2);
    assert_eq!(invoke(&["inspect", "a.txt", "--format"]).unwrap_err().exit_code, 2);
    assert_eq!(invoke(&["archive"]).unwrap_err().exit_code, 2);
    assert_eq!(invoke(&["archive", "import", "a"]).unwrap_err().exit_code, 2);
    assert_eq!(CliError::failure("x".to_owned()).exit_code, 1);
}

#[test]
fn options_are_read_in_any_order() {
    let call = invoke(&["inspect", "a.txt", "--format", "json", "--hint", "wmo"]).unwrap();
    assert_eq!(call.kind, CommandKind::Inspect);
    assert_eq!(call.operand, 1);
    assert_eq!(call.options.output, OutputFormat::Json);
    assert_eq!(call.options.hint, Some(IngestHint::RawBulletin));

    let call = invoke(&["archive", "active-at", "dir", "--at", "2026-04-21T16:25:00Z"]).unwrap();
    assert_eq!(call.kind, CommandKind::ArchiveActiveAt);
    assert_eq!(call.operand, 2);
    assert_eq!(call.options.at.as_deref(), Some("2026-04-21T16:25:00Z"));
    assert_eq!(call.options.output, OutputFormat::Text);
}

#[test]
fn lead_time_needs_time_and_place() {
    let call = invoke(&[
        "lead-time",
        "dir",
        "--event-at",
        "2026-04-21T16:20:00Z",
        "--lat",
        "42.05",
        "--lon",
        "-88.2",
        "--tool-result",
    ])
    .unwrap();
    assert_eq!(call.kind, CommandKind::LeadTime);
    assert_eq!(call.options.lat.as_deref(), Some("42.05"));
    assert_eq!(call.options.lon.as_deref(), Some("-88.2"));
    assert_eq!(call.options.output, OutputFormat::ToolResult);

    assert!(invoke(&["lead-time", "dir", "--lat", "42.05", "--lon", "-88.2"]).is_err());
    assert!(invoke(&["lead-time", "dir", "--event-at", "x", "--lat", "inf", "--lon", "1"]).is_err());
    assert!(invoke(&["active-at", "dir"]).is_err());
}

#[test]
fn live_options_have_defaults() {
    let call = invoke(&["oi", "connect", "user", "pass", "--count", "5"]).unwrap();
    assert_eq!(call.kind, CommandKind::OiConnect);
    assert_eq!(call.session.count, 5);
    assert_eq!(call.session.host, None);

    let call = invoke(&[
        "oi", "archive", "user", "pass", "dir", "--duration", "60", "--room", "r", "--archive-duplicates",
    ])
    .unwrap();
    assert_eq!(call.kind, CommandKind::OiArchive);
    assert_eq!(call.session.duration_seconds, Some(60));
    assert_eq!(call.session.room.as_deref(), Some("r"));
    assert!(call.session.archive_duplicates);
    assert!(invoke(&["oi", "connect", "user", "pass", "--count", "many"]).is_err());
    assert!(invoke(&["oi", "connect", "user", "pass", "--port", "70000"]).is_err());
}
