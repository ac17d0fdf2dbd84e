//! Command line options.

use vstd::prelude::*;

use crate::ingest::IngestHint;
use crate::number;
use crate::text;

verus! {

/// How the program is used.
pub const USAGE: &'static str = "usage:
  cargo run --bin nwws -- inspect <file> [--hint <auto|oi|pid201|bulletin|stream>] [--format <text|json|jsonl|tool-result>]
  cargo run --bin nwws -- replay <directory> [--hint <auto|oi|pid201|bulletin|stream>] [--format <text|json|jsonl|tool-result>]
  cargo run --bin nwws -- active-at <file-or-directory-or-archive> --at <utc-rfc3339> [--hint <auto|oi|pid201|bulletin|stream>] [--format <text|json|jsonl|tool-result>]
  cargo run --bin nwws -- timeline <file-or-directory-or-archive> [--at <utc-rfc3339>] [--hint <auto|oi|pid201|bulletin|stream>] [--format <text|json|jsonl|tool-result>]
  cargo run --bin nwws -- lead-time <file-or-directory-or-archive> --event-at <utc-rfc3339> --lat <degrees> --lon <degrees> [--hint <auto|oi|pid201|bulletin|stream>] [--format <text|json|jsonl|tool-result>]
  cargo run --bin nwws -- summary <file-or-directory> [--hint <auto|oi|pid201|bulletin|stream>]
  cargo run --bin nwws -- oi connect <username> <password> [--count <n>] [--history <n>]
  cargo run --bin nwws -- oi archive <username> <password> <archive-dir> [--count <n>] [--duration <seconds>] [--history <n>] [--format <text|json|jsonl|tool-result>]
  cargo run --bin nwws -- pid201 inspect <capture-file> [--format <text|json|jsonl|tool-result>]
  cargo run --bin nwws -- pid201 split <capture-file> <output-dir>
  cargo run --bin nwws -- pid201 archive <capture-file> <archive-dir> [--format <text|json|jsonl|tool-result>]
  cargo run --bin nwws -- archive import <input-path> <archive-dir> [--hint <auto|oi|pid201|bulletin|stream>] [--format <text|json|jsonl|tool-result>]
  cargo run --bin nwws -- archive verify <archive-dir> [--format <text|json|jsonl|tool-result>]
  cargo run --bin nwws -- archive active-at <archive-dir> --at <utc-rfc3339> [--format <text|json|jsonl|tool-result>]
  cargo run --bin nwws -- archive timeline <archive-dir> [--at <utc-rfc3339>] [--format <text|json|jsonl|tool-result>]
  cargo run --bin nwws -- archive lead-time <archive-dir> --event-at <utc-rfc3339> --lat <degrees> --lon <degrees> [--format <text|json|jsonl|tool-result>]

commands:
  inspect          parse one file and print detailed NWWS metadata
  replay           walk a directory and print one line per parsed file
  active-at        return warning VTEC records active at a reference UTC
  timeline         return warning lifecycle/timeline records from warning P-VTEC
  lead-time        compute point-event warning lead-time metrics from timeline records
  summary          aggregate detected source, transport, and family counts
  oi connect       open a blocking NWWS-OI XMPP session and print parsed messages
  oi archive       open a bounded NWWS-OI XMPP session and ingest messages into ArchiveStore
  pid201 inspect   force a file through the PID201 framed-stream path
  pid201 split     split a PID201 capture into canonical bulletin files
  pid201 archive   archive a PID201 capture into a deduplicated record store
  archive import   ingest mixed NWWS inputs into a deduplicated record store
  archive verify   re-parse archived records and validate the stored digests
  archive active-at query archived warning records active at a reference UTC
  archive timeline query archived warning lifecycle/timeline records
  archive lead-time compute warning lead-time metrics from an archive

notes:
  Machine-readable modes are available with --format json, --format jsonl, or --format tool-result.
  The CLI supports both archived NWWS-OI XML inspection and live `oi connect` session workflows.";

/// Why a command ends without success, and with which exit code.
#[derive(Debug, Clone, PartialEq, Eq)]
pub struct CliError {
    pub exit_code: i32,
    pub message: String,
}

impl CliError {
    /// An error in how the program was called.
    pub fn usage(message: String) -> (r: CliError)
        ensures
            r.exit_code == 2,
            r.message@ == message@,
    {
        CliError { exit_code: 2, message }
    }

    /// A command that failed.
    pub fn failure(message: String) -> (r: CliError)
        ensures
            r.exit_code == 1,
            r.message@ == message@,
    {
        CliError { exit_code: 1, message }
    }
}

/// A message followed by how the program is used.
pub open spec fn with_usage(text: Seq<char>) -> Seq<char> {
    text + "\n\n"@ + USAGE@
}

/// The error of a call with a wrong argument.
pub fn usage_error(text: &[char]) -> (r: CliError)
    ensures
        r.exit_code == 2,
        r.message@ == with_usage(text@),
{
    let mut v = text::copy_chars(text);
    text::push_str(&mut v, "\n\n");
    text::push_str(&mut v, USAGE);
    CliError::usage(text::to_text(v.as_slice()))
}

/// How results are written.
#[derive(Debug, Clone, Copy, PartialEq, Eq, Structural)]
pub enum OutputFormat {
    Text,
    Json,
    Jsonl,
    ToolResult,
}

/// The format of a name, in either case.
pub open spec fn output_format(raw: Seq<char>) -> Option<OutputFormat> {
    let s = text::lower(raw);
    if s == "text"@ {
        Some(OutputFormat::Text)
    } else if s == "json"@ {
        Some(OutputFormat::Json)
    } else if s == "jsonl"@ || s == "json-lines"@ || s == "ndjson"@ {
        Some(OutputFormat::Jsonl)
    } else if s == "tool-result"@ || s == "tool_result"@ || s == "wx.tool_result.v1"@ {
        Some(OutputFormat::ToolResult)
    } else {
        None
    }
}

/// The hint of a name, in either case.
pub open spec fn hint_of(raw: Seq<char>) -> Option<IngestHint> {
    let s = text::lower(raw);
    if s == "auto"@ {
        Some(IngestHint::Auto)
    } else if s == "oi"@ || s == "open-interface"@ || s == "openinterface"@ || s == "xmpp"@ {
        Some(IngestHint::OpenInterface)
    } else if s == "pid201"@ || s == "satellite"@ || s == "sat"@ {
        Some(IngestHint::SatellitePid201)
    } else if s == "bulletin"@ || s == "raw"@ || s == "wmo"@ {
        Some(IngestHint::RawBulletin)
    } else if s == "stream"@ || s == "framed-stream"@ || s == "framed"@ {
        Some(IngestHint::FramedStream)
    } else {
        None
    }
}

fn read_output_format(raw: &str) -> (r: Option<OutputFormat>)
    ensures
        r == output_format(raw@),
{
    let chars = text::to_chars(raw);
    let lower = text::to_lower(chars.as_slice());
    let s = lower.as_slice();
    if text::is_str(s, "text") {
        Some(OutputFormat::Text)
    } else if text::is_str(s, "json") {
        Some(OutputFormat::Json)
    } else if text::is_str(s, "jsonl") || text::is_str(s, "json-lines") || text::is_str(
        s,
        "ndjson",
    ) {
        Some(OutputFormat::Jsonl)
    } else if text::is_str(s, "tool-result") || text::is_str(s, "tool_result") || text::is_str(
        s,
        "wx.tool_result.v1",
    ) {
        Some(OutputFormat::ToolResult)
    } else {
        None
    }
}

fn read_hint(raw: &str) -> (r: Option<IngestHint>)
    ensures
        r == hint_of(raw@),
{
    let chars = text::to_chars(raw);
    let lower = text::to_lower(chars.as_slice());
    let s = lower.as_slice();
    if text::is_str(s, "auto") {
        Some(IngestHint::Auto)
    } else if text::is_str(s, "oi") || text::is_str(s, "open-interface") || text::is_str(
        s,
        "openinterface",
    ) || text::is_str(s, "xmpp") {
        Some(IngestHint::OpenInterface)
    } else if text::is_str(s, "pid201") || text::is_str(s, "satellite") || text::is_str(s, "sat") {
        Some(IngestHint::SatellitePid201)
    } else if text::is_str(s, "bulletin") || text::is_str(s, "raw") || text::is_str(s, "wmo") {
        Some(IngestHint::RawBulletin)
    } else if text::is_str(s, "stream") || text::is_str(s, "framed-stream") || text::is_str(
        s,
        "framed",
    ) {
        Some(IngestHint::FramedStream)
    } else {
        None
    }
}

/// The outcome of reading an argument: the value, or what is wrong with it.
pub open spec fn read_or<T>(r: Result<T, CliError>) -> Result<T, Seq<char>> {
    match r {
        Ok(v) => Ok(v),
        Err(e) => Err(e.message@),
    }
}

/// The hint of a name.
pub fn parse_hint_value(raw: &str) -> (r: Result<IngestHint, CliError>)
    ensures
        read_or(r) == (match hint_of(raw@) {
            Some(h) => Ok::<IngestHint, Seq<char>>(h),
            None => Err::<IngestHint, Seq<char>>(with_usage("unknown hint "@ + raw@)),
        }),
        r matches Err(e) ==> e.exit_code == 2,
{
    match read_hint(raw) {
        Some(h) => Ok(h),
        None => {
            let mut v = text::to_chars("unknown hint ");
            text::push_str(&mut v, raw);
            Err(usage_error(v.as_slice()))
        },
    }
}

/// The format of a name.
pub fn parse_output_format(raw: &str) -> (r: Result<OutputFormat, CliError>)
    ensures
        read_or(r) == (match output_format(raw@) {
            Some(f) => Ok::<OutputFormat, Seq<char>>(f),
            None => Err::<OutputFormat, Seq<char>>(with_usage("unknown output format "@ + raw@)),
        }),
        r matches Err(e) ==> e.exit_code == 2,
{
    match read_output_format(raw) {
        Some(f) => Ok(f),
        None => {
            let mut v = text::to_chars("unknown output format ");
            text::push_str(&mut v, raw);
            Err(usage_error(v.as_slice()))
        },
    }
}

// ---------------------------------------------------------------------------
// Options of the commands on files
// ---------------------------------------------------------------------------

/// The options that a command takes.
#[derive(Debug, Clone, Copy, PartialEq, Eq, Structural)]
pub enum Accepts {
    /// None at all.
    Nothing,
    /// `--hint`.
    HintOnly,
    /// `--format` and its short forms.
    OutputOnly,
    /// A hint and a format.
    Common,
    /// `--at` and its other names, a hint and a format.
    WithTime,
    /// `--event-at`, `--lat`, `--lon` and their other names, a hint and a
    /// format.
    WithEvent,
}

impl Accepts {
    pub open spec fn spec_hint(self) -> bool {
        self != Accepts::Nothing && self != Accepts::OutputOnly
    }

    pub open spec fn spec_format(self) -> bool {
        self != Accepts::Nothing && self != Accepts::HintOnly
    }

    fn hint(self) -> (r: bool)
        ensures
            r == self.spec_hint(),
    {
        self != Accepts::Nothing && self != Accepts::OutputOnly
    }

    fn format(self) -> (r: bool)
        ensures
            r == self.spec_format(),
    {
        self != Accepts::Nothing && self != Accepts::HintOnly
    }
}

/// What an argument is.
#[derive(Debug, Clone, Copy, PartialEq, Eq, Structural)]
pub enum Flag {
    At,
    EventAt,
    Lat,
    Lon,
    Hint,
    Format,
    Json,
    Jsonl,
    ToolResult,
    Unknown,
}

/// What an argument of a command is.
pub open spec fn flag_of(accepts: Accepts, arg: Seq<char>) -> Flag {
    if accepts == Accepts::WithTime && (arg == "--at"@ || arg == "--reference"@ || arg == "--reference-utc"@) {
        Flag::At
    } else if accepts == Accepts::WithEvent && (arg == "--event-at"@ || arg == "--event-time"@ || arg
        == "--event-utc"@) {
        Flag::EventAt
    } else if accepts == Accepts::WithEvent && (arg == "--lat"@ || arg == "--latitude"@) {
        Flag::Lat
    } else if accepts == Accepts::WithEvent && (arg == "--lon"@ || arg == "--longitude"@) {
        Flag::Lon
    } else if accepts.spec_hint() && arg == "--hint"@ {
        Flag::Hint
    } else if accepts.spec_format() && arg == "--format"@ {
        Flag::Format
    } else if accepts.spec_format() && arg == "--json"@ {
        Flag::Json
    } else if accepts.spec_format() && arg == "--jsonl"@ {
        Flag::Jsonl
    } else if accepts.spec_format() && arg == "--tool-result"@ {
        Flag::ToolResult
    } else {
        Flag::Unknown
    }
}

fn read_flag(accepts: Accepts, arg: &str) -> (r: Flag)
    ensures
        r == flag_of(accepts, arg@),
{
    let chars = text::to_chars(arg);
    let s = chars.as_slice();
    if accepts == Accepts::WithTime && (text::is_str(s, "--at") || text::is_str(s, "--reference") || text::is_str(
        s,
        "--reference-utc",
    )) {
        Flag::At
    } else if accepts == Accepts::WithEvent && (text::is_str(s, "--event-at") || text::is_str(s, "--event-time")
        || text::is_str(s, "--event-utc")) {
        Flag::EventAt
    } else if accepts == Accepts::WithEvent && (text::is_str(s, "--lat") || text::is_str(s, "--latitude")) {
        Flag::Lat
    } else if accepts == Accepts::WithEvent && (text::is_str(s, "--lon") || text::is_str(s, "--longitude")) {
        Flag::Lon
    } else if accepts.hint() && text::is_str(s, "--hint") {
        Flag::Hint
    } else if accepts.format() && text::is_str(s, "--format") {
        Flag::Format
    } else if accepts.format() && text::is_str(s, "--json") {
        Flag::Json
    } else if accepts.format() && text::is_str(s, "--jsonl") {
        Flag::Jsonl
    } else if accepts.format() && text::is_str(s, "--tool-result") {
        Flag::ToolResult
    } else {
        Flag::Unknown
    }
}

impl Flag {
    /// The name of the option in messages.
    pub open spec fn spec_name(self) -> Seq<char> {
        match self {
            Flag::At => "--at"@,
            Flag::EventAt => "--event-at"@,
            Flag::Lat => "--lat"@,
            Flag::Lon => "--lon"@,
            Flag::Hint => "--hint"@,
            Flag::Format => "--format"@,
            Flag::Json => "--json"@,
            Flag::Jsonl => "--jsonl"@,
            Flag::ToolResult => "--tool-result"@,
            Flag::Unknown => ""@,
        }
    }

    pub fn name(self) -> (r: &'static str)
        ensures
            r@ == self.spec_name(),
    {
        match self {
            Flag::At => "--at",
            Flag::EventAt => "--event-at",
            Flag::Lat => "--lat",
            Flag::Lon => "--lon",
            Flag::Hint => "--hint",
            Flag::Format => "--format",
            Flag::Json => "--json",
            Flag::Jsonl => "--jsonl",
            Flag::ToolResult => "--tool-result",
            Flag::Unknown => "",
        }
    }
}

/// The options of a command. Coordinates are decimal literals.
#[derive(Debug, Clone, PartialEq, Eq)]
pub struct CommandOptions {
    pub at: Option<String>,
    pub event_at: Option<String>,
    pub lat: Option<String>,
    pub lon: Option<String>,
    pub hint: Option<IngestHint>,
    pub output: OutputFormat,
}

pub struct OptionsView {
    pub at: Option<Seq<char>>,
    pub event_at: Option<Seq<char>>,
    pub lat: Option<Seq<char>>,
    pub lon: Option<Seq<char>>,
    pub hint: Option<IngestHint>,
    pub output: OutputFormat,
}

impl DeepView for CommandOptions {
    type V = OptionsView;

    open spec fn deep_view(&self) -> OptionsView {
        OptionsView {
            at: self.at.deep_view(),
            event_at: self.event_at.deep_view(),
            lat: self.lat.deep_view(),
            lon: self.lon.deep_view(),
            hint: self.hint,
            output: self.output,
        }
    }
}

/// The options before any is given.
pub open spec fn no_options() -> OptionsView {
    OptionsView {
        at: None,
        event_at: None,
        lat: None,
        lon: None,
        hint: None,
        output: OutputFormat::Text,
    }
}

/// Whether an option was given before. A format that was set back to text
/// counts as not given.
pub open spec fn given(o: OptionsView, flag: Flag) -> bool {
    match flag {
        Flag::At => o.at is Some,
        Flag::EventAt => o.event_at is Some,
        Flag::Lat => o.lat is Some,
        Flag::Lon => o.lon is Some,
        Flag::Hint => o.hint is Some,
        Flag::Unknown => false,
        _ => o.output != OutputFormat::Text,
    }
}

/// What is wrong with an option that is given twice.
pub open spec fn duplicate_text(command: Seq<char>, flag: Flag) -> Seq<char> {
    match flag {
        Flag::Json | Flag::Jsonl | Flag::ToolResult => "duplicate output format for "@ + command,
        _ => "duplicate "@ + flag.spec_name() + " for "@ + command,
    }
}

/// What is wrong with an option without its value.
pub open spec fn missing_value_text(command: Seq<char>, name: Seq<char>) -> Seq<char> {
    "missing value for "@ + name + " in "@ + command
}

/// What is wrong with a value that is no number.
pub open spec fn not_a_number_text(
    command: Seq<char>,
    name: Seq<char>,
    value: Seq<char>,
) -> Seq<char> {
    "invalid numeric value for "@ + name + " in "@ + command + ": "@ + value
}

/// What is wrong with a value that is no finite number.
pub open spec fn not_finite_text(
    command: Seq<char>,
    name: Seq<char>,
    value: Seq<char>,
) -> Seq<char> {
    "invalid finite value for "@ + name + " in "@ + command + ": "@ + value
}

/// What is wrong with an argument that the command does not take.
pub open spec fn extra_text(command: Seq<char>, arg: Seq<char>) -> Seq<char> {
    "unexpected extra argument for "@ + command + ": "@ + arg
}

/// Reads a coordinate: a decimal literal of a finite number.
pub open spec fn coordinate(
    command: Seq<char>,
    flag: Flag,
    value: Seq<char>,
    finite: bool,
) -> Result<Seq<char>, Seq<char>> {
    if !number::float_literal(value) {
        Err(not_a_number_text(command, flag.spec_name(), value))
    } else if !finite {
        Err(not_finite_text(command, flag.spec_name(), value))
    } else {
        Ok(value)
    }
}

/// The options with the value of an option that takes one.
pub open spec fn with_value(
    command: Seq<char>,
    flag: Flag,
    value: Seq<char>,
    finite: bool,
    o: OptionsView,
) -> Result<OptionsView, Seq<char>> {
    match flag {
        Flag::At => Ok(OptionsView { at: Some(value), ..o }),
        Flag::EventAt => Ok(OptionsView { event_at: Some(value), ..o }),
        Flag::Lat => match coordinate(command, flag, value, finite) {
            Ok(v) => Ok(OptionsView { lat: Some(v), ..o }),
            Err(e) => Err(e),
        },
        Flag::Lon => match coordinate(command, flag, value, finite) {
            Ok(v) => Ok(OptionsView { lon: Some(v), ..o }),
            Err(e) => Err(e),
        },
        Flag::Hint => match hint_of(value) {
            Some(h) => Ok(OptionsView { hint: Some(h), ..o }),
            None => Err("unknown hint "@ + value),
        },
        _ => match output_format(value) {
            Some(f) => Ok(OptionsView { output: f, ..o }),
            None => Err("unknown output format "@ + value),
        },
    }
}

/// The format that a short form sets.
pub open spec fn short_format(flag: Flag) -> Option<OutputFormat> {
    match flag {
        Flag::Json => Some(OutputFormat::Json),
        Flag::Jsonl => Some(OutputFormat::Jsonl),
        Flag::ToolResult => Some(OutputFormat::ToolResult),
        _ => None,
    }
}

/// Reads the arguments from `i` on, on top of the options `o`. `finite` says
/// of each argument whether it is a finite number, if it is one at all.
pub open spec fn options_from(
    command: Seq<char>,
    accepts: Accepts,
    args: Seq<Seq<char>>,
    finite: Seq<bool>,
    i: int,
    o: OptionsView,
) -> Result<OptionsView, Seq<char>>
    decreases args.len() - i,
{
    if i < 0 || i >= args.len() {
        Ok(o)
    } else {
        let flag = flag_of(accepts, args[i]);
        if flag == Flag::Unknown {
            Err(extra_text(command, args[i]))
        } else if given(o, flag) {
            Err(duplicate_text(command, flag))
        } else {
            match short_format(flag) {
                Some(f) => options_from(
                    command,
                    accepts,
                    args,
                    finite,
                    i + 1,
                    OptionsView { output: f, ..o },
                ),
                None => if i + 1 >= args.len() {
                    Err(missing_value_text(command, flag.spec_name()))
                } else {
                    match with_value(
                        command,
                        flag,
                        args[i + 1],
                        i + 1 < finite.len() && finite[i + 1],
                        o,
                    ) {
                        Ok(next) => options_from(command, accepts, args, finite, i + 2, next),
                        Err(e) => Err(e),
                    }
                },
            }
        }
    }
}

/// The outcome of reading options, for contracts.
pub open spec fn options_outcome(r: Result<CommandOptions, CliError>) -> Result<
    OptionsView,
    Seq<char>,
> {
    match r {
        Ok(o) => Ok(o.deep_view()),
        Err(e) => Err(e.message@),
    }
}

/// An outcome with how the program is used behind what is wrong.
pub open spec fn explained<T>(r: Result<T, Seq<char>>) -> Result<T, Seq<char>> {
    match r {
        Ok(v) => Ok(v),
        Err(e) => Err(with_usage(e)),
    }
}

fn push_three(a: &str, b: &str, c: &str, d: &str) -> (r: Vec<char>)
    ensures
        r@ == a@ + b@ + c@ + d@,
{
    let mut v = text::to_chars(a);
    text::push_str(&mut v, b);
    text::push_str(&mut v, c);
    text::push_str(&mut v, d);
    v
}

fn duplicate_error(command: &str, flag: Flag) -> (r: CliError)
    ensures
        r.exit_code == 2,
        r.message@ == with_usage(duplicate_text(command@, flag)),
{
    let v = match flag {
        Flag::Json | Flag::Jsonl | Flag::ToolResult => {
            let mut v = text::to_chars("duplicate output format for ");
            text::push_str(&mut v, command);
            v
        },
        _ => push_three("duplicate ", flag.name(), " for ", command),
    };
    usage_error(v.as_slice())
}

/// The error of an option without its value.
pub fn missing_value_error(command: &str, name: &str) -> (r: CliError)
    ensures
        r.exit_code == 2,
        r.message@ == with_usage(missing_value_text(command@, name@)),
{
    let v = push_three("missing value for ", name, " in ", command);
    usage_error(v.as_slice())
}

/// The error of an argument that the command does not take.
pub fn extra_error(command: &str, arg: &str) -> (r: CliError)
    ensures
        r.exit_code == 2,
        r.message@ == with_usage(extra_text(command@, arg@)),
{
    let v = push_three("unexpected extra argument for ", command, ": ", arg);
    usage_error(v.as_slice())
}

/// The error of a value that is no number.
pub fn number_error(command: &str, name: &str, value: &str) -> (r: CliError)
    ensures
        r.exit_code == 2,
        r.message@ == with_usage(not_a_number_text(command@, name@, value@)),
{
    let mut v = push_three("invalid numeric value for ", name, " in ", command);
    text::push_str(&mut v, ": ");
    text::push_str(&mut v, value);
    usage_error(v.as_slice())
}

fn finite_error(command: &str, name: &str, value: &str) -> (r: CliError)
    ensures
        r.exit_code == 2,
        r.message@ == with_usage(not_finite_text(command@, name@, value@)),
{
    let mut v = push_three("invalid finite value for ", name, " in ", command);
    text::push_str(&mut v, ": ");
    text::push_str(&mut v, value);
    usage_error(v.as_slice())
}

fn read_coordinate(command: &str, flag: Flag, value: &str, finite: bool) -> (r: Result<
    String,
    CliError,
>)
    ensures
        match coordinate(command@, flag, value@, finite) {
            Ok(v) => r matches Ok(s) && s@ == v,
            Err(e) => r matches Err(x) && x.exit_code == 2 && x.message@ == with_usage(e),
        },
{
    let chars = text::to_chars(value);
    if !number::is_float_literal(chars.as_slice()) {
        return Err(number_error(command, flag.name(), value));
    }
    if !finite {
        return Err(finite_error(command, flag.name(), value));
    }
    Ok(value.to_owned())
}

fn is_given(o: &CommandOptions, flag: Flag) -> (r: bool)
    ensures
        r == given(o.deep_view(), flag),
{
    match flag {
        Flag::At => o.at.is_some(),
        Flag::EventAt => o.event_at.is_some(),
        Flag::Lat => o.lat.is_some(),
        Flag::Lon => o.lon.is_some(),
        Flag::Hint => o.hint.is_some(),
        Flag::Unknown => false,
        _ => o.output != OutputFormat::Text,
    }
}

fn set_value(command: &str, flag: Flag, value: &str, finite: bool, o: CommandOptions) -> (r: Result<
    CommandOptions,
    CliError,
>)
    ensures
        options_outcome(r) == explained(with_value(command@, flag, value@, finite, o.deep_view())),
        r matches Err(e) ==> e.exit_code == 2,
{
    let mut o = o;
    match flag {
        Flag::At => {
            o.at = Some(value.to_owned());
        },
        Flag::EventAt => {
            o.event_at = Some(value.to_owned());
        },
        Flag::Lat => match read_coordinate(command, flag, value, finite) {
            Ok(v) => {
                o.lat = Some(v);
            },
            Err(e) => {
                return Err(e);
            },
        },
        Flag::Lon => match read_coordinate(command, flag, value, finite) {
            Ok(v) => {
                o.lon = Some(v);
            },
            Err(e) => {
                return Err(e);
            },
        },
        Flag::Hint => match parse_hint_value(value) {
            Ok(h) => {
                o.hint = Some(h);
            },
            Err(e) => {
                return Err(e);
            },
        },
        _ => match parse_output_format(value) {
            Ok(f) => {
                o.output = f;
            },
            Err(e) => {
                return Err(e);
            },
        },
    }
    Ok(o)
}

fn set_short_format(flag: Flag) -> (r: Option<OutputFormat>)
    ensures
        r == short_format(flag),
{
    match flag {
        Flag::Json => Some(OutputFormat::Json),
        Flag::Jsonl => Some(OutputFormat::Jsonl),
        Flag::ToolResult => Some(OutputFormat::ToolResult),
        _ => None,
    }
}

/// Reads the arguments of a command from `from` on. `finite` says of each
/// argument whether it is a finite number, if it is one at all.
pub fn parse_options(
    command: &str,
    accepts: Accepts,
    args: &Vec<String>,
    finite: &Vec<bool>,
    from: usize,
) -> (r: Result<CommandOptions, CliError>)
    ensures
        options_outcome(r) == explained(
            options_from(
                command@,
                accepts,
                args.deep_view(),
                finite@,
                from as int,
                no_options(),
            ),
        ),
        r matches Err(e) ==> e.exit_code == 2,
{
    let ghost all = args.deep_view();
    assert(all.len() == args@.len());
    let mut o = CommandOptions {
        at: None,
        event_at: None,
        lat: None,
        lon: None,
        hint: None,
        output: OutputFormat::Text,
    };
    let mut i: usize = from;
    while i < args.len()
        invariant
            all == args.deep_view(),
            all.len() == args@.len(),
            options_from(command@, accepts, all, finite@, from as int, no_options())
                == options_from(command@, accepts, all, finite@, i as int, o.deep_view()),
        decreases args.len() - i,
    {
        assert(all[i as int] == args@[i as int]@);
        let flag = read_flag(accepts, args[i].as_str());
        if flag == Flag::Unknown {
            return Err(extra_error(command, args[i].as_str()));
        }
        if is_given(&o, flag) {
            return Err(duplicate_error(command, flag));
        }
        match set_short_format(flag) {
            Some(f) => {
                o.output = f;
                i += 1;
            },
            None => {
                if args.len() - i < 2 {
                    return Err(missing_value_error(command, flag.name()));
                }
                let is_finite: bool = i + 1 < finite.len() && finite[i + 1];
                assert(all[i + 1] == args@[i + 1]@);
                match set_value(command, flag, args[i + 1].as_str(), is_finite, o) {
                    Ok(next) => {
                        o = next;
                    },
                    Err(e) => {
                        return Err(e);
                    },
                }
                i += 2;
            },
        }
    }
    Ok(o)
}

/// What is wrong with options of which a required one is missing.
pub open spec fn missing_text(command: Seq<char>, flag: Flag) -> Seq<char> {
    "missing "@ + flag.spec_name() + " for "@ + command
}

fn missing_error(command: &str, flag: Flag) -> (r: CliError)
    ensures
        r.exit_code == 2,
        r.message@ == with_usage(missing_text(command@, flag)),
{
    let v = push_three("missing ", flag.name(), " for ", command);
    usage_error(v.as_slice())
}

/// Options of which those that are required have to be there: the reference
/// time, or the event's time and place.
pub open spec fn required(
    command: Seq<char>,
    needs_at: bool,
    needs_event: bool,
    r: Result<OptionsView, Seq<char>>,
) -> Result<OptionsView, Seq<char>> {
    match r {
        Err(e) => Err(e),
        Ok(o) => if needs_at && o.at is None {
            Err(missing_text(command, Flag::At))
        } else if needs_event && o.event_at is None {
            Err(missing_text(command, Flag::EventAt))
        } else if needs_event && o.lat is None {
            Err(missing_text(command, Flag::Lat))
        } else if needs_event && o.lon is None {
            Err(missing_text(command, Flag::Lon))
        } else {
            Ok(o)
        },
    }
}

/// Reads the arguments of a command and holds them to what it requires.
pub fn parse_required_options(
    command: &str,
    accepts: Accepts,
    needs_at: bool,
    needs_event: bool,
    args: &Vec<String>,
    finite: &Vec<bool>,
    from: usize,
) -> (r: Result<CommandOptions, CliError>)
    ensures
        options_outcome(r) == explained(
            required(
                command@,
                needs_at,
                needs_event,
                options_from(
                    command@,
                    accepts,
                    args.deep_view(),
                    finite@,
                    from as int,
                    no_options(),
                ),
            ),
        ),
        r matches Err(e) ==> e.exit_code == 2,
{
    let o = match parse_options(command, accepts, args, finite, from) {
        Ok(o) => o,
        Err(e) => {
            return Err(e);
        },
    };
    if needs_at && o.at.is_none() {
        return Err(missing_error(command, Flag::At));
    }
    if needs_event && o.event_at.is_none() {
        return Err(missing_error(command, Flag::EventAt));
    }
    if needs_event && o.lat.is_none() {
        return Err(missing_error(command, Flag::Lat));
    }
    if needs_event && o.lon.is_none() {
        return Err(missing_error(command, Flag::Lon));
    }
    Ok(o)
}

} // verus!
