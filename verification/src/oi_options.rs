//! Options of the commands that open an NWWS-OI session.

use vstd::prelude::*;

use crate::number;
use crate::options;
use crate::options::{CliError, OutputFormat};
use crate::text;

verus! {

/// What an argument is.
#[derive(Debug, Clone, Copy, PartialEq, Eq, Structural)]
pub enum OiFlag {
    Count,
    Duration,
    History,
    ArchiveDuplicates,
    Host,
    Domain,
    Port,
    Room,
    RoomService,
    Nickname,
    Resource,
    Format,
    Json,
    Jsonl,
    ToolResult,
    Unknown,
}

/// What an argument is; some only the archiving command takes.
pub open spec fn oi_flag_of(archive: bool, arg: Seq<char>) -> OiFlag {
    if arg == "--count"@ || (archive && arg == "--max-messages"@) {
        OiFlag::Count
    } else if archive && (arg == "--duration"@ || arg == "--duration-seconds"@ || arg
        == "--max-seconds"@) {
        OiFlag::Duration
    } else if arg == "--history"@ {
        OiFlag::History
    } else if archive && arg == "--archive-duplicates"@ {
        OiFlag::ArchiveDuplicates
    } else if arg == "--host"@ {
        OiFlag::Host
    } else if arg == "--domain"@ {
        OiFlag::Domain
    } else if arg == "--port"@ {
        OiFlag::Port
    } else if arg == "--room"@ {
        OiFlag::Room
    } else if arg == "--room-service"@ {
        OiFlag::RoomService
    } else if arg == "--nickname"@ {
        OiFlag::Nickname
    } else if arg == "--resource"@ {
        OiFlag::Resource
    } else if archive && arg == "--format"@ {
        OiFlag::Format
    } else if archive && arg == "--json"@ {
        OiFlag::Json
    } else if archive && arg == "--jsonl"@ {
        OiFlag::Jsonl
    } else if archive && arg == "--tool-result"@ {
        OiFlag::ToolResult
    } else {
        OiFlag::Unknown
    }
}

fn read_oi_flag(archive: bool, arg: &str) -> (r: OiFlag)
    ensures
        r == oi_flag_of(archive, arg@),
{
    let chars = text::to_chars(arg);
    let s = chars.as_slice();
    if text::is_str(s, "--count") || (archive && text::is_str(s, "--max-messages")) {
        OiFlag::Count
    } else if archive && (text::is_str(s, "--duration") || text::is_str(s, "--duration-seconds")
        || text::is_str(s, "--max-seconds")) {
        OiFlag::Duration
    } else if text::is_str(s, "--history") {
        OiFlag::History
    } else if archive && text::is_str(s, "--archive-duplicates") {
        OiFlag::ArchiveDuplicates
    } else if text::is_str(s, "--host") {
        OiFlag::Host
    } else if text::is_str(s, "--domain") {
        OiFlag::Domain
    } else if text::is_str(s, "--port") {
        OiFlag::Port
    } else if text::is_str(s, "--room") {
        OiFlag::Room
    } else if text::is_str(s, "--room-service") {
        OiFlag::RoomService
    } else if text::is_str(s, "--nickname") {
        OiFlag::Nickname
    } else if text::is_str(s, "--resource") {
        OiFlag::Resource
    } else if archive && text::is_str(s, "--format") {
        OiFlag::Format
    } else if archive && text::is_str(s, "--json") {
        OiFlag::Json
    } else if archive && text::is_str(s, "--jsonl") {
        OiFlag::Jsonl
    } else if archive && text::is_str(s, "--tool-result") {
        OiFlag::ToolResult
    } else {
        OiFlag::Unknown
    }
}

impl OiFlag {
    /// The name of the option in messages.
    pub open spec fn spec_name(self) -> Seq<char> {
        match self {
            OiFlag::Count => "--count"@,
            OiFlag::Duration => "--duration"@,
            OiFlag::History => "--history"@,
            OiFlag::ArchiveDuplicates => "--archive-duplicates"@,
            OiFlag::Host => "--host"@,
            OiFlag::Domain => "--domain"@,
            OiFlag::Port => "--port"@,
            OiFlag::Room => "--room"@,
            OiFlag::RoomService => "--room-service"@,
            OiFlag::Nickname => "--nickname"@,
            OiFlag::Resource => "--resource"@,
            OiFlag::Format => "--format"@,
            OiFlag::Json => "--json"@,
            OiFlag::Jsonl => "--jsonl"@,
            OiFlag::ToolResult => "--tool-result"@,
            OiFlag::Unknown => ""@,
        }
    }

    pub fn name(self) -> (r: &'static str)
        ensures
            r@ == self.spec_name(),
    {
        match self {
            OiFlag::Count => "--count",
            OiFlag::Duration => "--duration",
            OiFlag::History => "--history",
            OiFlag::ArchiveDuplicates => "--archive-duplicates",
            OiFlag::Host => "--host",
            OiFlag::Domain => "--domain",
            OiFlag::Port => "--port",
            OiFlag::Room => "--room",
            OiFlag::RoomService => "--room-service",
            OiFlag::Nickname => "--nickname",
            OiFlag::Resource => "--resource",
            OiFlag::Format => "--format",
            OiFlag::Json => "--json",
            OiFlag::Jsonl => "--jsonl",
            OiFlag::ToolResult => "--tool-result",
            OiFlag::Unknown => "",
        }
    }
}

/// The options of a session: how much to read, and what to connect to. A part
/// that is not given is left to the client.
#[derive(Debug, Clone, PartialEq, Eq)]
pub struct OiOptions {
    pub count: usize,
    pub duration_seconds: Option<u64>,
    pub history: u32,
    pub archive_duplicates: bool,
    pub output: OutputFormat,
    pub host: Option<String>,
    pub domain: Option<String>,
    pub port: Option<u16>,
    pub room: Option<String>,
    pub room_service: Option<String>,
    pub nickname: Option<String>,
    pub resource: Option<String>,
}

pub struct OiOptionsView {
    pub count: int,
    pub duration_seconds: Option<int>,
    pub history: int,
    pub archive_duplicates: bool,
    pub output: OutputFormat,
    pub host: Option<Seq<char>>,
    pub domain: Option<Seq<char>>,
    pub port: Option<int>,
    pub room: Option<Seq<char>>,
    pub room_service: Option<Seq<char>>,
    pub nickname: Option<Seq<char>>,
    pub resource: Option<Seq<char>>,
}

impl DeepView for OiOptions {
    type V = OiOptionsView;

    open spec fn deep_view(&self) -> OiOptionsView {
        OiOptionsView {
            count: self.count as int,
            duration_seconds: match self.duration_seconds {
                Some(n) => Some(n as int),
                None => None,
            },
            history: self.history as int,
            archive_duplicates: self.archive_duplicates,
            output: self.output,
            host: self.host.deep_view(),
            domain: self.domain.deep_view(),
            port: match self.port {
                Some(n) => Some(n as int),
                None => None,
            },
            room: self.room.deep_view(),
            room_service: self.room_service.deep_view(),
            nickname: self.nickname.deep_view(),
            resource: self.resource.deep_view(),
        }
    }
}

/// The options before any is given: one message, no history.
pub open spec fn no_oi_options() -> OiOptionsView {
    OiOptionsView {
        count: 1,
        duration_seconds: None,
        history: 0,
        archive_duplicates: false,
        output: OutputFormat::Text,
        host: None,
        domain: None,
        port: None,
        room: None,
        room_service: None,
        nickname: None,
        resource: None,
    }
}

impl OiOptions {
    /// The options before any is given.
    pub fn new() -> (r: OiOptions)
        ensures
            r.deep_view() == no_oi_options(),
    {
        OiOptions {
            count: 1,
            duration_seconds: None,
            history: 0,
            archive_duplicates: false,
            output: OutputFormat::Text,
            host: None,
            domain: None,
            port: None,
            room: None,
            room_service: None,
            nickname: None,
            resource: None,
        }
    }
}

/// The command of the options.
pub open spec fn oi_command_name(archive: bool) -> Seq<char> {
    if archive {
        "oi archive"@
    } else {
        "oi connect"@
    }
}

fn command_name(archive: bool) -> (r: &'static str)
    ensures
        r@ == oi_command_name(archive),
{
    if archive {
        "oi archive"
    } else {
        "oi connect"
    }
}

/// Reads a number of at most `max`.
pub open spec fn number_in(command: Seq<char>, name: Seq<char>, value: Seq<char>, max: int) -> Result<
    int,
    Seq<char>,
> {
    match number::unsigned(value, max) {
        Some(n) => Ok(n),
        None => Err(options::not_a_number_text(command, name, value)),
    }
}

/// What is wrong with a zero.
pub open spec fn zero_text(command: Seq<char>, name: Seq<char>, unit: Seq<char>) -> Seq<char> {
    name + " must be greater than zero"@ + unit + " for "@ + command
}

/// What is wrong with a duration that is no number.
pub open spec fn duration_text(command: Seq<char>, name: Seq<char>, value: Seq<char>) -> Seq<char> {
    "invalid duration seconds for "@ + name + " in "@ + command + ": "@ + value
}

/// The options with the value of an option that takes one. The archiving
/// command reads at least one message, and no time of zero seconds.
pub open spec fn oi_with_value(
    archive: bool,
    flag: OiFlag,
    value: Seq<char>,
    o: OiOptionsView,
) -> Result<OiOptionsView, Seq<char>> {
    let command = oi_command_name(archive);
    let name = flag.spec_name();
    match flag {
        OiFlag::Count => match number_in(command, name, value, usize::MAX as int) {
            Err(e) => Err(e),
            Ok(n) => if archive && n == 0 {
                Err(zero_text(command, name, ""@))
            } else {
                Ok(OiOptionsView { count: n, ..o })
            },
        },
        OiFlag::Duration => match number::unsigned(value, u64::MAX as int) {
            None => Err(duration_text(command, name, value)),
            Some(n) => if n == 0 {
                Err(zero_text(command, name, " seconds"@))
            } else {
                Ok(OiOptionsView { duration_seconds: Some(n), ..o })
            },
        },
        OiFlag::History => match number_in(command, name, value, u32::MAX as int) {
            Err(e) => Err(e),
            Ok(n) => Ok(OiOptionsView { history: n, ..o }),
        },
        OiFlag::Port => match number_in(command, name, value, u16::MAX as int) {
            Err(e) => Err(e),
            Ok(n) => Ok(OiOptionsView { port: Some(n), ..o }),
        },
        OiFlag::Host => Ok(OiOptionsView { host: Some(value), ..o }),
        OiFlag::Domain => Ok(OiOptionsView { domain: Some(value), ..o }),
        OiFlag::Room => Ok(OiOptionsView { room: Some(value), ..o }),
        OiFlag::RoomService => Ok(OiOptionsView { room_service: Some(value), ..o }),
        OiFlag::Nickname => Ok(OiOptionsView { nickname: Some(value), ..o }),
        OiFlag::Resource => Ok(OiOptionsView { resource: Some(value), ..o }),
        _ => match options::output_format(value) {
            Some(f) => Ok(OiOptionsView { output: f, ..o }),
            None => Err("unknown output format "@ + value),
        },
    }
}

/// The options with an option that takes no value.
pub open spec fn oi_with_switch(flag: OiFlag, o: OiOptionsView) -> Option<OiOptionsView> {
    match flag {
        OiFlag::ArchiveDuplicates => Some(OiOptionsView { archive_duplicates: true, ..o }),
        OiFlag::Json => Some(OiOptionsView { output: OutputFormat::Json, ..o }),
        OiFlag::Jsonl => Some(OiOptionsView { output: OutputFormat::Jsonl, ..o }),
        OiFlag::ToolResult => Some(OiOptionsView { output: OutputFormat::ToolResult, ..o }),
        _ => None,
    }
}

/// What is wrong with an option that is given twice. Only formats are held to
/// be given once; of the others the last counts.
pub open spec fn oi_duplicate(archive: bool, flag: OiFlag, o: OiOptionsView) -> Option<Seq<char>> {
    if o.output == OutputFormat::Text {
        None
    } else {
        match flag {
            OiFlag::Format => Some("duplicate --format for "@ + oi_command_name(archive)),
            OiFlag::Json | OiFlag::Jsonl | OiFlag::ToolResult => Some(
                "duplicate output format for "@ + oi_command_name(archive),
            ),
            _ => None,
        }
    }
}

/// Reads the arguments from `i` on, on top of the options `o`.
pub open spec fn oi_options_from(
    archive: bool,
    args: Seq<Seq<char>>,
    i: int,
    o: OiOptionsView,
) -> Result<OiOptionsView, Seq<char>>
    decreases args.len() - i,
{
    if i < 0 || i >= args.len() {
        Ok(o)
    } else {
        let flag = oi_flag_of(archive, args[i]);
        if flag == OiFlag::Unknown {
            Err(options::extra_text(oi_command_name(archive), args[i]))
        } else {
            match oi_duplicate(archive, flag, o) {
                Some(e) => Err(e),
                None => match oi_with_switch(flag, o) {
                    Some(next) => oi_options_from(archive, args, i + 1, next),
                    None => if i + 1 >= args.len() {
                        Err(
                            options::missing_value_text(
                                oi_command_name(archive),
                                flag.spec_name(),
                            ),
                        )
                    } else {
                        match oi_with_value(archive, flag, args[i + 1], o) {
                            Ok(next) => oi_options_from(archive, args, i + 2, next),
                            Err(e) => Err(e),
                        }
                    },
                },
            }
        }
    }
}

/// The outcome of reading options, for contracts.
pub open spec fn oi_outcome(r: Result<OiOptions, CliError>) -> Result<OiOptionsView, Seq<char>> {
    match r {
        Ok(o) => Ok(o.deep_view()),
        Err(e) => Err(e.message@),
    }
}

fn read_number(command: &str, name: &str, value: &str, max: u64) -> (r: Result<u64, CliError>)
    ensures
        match number_in(command@, name@, value@, max as int) {
            Ok(n) => r matches Ok(v) && v == n && v <= max,
            Err(e) => r matches Err(x) && x.exit_code == 2 && x.message@ == options::with_usage(e),
        },
{
    let chars = text::to_chars(value);
    match number::read_unsigned(chars.as_slice(), max) {
        Some(n) => Ok(n),
        None => Err(options::number_error(command, name, value)),
    }
}

fn zero_error(command: &str, name: &str, unit: &str) -> (r: CliError)
    ensures
        r.exit_code == 2,
        r.message@ == options::with_usage(zero_text(command@, name@, unit@)),
{
    let mut v = text::to_chars(name);
    text::push_str(&mut v, " must be greater than zero");
    text::push_str(&mut v, unit);
    text::push_str(&mut v, " for ");
    text::push_str(&mut v, command);
    options::usage_error(v.as_slice())
}

fn duration_error(command: &str, name: &str, value: &str) -> (r: CliError)
    ensures
        r.exit_code == 2,
        r.message@ == options::with_usage(duration_text(command@, name@, value@)),
{
    let mut v = text::to_chars("invalid duration seconds for ");
    text::push_str(&mut v, name);
    text::push_str(&mut v, " in ");
    text::push_str(&mut v, command);
    text::push_str(&mut v, ": ");
    text::push_str(&mut v, value);
    options::usage_error(v.as_slice())
}

fn set_oi_number(archive: bool, flag: OiFlag, value: &str, o: OiOptions) -> (r: Result<
    OiOptions,
    CliError,
>)
    requires
        flag == OiFlag::Count || flag == OiFlag::Duration || flag == OiFlag::History || flag
            == OiFlag::Port,
    ensures
        oi_outcome(r) == options::explained(oi_with_value(archive, flag, value@, o.deep_view())),
        r matches Err(e) ==> e.exit_code == 2,
{
    let mut o = o;
    let command = command_name(archive);
    let name = flag.name();
    match flag {
        OiFlag::Count => {
            let n: u64 = match read_number(command, name, value, usize::MAX as u64) {
                Ok(n) => n,
                Err(e) => {
                    return Err(e);
                },
            };
            if archive && n == 0 {
                return Err(zero_error(command, name, ""));
            }
            o.count = n as usize;
        },
        OiFlag::Duration => {
            let chars = text::to_chars(value);
            let n: u64 = match number::read_unsigned(chars.as_slice(), u64::MAX) {
                Some(n) => n,
                None => {
                    return Err(duration_error(command, name, value));
                },
            };
            if n == 0 {
                return Err(zero_error(command, name, " seconds"));
            }
            o.duration_seconds = Some(n);
        },
        OiFlag::History => {
            let n: u64 = match read_number(command, name, value, u32::MAX as u64) {
                Ok(n) => n,
                Err(e) => {
                    return Err(e);
                },
            };
            o.history = n as u32;
        },
        _ => {
            let n: u64 = match read_number(command, name, value, u16::MAX as u64) {
                Ok(n) => n,
                Err(e) => {
                    return Err(e);
                },
            };
            o.port = Some(n as u16);
        },
    }
    Ok(o)
}

fn set_oi_value(archive: bool, flag: OiFlag, value: &str, o: OiOptions) -> (r: Result<
    OiOptions,
    CliError,
>)
    ensures
        oi_outcome(r) == options::explained(oi_with_value(archive, flag, value@, o.deep_view())),
        r matches Err(e) ==> e.exit_code == 2,
{
    let mut o = o;
    match flag {
        OiFlag::Count | OiFlag::Duration | OiFlag::History | OiFlag::Port => {
            return set_oi_number(archive, flag, value, o);
        },
        OiFlag::Host => {
            o.host = Some(value.to_owned());
        },
        OiFlag::Domain => {
            o.domain = Some(value.to_owned());
        },
        OiFlag::Room => {
            o.room = Some(value.to_owned());
        },
        OiFlag::RoomService => {
            o.room_service = Some(value.to_owned());
        },
        OiFlag::Nickname => {
            o.nickname = Some(value.to_owned());
        },
        OiFlag::Resource => {
            o.resource = Some(value.to_owned());
        },
        _ => match options::parse_output_format(value) {
            Ok(f) => {
                o.output = f;
            },
            Err(e) => {
                return Err(e);
            },
        },
    }
    Ok(o)
}

fn check_duplicate(archive: bool, flag: OiFlag, o: &OiOptions) -> (r: Option<CliError>)
    ensures
        match oi_duplicate(archive, flag, o.deep_view()) {
            Some(e) => r matches Some(x) && x.exit_code == 2 && x.message@ == options::with_usage(
                e,
            ),
            None => r is None,
        },
{
    if o.output == OutputFormat::Text {
        return None;
    }
    match flag {
        OiFlag::Format => {
            let mut v = text::to_chars("duplicate --format for ");
            text::push_str(&mut v, command_name(archive));
            Some(options::usage_error(v.as_slice()))
        },
        OiFlag::Json | OiFlag::Jsonl | OiFlag::ToolResult => {
            let mut v = text::to_chars("duplicate output format for ");
            text::push_str(&mut v, command_name(archive));
            Some(options::usage_error(v.as_slice()))
        },
        _ => None,
    }
}

fn set_switch(flag: OiFlag, o: &mut OiOptions) -> (r: bool)
    ensures
        match oi_with_switch(flag, old(o).deep_view()) {
            Some(next) => r && final(o).deep_view() == next,
            None => !r && *final(o) == *old(o),
        },
{
    match flag {
        OiFlag::ArchiveDuplicates => {
            o.archive_duplicates = true;
            true
        },
        OiFlag::Json => {
            o.output = OutputFormat::Json;
            true
        },
        OiFlag::Jsonl => {
            o.output = OutputFormat::Jsonl;
            true
        },
        OiFlag::ToolResult => {
            o.output = OutputFormat::ToolResult;
            true
        },
        _ => false,
    }
}

/// Reads the arguments of a session command from `from` on.
pub fn parse_oi_options(archive: bool, args: &Vec<String>, from: usize) -> (r: Result<
    OiOptions,
    CliError,
>)
    ensures
        oi_outcome(r) == options::explained(
            oi_options_from(archive, args.deep_view(), from as int, no_oi_options()),
        ),
        r matches Err(e) ==> e.exit_code == 2,
{
    let ghost all = args.deep_view();
    assert(all.len() == args@.len());
    let mut o = OiOptions::new();
    let mut i: usize = from;
    while i < args.len()
        invariant
            all == args.deep_view(),
            all.len() == args@.len(),
            oi_options_from(archive, all, from as int, no_oi_options()) == oi_options_from(
                archive,
                all,
                i as int,
                o.deep_view(),
            ),
        decreases args.len() - i,
    {
        assert(all[i as int] == args@[i as int]@);
        let flag = read_oi_flag(archive, args[i].as_str());
        if flag == OiFlag::Unknown {
            return Err(options::extra_error(command_name(archive), args[i].as_str()));
        }
        if let Some(e) = check_duplicate(archive, flag, &o) {
            return Err(e);
        }
        if set_switch(flag, &mut o) {
            i += 1;
        } else {
            if args.len() - i < 2 {
                return Err(options::missing_value_error(command_name(archive), flag.name()));
            }
            assert(all[i + 1] == args@[i + 1]@);
            match set_oi_value(archive, flag, args[i + 1].as_str(), o) {
                Ok(next) => {
                    o = next;
                },
                Err(e) => {
                    return Err(e);
                },
            }
            i += 2;
        }
    }
    Ok(o)
}

} // verus!
