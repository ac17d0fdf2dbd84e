//! Command lines: which command is meant, on what, and with which options.

use vstd::prelude::*;

use crate::oi_options;
use crate::oi_options::{OiOptions, OiOptionsView};
use crate::options;
use crate::options::{Accepts, CliError, CommandOptions, OptionsView, OutputFormat};
use crate::text;

verus! {

/// A command.
#[derive(Debug, Clone, Copy, PartialEq, Eq, Structural)]
pub enum CommandKind {
    Help,
    Inspect,
    Replay,
    ActiveAt,
    Timeline,
    LeadTime,
    Summary,
    OiConnect,
    OiArchive,
    Pid201Inspect,
    Pid201Split,
    Pid201Archive,
    ArchiveImport,
    ArchiveVerify,
    ArchiveActiveAt,
    ArchiveTimeline,
    ArchiveLeadTime,
}

impl CommandKind {
    /// The command of one word.
    pub open spec fn of_word(word: Seq<char>) -> Option<CommandKind> {
        if word == "inspect"@ {
            Some(CommandKind::Inspect)
        } else if word == "replay"@ {
            Some(CommandKind::Replay)
        } else if word == "active-at"@ || word == "active"@ {
            Some(CommandKind::ActiveAt)
        } else if word == "timeline"@ {
            Some(CommandKind::Timeline)
        } else if word == "lead-time"@ || word == "leadtime"@ {
            Some(CommandKind::LeadTime)
        } else if word == "summary"@ {
            Some(CommandKind::Summary)
        } else {
            None
        }
    }

    /// The command of a group and a word.
    pub open spec fn of_group(group: Seq<char>, word: Seq<char>) -> Option<CommandKind> {
        if group == "oi"@ {
            if word == "connect"@ {
                Some(CommandKind::OiConnect)
            } else if word == "archive"@ {
                Some(CommandKind::OiArchive)
            } else {
                None
            }
        } else if group == "pid201"@ {
            if word == "inspect"@ {
                Some(CommandKind::Pid201Inspect)
            } else if word == "split"@ {
                Some(CommandKind::Pid201Split)
            } else if word == "archive"@ {
                Some(CommandKind::Pid201Archive)
            } else {
                None
            }
        } else {
            if word == "import"@ {
                Some(CommandKind::ArchiveImport)
            } else if word == "verify"@ {
                Some(CommandKind::ArchiveVerify)
            } else if word == "active-at"@ || word == "active"@ {
                Some(CommandKind::ArchiveActiveAt)
            } else if word == "timeline"@ {
                Some(CommandKind::ArchiveTimeline)
            } else if word == "lead-time"@ || word == "leadtime"@ {
                Some(CommandKind::ArchiveLeadTime)
            } else {
                None
            }
        }
    }

    /// The name of the command in messages.
    pub open spec fn spec_name(self) -> Seq<char> {
        match self {
            CommandKind::Help => "help"@,
            CommandKind::Inspect => "inspect"@,
            CommandKind::Replay => "replay"@,
            CommandKind::ActiveAt => "active-at"@,
            CommandKind::Timeline => "timeline"@,
            CommandKind::LeadTime => "lead-time"@,
            CommandKind::Summary => "summary"@,
            CommandKind::OiConnect => "oi connect"@,
            CommandKind::OiArchive => "oi archive"@,
            CommandKind::Pid201Inspect => "pid201 inspect"@,
            CommandKind::Pid201Split => "pid201 split"@,
            CommandKind::Pid201Archive => "pid201 archive"@,
            CommandKind::ArchiveImport => "archive import"@,
            CommandKind::ArchiveVerify => "archive verify"@,
            CommandKind::ArchiveActiveAt => "archive active-at"@,
            CommandKind::ArchiveTimeline => "archive timeline"@,
            CommandKind::ArchiveLeadTime => "archive lead-time"@,
        }
    }

    pub fn name(self) -> (r: &'static str)
        ensures
            r@ == self.spec_name(),
    {
        match self {
            CommandKind::Help => "help",
            CommandKind::Inspect => "inspect",
            CommandKind::Replay => "replay",
            CommandKind::ActiveAt => "active-at",
            CommandKind::Timeline => "timeline",
            CommandKind::LeadTime => "lead-time",
            CommandKind::Summary => "summary",
            CommandKind::OiConnect => "oi connect",
            CommandKind::OiArchive => "oi archive",
            CommandKind::Pid201Inspect => "pid201 inspect",
            CommandKind::Pid201Split => "pid201 split",
            CommandKind::Pid201Archive => "pid201 archive",
            CommandKind::ArchiveImport => "archive import",
            CommandKind::ArchiveVerify => "archive verify",
            CommandKind::ArchiveActiveAt => "archive active-at",
            CommandKind::ArchiveTimeline => "archive timeline",
            CommandKind::ArchiveLeadTime => "archive lead-time",
        }
    }

    /// How many arguments come before the options.
    pub open spec fn spec_operands(self) -> nat {
        match self {
            CommandKind::Help => 0,
            CommandKind::OiConnect => 2,
            CommandKind::OiArchive => 3,
            CommandKind::Pid201Split => 2,
            CommandKind::Pid201Archive => 2,
            CommandKind::ArchiveImport => 2,
            _ => 1,
        }
    }

    fn operands(self) -> (r: usize)
        ensures
            r == self.spec_operands(),
    {
        match self {
            CommandKind::Help => 0,
            CommandKind::OiConnect => 2,
            CommandKind::OiArchive => 3,
            CommandKind::Pid201Split => 2,
            CommandKind::Pid201Archive => 2,
            CommandKind::ArchiveImport => 2,
            _ => 1,
        }
    }

    /// The options that the command takes.
    pub open spec fn spec_accepts(self) -> Accepts {
        match self {
            CommandKind::Inspect | CommandKind::Replay | CommandKind::ArchiveImport => Accepts::Common,
            CommandKind::ActiveAt
            | CommandKind::Timeline
            | CommandKind::ArchiveActiveAt
            | CommandKind::ArchiveTimeline => Accepts::WithTime,
            CommandKind::LeadTime | CommandKind::ArchiveLeadTime => Accepts::WithEvent,
            CommandKind::Summary => Accepts::HintOnly,
            CommandKind::Pid201Inspect
            | CommandKind::Pid201Archive
            | CommandKind::ArchiveVerify => Accepts::OutputOnly,
            _ => Accepts::Nothing,
        }
    }

    fn accepts(self) -> (r: Accepts)
        ensures
            r == self.spec_accepts(),
    {
        match self {
            CommandKind::Inspect | CommandKind::Replay | CommandKind::ArchiveImport => Accepts::Common,
            CommandKind::ActiveAt
            | CommandKind::Timeline
            | CommandKind::ArchiveActiveAt
            | CommandKind::ArchiveTimeline => Accepts::WithTime,
            CommandKind::LeadTime | CommandKind::ArchiveLeadTime => Accepts::WithEvent,
            CommandKind::Summary => Accepts::HintOnly,
            CommandKind::Pid201Inspect
            | CommandKind::Pid201Archive
            | CommandKind::ArchiveVerify => Accepts::OutputOnly,
            _ => Accepts::Nothing,
        }
    }

    /// Whether the command cannot do without a reference time.
    pub open spec fn spec_needs_at(self) -> bool {
        self == CommandKind::ActiveAt || self == CommandKind::ArchiveActiveAt
    }

    /// Whether the command cannot do without an event.
    pub open spec fn spec_needs_event(self) -> bool {
        self == CommandKind::LeadTime || self == CommandKind::ArchiveLeadTime
    }

    /// Whether the command opens a session.
    pub open spec fn spec_is_session(self) -> bool {
        self == CommandKind::OiConnect || self == CommandKind::OiArchive
    }
}

fn read_word(word: &str) -> (r: Option<CommandKind>)
    ensures
        r == CommandKind::of_word(word@),
{
    let chars = text::to_chars(word);
    let s = chars.as_slice();
    if text::is_str(s, "inspect") {
        Some(CommandKind::Inspect)
    } else if text::is_str(s, "replay") {
        Some(CommandKind::Replay)
    } else if text::is_str(s, "active-at") || text::is_str(s, "active") {
        Some(CommandKind::ActiveAt)
    } else if text::is_str(s, "timeline") {
        Some(CommandKind::Timeline)
    } else if text::is_str(s, "lead-time") || text::is_str(s, "leadtime") {
        Some(CommandKind::LeadTime)
    } else if text::is_str(s, "summary") {
        Some(CommandKind::Summary)
    } else {
        None
    }
}

fn read_group(group: &str, word: &str) -> (r: Option<CommandKind>)
    ensures
        r == CommandKind::of_group(group@, word@),
{
    let g = text::to_chars(group);
    let chars = text::to_chars(word);
    let s = chars.as_slice();
    if text::is_str(g.as_slice(), "oi") {
        if text::is_str(s, "connect") {
            Some(CommandKind::OiConnect)
        } else if text::is_str(s, "archive") {
            Some(CommandKind::OiArchive)
        } else {
            None
        }
    } else if text::is_str(g.as_slice(), "pid201") {
        if text::is_str(s, "inspect") {
            Some(CommandKind::Pid201Inspect)
        } else if text::is_str(s, "split") {
            Some(CommandKind::Pid201Split)
        } else if text::is_str(s, "archive") {
            Some(CommandKind::Pid201Archive)
        } else {
            None
        }
    } else {
        if text::is_str(s, "import") {
            Some(CommandKind::ArchiveImport)
        } else if text::is_str(s, "verify") {
            Some(CommandKind::ArchiveVerify)
        } else if text::is_str(s, "active-at") || text::is_str(s, "active") {
            Some(CommandKind::ArchiveActiveAt)
        } else if text::is_str(s, "timeline") {
            Some(CommandKind::ArchiveTimeline)
        } else if text::is_str(s, "lead-time") || text::is_str(s, "leadtime") {
            Some(CommandKind::ArchiveLeadTime)
        } else {
            None
        }
    }
}

/// A command line that was understood: the command, the position of the first
/// argument behind its words, and its options.
#[derive(Debug, Clone, PartialEq, Eq)]
pub struct Invocation {
    pub kind: CommandKind,
    pub operand: usize,
    pub options: CommandOptions,
    pub session: OiOptions,
}

pub struct InvocationView {
    pub kind: CommandKind,
    pub operand: int,
    pub options: OptionsView,
    pub session: OiOptionsView,
}

impl DeepView for Invocation {
    type V = InvocationView;

    open spec fn deep_view(&self) -> InvocationView {
        InvocationView {
            kind: self.kind,
            operand: self.operand as int,
            options: self.options.deep_view(),
            session: self.session.deep_view(),
        }
    }
}

/// Whether a word asks for help.
pub open spec fn is_help(word: Seq<char>) -> bool {
    word == "-h"@ || word == "--help"@ || word == "help"@
}

/// Whether a word is a group of commands.
pub open spec fn is_group(word: Seq<char>) -> bool {
    word == "oi"@ || word == "pid201"@ || word == "archive"@
}

/// The command of a command line, and how many words name it.
pub open spec fn command_of(args: Seq<Seq<char>>) -> Result<(CommandKind, int), Seq<char>> {
    if args.len() == 0 {
        Err(options::USAGE@)
    } else if is_help(args[0]) {
        Ok((CommandKind::Help, 1))
    } else if is_group(args[0]) {
        if args.len() < 2 {
            Err(options::with_usage("missing "@ + args[0] + " subcommand"@))
        } else {
            match CommandKind::of_group(args[0], args[1]) {
                Some(kind) => Ok((kind, 2)),
                None => Err(
                    options::with_usage("unknown "@ + args[0] + " subcommand "@ + args[1]),
                ),
            }
        }
    } else {
        match CommandKind::of_word(args[0]) {
            Some(kind) => Ok((kind, 1)),
            None => Err(options::with_usage("unknown command "@ + args[0])),
        }
    }
}

/// What the `i`th operand of a command is.
pub open spec fn operand_name(kind: CommandKind, i: int) -> Seq<char> {
    if kind.spec_is_session() && i == 0 {
        "username"@
    } else if kind.spec_is_session() && i == 1 {
        "password"@
    } else {
        "path"@
    }
}

/// What is wrong with a command line without the `i`th operand.
pub open spec fn missing_operand_text(kind: CommandKind, i: int) -> Seq<char> {
    "missing "@ + operand_name(kind, i) + " for "@ + kind.spec_name()
}

/// Reads a command line. `finite` says of each argument whether it is a finite
/// number, if it is one at all.
pub open spec fn invocation_of(args: Seq<Seq<char>>, finite: Seq<bool>) -> Result<
    InvocationView,
    Seq<char>,
> {
    match command_of(args) {
        Err(e) => Err(e),
        Ok((kind, words)) => {
            let n = kind.spec_operands() as int;
            if kind == CommandKind::Help {
                Ok(
                    InvocationView {
                        kind,
                        operand: words,
                        options: options::no_options(),
                        session: oi_options::no_oi_options(),
                    },
                )
            } else if args.len() < words + n {
                Err(options::with_usage(missing_operand_text(kind, args.len() - words)))
            } else if kind.spec_is_session() {
                match oi_options::oi_options_from(
                    kind == CommandKind::OiArchive,
                    args,
                    words + n,
                    oi_options::no_oi_options(),
                ) {
                    Err(e) => Err(options::with_usage(e)),
                    Ok(session) => Ok(
                        InvocationView {
                            kind,
                            operand: words,
                            options: options::no_options(),
                            session,
                        },
                    ),
                }
            } else {
                match options::required(
                    kind.spec_name(),
                    kind.spec_needs_at(),
                    kind.spec_needs_event(),
                    options::options_from(
                        kind.spec_name(),
                        kind.spec_accepts(),
                        args,
                        finite,
                        words + n,
                        options::no_options(),
                    ),
                ) {
                    Err(e) => Err(options::with_usage(e)),
                    Ok(o) => Ok(
                        InvocationView {
                            kind,
                            operand: words,
                            options: o,
                            session: oi_options::no_oi_options(),
                        },
                    ),
                }
            }
        },
    }
}

/// The outcome of reading a command line, for contracts.
pub open spec fn invocation_outcome(r: Result<Invocation, CliError>) -> Result<
    InvocationView,
    Seq<char>,
> {
    match r {
        Ok(v) => Ok(v.deep_view()),
        Err(e) => Err(e.message@),
    }
}

fn read_command(args: &Vec<String>) -> (r: Result<(CommandKind, usize), CliError>)
    ensures
        match command_of(args.deep_view()) {
            Ok((kind, words)) => r matches Ok(v) && v.0 == kind && v.1 == words && words
                <= args@.len(),
            Err(e) => r matches Err(x) && x.exit_code == 2 && x.message@ == e,
        },
{
    let ghost all = args.deep_view();
    assert(all.len() == args@.len());
    if args.len() == 0 {
        return Err(CliError::usage(options::USAGE.to_owned()));
    }
    assert(all[0] == args@[0]@);
    let first = text::to_chars(args[0].as_str());
    let s = first.as_slice();
    if text::is_str(s, "-h") || text::is_str(s, "--help") || text::is_str(s, "help") {
        return Ok((CommandKind::Help, 1));
    }
    if text::is_str(s, "oi") || text::is_str(s, "pid201") || text::is_str(s, "archive") {
        if args.len() < 2 {
            let mut v = text::to_chars("missing ");
            text::push_str(&mut v, args[0].as_str());
            text::push_str(&mut v, " subcommand");
            return Err(options::usage_error(v.as_slice()));
        }
        assert(all[1] == args@[1]@);
        return match read_group(args[0].as_str(), args[1].as_str()) {
            Some(kind) => Ok((kind, 2)),
            None => {
                let mut v = text::to_chars("unknown ");
                text::push_str(&mut v, args[0].as_str());
                text::push_str(&mut v, " subcommand ");
                text::push_str(&mut v, args[1].as_str());
                Err(options::usage_error(v.as_slice()))
            },
        };
    }
    match read_word(args[0].as_str()) {
        Some(kind) => Ok((kind, 1)),
        None => {
            let mut v = text::to_chars("unknown command ");
            text::push_str(&mut v, args[0].as_str());
            Err(options::usage_error(v.as_slice()))
        },
    }
}

fn missing_operand_error(kind: CommandKind, i: usize) -> (r: CliError)
    ensures
        r.exit_code == 2,
        r.message@ == options::with_usage(missing_operand_text(kind, i as int)),
{
    let session = kind == CommandKind::OiConnect || kind == CommandKind::OiArchive;
    let mut v = text::to_chars("missing ");
    if session && i == 0 {
        text::push_str(&mut v, "username");
    } else if session && i == 1 {
        text::push_str(&mut v, "password");
    } else {
        text::push_str(&mut v, "path");
    }
    text::push_str(&mut v, " for ");
    text::push_str(&mut v, kind.name());
    options::usage_error(v.as_slice())
}

fn empty_options() -> (r: CommandOptions)
    ensures
        r.deep_view() == options::no_options(),
{
    CommandOptions {
        at: None,
        event_at: None,
        lat: None,
        lon: None,
        hint: None,
        output: OutputFormat::Text,
    }
}

/// Reads a command line. `finite` says of each argument whether it is a finite
/// number, if it is one at all.
pub fn parse_invocation(args: &Vec<String>, finite: &Vec<bool>) -> (r: Result<Invocation, CliError>)
    ensures
        invocation_outcome(r) == invocation_of(args.deep_view(), finite@),
        r matches Err(e) ==> e.exit_code == 2,
{
    assert(args.deep_view().len() == args@.len());
    let (kind, words): (CommandKind, usize) = match read_command(args) {
        Ok(v) => v,
        Err(e) => {
            return Err(e);
        },
    };
    if kind == CommandKind::Help {
        return Ok(
            Invocation {
                kind,
                operand: words,
                options: empty_options(),
                session: OiOptions::new(),
            },
        );
    }
    let n: usize = kind.operands();
    if args.len() - words < n {
        return Err(missing_operand_error(kind, args.len() - words));
    }
    if kind == CommandKind::OiConnect || kind == CommandKind::OiArchive {
        return match oi_options::parse_oi_options(
            kind == CommandKind::OiArchive,
            args,
            words + n,
        ) {
            Ok(session) => Ok(
                Invocation { kind, operand: words, options: empty_options(), session },
            ),
            Err(e) => Err(e),
        };
    }
    let needs_at = kind == CommandKind::ActiveAt || kind == CommandKind::ArchiveActiveAt;
    let needs_event = kind == CommandKind::LeadTime || kind == CommandKind::ArchiveLeadTime;
    match options::parse_required_options(
        kind.name(),
        kind.accepts(),
        needs_at,
        needs_event,
        args,
        finite,
        words + n,
    ) {
        Ok(o) => Ok(
            Invocation { kind, operand: words, options: o, session: OiOptions::new() },
        ),
        Err(e) => Err(e),
    }
}

/// A command line that is understood names all operands of its command.
pub proof fn operands_are_there(args: Seq<Seq<char>>, finite: Seq<bool>)
    ensures
        invocation_of(args, finite) matches Ok(v) ==> v.operand + v.kind.spec_operands()
            <= args.len(),
{
}

} // verus!
