//! What command lines promise: which words name a command, which options each
//! command takes, what becomes of their values, and what is refused.

use vstd::prelude::*;

use crate::commands;
use crate::commands::CommandKind;
use crate::ingest::IngestHint;
use crate::input_laws;
use crate::number;
use crate::oi_options;
use crate::oi_options::{OiFlag, OiOptionsView};
use crate::options;
use crate::options::{Accepts, Flag, OptionsView, OutputFormat};
use crate::text;

verus! {

// ---------------------------------------------------------------------------
// Names
// ---------------------------------------------------------------------------

/// The formats go by these names, in any case, and by no others.
pub proof fn formats_go_by_their_names(raw: Seq<char>)
    ensures
        options::output_format(raw) == Some(OutputFormat::Text) <==> input_laws::is_word(
            raw,
            "text"@,
        ),
        options::output_format(raw) == Some(OutputFormat::Json) <==> input_laws::is_word(
            raw,
            "json"@,
        ),
        options::output_format(raw) == Some(OutputFormat::Jsonl) <==> input_laws::is_word(
            raw,
            "jsonl"@,
        ) || input_laws::is_word(raw, "json-lines"@) || input_laws::is_word(raw, "ndjson"@),
        options::output_format(raw) == Some(OutputFormat::ToolResult) <==> input_laws::is_word(
            raw,
            "tool-result"@,
        ) || input_laws::is_word(raw, "tool_result"@) || input_laws::is_word(
            raw,
            "wx.tool_result.v1"@,
        ),
{
    reveal_strlit("text");
    reveal_strlit("json");
    reveal_strlit("jsonl");
    reveal_strlit("json-lines");
    reveal_strlit("ndjson");
    reveal_strlit("tool-result");
    reveal_strlit("tool_result");
    reveal_strlit("wx.tool_result.v1");
    input_laws::words_are_told_in_any_case(raw, "text"@);
    input_laws::words_are_told_in_any_case(raw, "json"@);
    input_laws::words_are_told_in_any_case(raw, "jsonl"@);
    input_laws::words_are_told_in_any_case(raw, "json-lines"@);
    input_laws::words_are_told_in_any_case(raw, "ndjson"@);
    input_laws::words_are_told_in_any_case(raw, "tool-result"@);
    input_laws::words_are_told_in_any_case(raw, "tool_result"@);
    input_laws::words_are_told_in_any_case(raw, "wx.tool_result.v1"@);
    assert("text"@.len() == 4 && "json"@.len() == 4 && "text"@[0] == 't' && "json"@[0] == 'j');
    assert("jsonl"@.len() == 5 && "json-lines"@.len() == 10 && "ndjson"@.len() == 6);
    assert("tool-result"@.len() == 11 && "tool_result"@.len() == 11);
    assert("wx.tool_result.v1"@.len() == 17);
}

/// The hints go by these names, in any case, and by no others.
pub proof fn hints_go_by_their_names(raw: Seq<char>)
    ensures
        options::hint_of(raw) == Some(IngestHint::Auto) <==> input_laws::is_word(raw, "auto"@),
        options::hint_of(raw) == Some(IngestHint::OpenInterface) <==> input_laws::is_word(
            raw,
            "oi"@,
        ) || input_laws::is_word(raw, "open-interface"@) || input_laws::is_word(
            raw,
            "openinterface"@,
        ) || input_laws::is_word(raw, "xmpp"@),
        options::hint_of(raw) == Some(IngestHint::SatellitePid201) <==> input_laws::is_word(
            raw,
            "pid201"@,
        ) || input_laws::is_word(raw, "satellite"@) || input_laws::is_word(raw, "sat"@),
        options::hint_of(raw) == Some(IngestHint::RawBulletin) <==> input_laws::is_word(
            raw,
            "bulletin"@,
        ) || input_laws::is_word(raw, "raw"@) || input_laws::is_word(raw, "wmo"@),
        options::hint_of(raw) == Some(IngestHint::FramedStream) <==> input_laws::is_word(
            raw,
            "stream"@,
        ) || input_laws::is_word(raw, "framed-stream"@) || input_laws::is_word(raw, "framed"@),
{
    reveal_strlit("auto");
    reveal_strlit("oi");
    reveal_strlit("open-interface");
    reveal_strlit("openinterface");
    reveal_strlit("xmpp");
    reveal_strlit("pid201");
    reveal_strlit("satellite");
    reveal_strlit("sat");
    reveal_strlit("bulletin");
    reveal_strlit("raw");
    reveal_strlit("wmo");
    reveal_strlit("stream");
    reveal_strlit("framed-stream");
    reveal_strlit("framed");
    input_laws::words_are_told_in_any_case(raw, "auto"@);
    input_laws::words_are_told_in_any_case(raw, "oi"@);
    input_laws::words_are_told_in_any_case(raw, "open-interface"@);
    input_laws::words_are_told_in_any_case(raw, "openinterface"@);
    input_laws::words_are_told_in_any_case(raw, "xmpp"@);
    input_laws::words_are_told_in_any_case(raw, "pid201"@);
    input_laws::words_are_told_in_any_case(raw, "satellite"@);
    input_laws::words_are_told_in_any_case(raw, "sat"@);
    input_laws::words_are_told_in_any_case(raw, "bulletin"@);
    input_laws::words_are_told_in_any_case(raw, "raw"@);
    input_laws::words_are_told_in_any_case(raw, "wmo"@);
    input_laws::words_are_told_in_any_case(raw, "stream"@);
    input_laws::words_are_told_in_any_case(raw, "framed-stream"@);
    input_laws::words_are_told_in_any_case(raw, "framed"@);
    let s = text::lower(raw);
    assert("auto"@[0] == 'a' && "oi"@[0] == 'o' && "open-interface"@[0] == 'o');
    assert("openinterface"@[0] == 'o' && "xmpp"@[0] == 'x' && "pid201"@[0] == 'p');
    assert("satellite"@[1] == 'a' && "sat"@[1] == 'a' && "satellite"@[0] == 's' && "sat"@[0] == 's');
    assert("bulletin"@[0] == 'b' && "raw"@[0] == 'r' && "wmo"@[0] == 'w');
    assert("stream"@[0] == 's' && "stream"@[1] == 't' && "framed-stream"@[0] == 'f');
    assert("framed"@[0] == 'f');
}

/// What an argument is, by its name, where the command takes it. A command
/// that does not take it does not know it.
pub proof fn options_go_by_their_names(accepts: Accepts, arg: Seq<char>)
    ensures
        ({
            let hint = accepts == Accepts::HintOnly || accepts == Accepts::Common || accepts
                == Accepts::WithTime || accepts == Accepts::WithEvent;
            let format = accepts == Accepts::OutputOnly || accepts == Accepts::Common || accepts
                == Accepts::WithTime || accepts == Accepts::WithEvent;
            let f = options::flag_of(accepts, arg);
            &&& f == Flag::At <==> accepts == Accepts::WithTime && (arg == "--at"@ || arg
                == "--reference"@ || arg == "--reference-utc"@)
            &&& f == Flag::EventAt <==> accepts == Accepts::WithEvent && (arg == "--event-at"@
                || arg == "--event-time"@ || arg == "--event-utc"@)
            &&& f == Flag::Lat <==> accepts == Accepts::WithEvent && (arg == "--lat"@ || arg
                == "--latitude"@)
            &&& f == Flag::Lon <==> accepts == Accepts::WithEvent && (arg == "--lon"@ || arg
                == "--longitude"@)
            &&& f == Flag::Hint <==> hint && arg == "--hint"@
            &&& f == Flag::Format <==> format && arg == "--format"@
            &&& f == Flag::Json <==> format && arg == "--json"@
            &&& f == Flag::Jsonl <==> format && arg == "--jsonl"@
            &&& f == Flag::ToolResult <==> format && arg == "--tool-result"@
        }),
{
    reveal_strlit("--at");
    reveal_strlit("--reference");
    reveal_strlit("--reference-utc");
    reveal_strlit("--event-at");
    reveal_strlit("--event-time");
    reveal_strlit("--event-utc");
    reveal_strlit("--lat");
    reveal_strlit("--latitude");
    reveal_strlit("--lon");
    reveal_strlit("--longitude");
    reveal_strlit("--hint");
    reveal_strlit("--format");
    reveal_strlit("--json");
    reveal_strlit("--jsonl");
    reveal_strlit("--tool-result");
    assert("--at"@[2] == 'a' && "--reference"@[2] == 'r' && "--reference-utc"@[2] == 'r');
    assert("--event-at"@[2] == 'e' && "--event-time"@[2] == 'e' && "--event-utc"@[2] == 'e');
    assert("--lat"@[2] == 'l' && "--latitude"@[2] == 'l' && "--lon"@[2] == 'l');
    assert("--lat"@[3] == 'a' && "--latitude"@[3] == 'a' && "--lon"@[3] == 'o');
    assert("--longitude"@[3] == 'o' && "--longitude"@[2] == 'l' && "--hint"@[2] == 'h');
    assert("--format"@[2] == 'f' && "--json"@[2] == 'j' && "--jsonl"@[2] == 'j');
    assert("--json"@.len() == 6 && "--jsonl"@.len() == 7 && "--tool-result"@[2] == 't');
}

// ---------------------------------------------------------------------------
// Options
// ---------------------------------------------------------------------------

/// Whether what was given stays as it was.
pub open spec fn keeps_what_was_given(after: OptionsView, before: OptionsView) -> bool {
    &&& before.at is Some ==> after.at == before.at
    &&& before.event_at is Some ==> after.event_at == before.event_at
    &&& before.lat is Some ==> after.lat == before.lat
    &&& before.lon is Some ==> after.lon == before.lon
    &&& before.hint is Some ==> after.hint == before.hint
    &&& before.output != OutputFormat::Text ==> after.output == before.output
}

/// No later argument changes an option that was given.
pub proof fn options_are_given_once(
    command: Seq<char>,
    accepts: Accepts,
    args: Seq<Seq<char>>,
    finite: Seq<bool>,
    i: int,
    o: OptionsView,
)
    ensures
        options::options_from(command, accepts, args, finite, i, o) matches Ok(r)
            ==> keeps_what_was_given(r, o),
    decreases args.len() - i,
{
    if 0 <= i < args.len() {
        let flag = options::flag_of(accepts, args[i]);
        if flag != Flag::Unknown && !options::given(o, flag) {
            match options::short_format(flag) {
                Some(f) => {
                    let next = OptionsView { output: f, ..o };
                    options_are_given_once(command, accepts, args, finite, i + 1, next);
                },
                None => {
                    if i + 1 < args.len() {
                        let fine = i + 1 < finite.len() && finite[i + 1];
                        let step = options::with_value(command, flag, args[i + 1], fine, o);
                        if step is Ok {
                            options_are_given_once(
                                command,
                                accepts,
                                args,
                                finite,
                                i + 2,
                                step->Ok_0,
                            );
                        }
                    }
                },
            }
        }
    }
}

/// An option has the value behind its name. Where the arguments from `i` on
/// are read, the option that stands there was not given before, and it is set
/// to what follows it: a time to the text, a place to a number that is finite,
/// a hint and a format to those of the name; a short form sets its format.
pub proof fn options_have_the_value_behind_their_name(
    command: Seq<char>,
    accepts: Accepts,
    args: Seq<Seq<char>>,
    finite: Seq<bool>,
    i: int,
    o: OptionsView,
)
    requires
        0 <= i < args.len(),
    ensures
        options::options_from(command, accepts, args, finite, i, o) matches Ok(r) ==> {
            let f = options::flag_of(accepts, args[i]);
            &&& f != Flag::Unknown
            &&& f == Flag::At ==> i + 1 < args.len() && o.at is None && r.at == Some(args[i + 1])
            &&& f == Flag::EventAt ==> i + 1 < args.len() && o.event_at is None && r.event_at
                == Some(args[i + 1])
            &&& f == Flag::Lat ==> i + 1 < args.len() && o.lat is None && r.lat == Some(args[i + 1])
                && number::float_literal(args[i + 1]) && i + 1 < finite.len() && finite[i + 1]
            &&& f == Flag::Lon ==> i + 1 < args.len() && o.lon is None && r.lon == Some(args[i + 1])
                && number::float_literal(args[i + 1]) && i + 1 < finite.len() && finite[i + 1]
            &&& f == Flag::Hint ==> i + 1 < args.len() && o.hint is None && r.hint
                == options::hint_of(args[i + 1]) && r.hint is Some
            &&& f == Flag::Format ==> i + 1 < args.len() && o.output == OutputFormat::Text
                && options::output_format(args[i + 1]) is Some && (options::output_format(
                args[i + 1],
            )->0 != OutputFormat::Text ==> r.output == options::output_format(args[i + 1])->0)
            &&& f == Flag::Json ==> o.output == OutputFormat::Text && r.output
                == OutputFormat::Json
            &&& f == Flag::Jsonl ==> o.output == OutputFormat::Text && r.output
                == OutputFormat::Jsonl
            &&& f == Flag::ToolResult ==> o.output == OutputFormat::Text && r.output
                == OutputFormat::ToolResult
        },
{
    let flag = options::flag_of(accepts, args[i]);
    if flag != Flag::Unknown && !options::given(o, flag) {
        match options::short_format(flag) {
            Some(f) => {
                options_are_given_once(
                    command,
                    accepts,
                    args,
                    finite,
                    i + 1,
                    OptionsView { output: f, ..o },
                );
            },
            None => {
                if i + 1 < args.len() {
                    let fine = i + 1 < finite.len() && finite[i + 1];
                    let step = options::with_value(command, flag, args[i + 1], fine, o);
                    if step is Ok {
                        options_are_given_once(command, accepts, args, finite, i + 2, step->Ok_0);
                    }
                }
            },
        }
    }
}

/// A well-formed option is never refused: the arguments behind it are read as
/// they would be without it, but for what it sets.
pub proof fn well_formed_options_are_taken(
    command: Seq<char>,
    accepts: Accepts,
    args: Seq<Seq<char>>,
    finite: Seq<bool>,
    i: int,
    o: OptionsView,
)
    requires
        0 <= i < args.len(),
    ensures
        ({
            let f = options::flag_of(accepts, args[i]);
            let all = options::options_from(command, accepts, args, finite, i, o);
            let value = args[i + 1];
            let fine = i + 1 < finite.len() && finite[i + 1] && number::float_literal(value);
            &&& f == Flag::At && o.at is None && i + 1 < args.len() ==> all
                == options::options_from(
                command,
                accepts,
                args,
                finite,
                i + 2,
                OptionsView { at: Some(value), ..o },
            )
            &&& f == Flag::EventAt && o.event_at is None && i + 1 < args.len() ==> all
                == options::options_from(
                command,
                accepts,
                args,
                finite,
                i + 2,
                OptionsView { event_at: Some(value), ..o },
            )
            &&& f == Flag::Lat && o.lat is None && i + 1 < args.len() && fine ==> all
                == options::options_from(
                command,
                accepts,
                args,
                finite,
                i + 2,
                OptionsView { lat: Some(value), ..o },
            )
            &&& f == Flag::Lon && o.lon is None && i + 1 < args.len() && fine ==> all
                == options::options_from(
                command,
                accepts,
                args,
                finite,
                i + 2,
                OptionsView { lon: Some(value), ..o },
            )
            &&& f == Flag::Hint && o.hint is None && i + 1 < args.len() && options::hint_of(value)
                is Some ==> all == options::options_from(
                command,
                accepts,
                args,
                finite,
                i + 2,
                OptionsView { hint: options::hint_of(value), ..o },
            )
            &&& f == Flag::Json && o.output == OutputFormat::Text ==> all == options::options_from(
                command,
                accepts,
                args,
                finite,
                i + 1,
                OptionsView { output: OutputFormat::Json, ..o },
            )
        }),
        options::options_from(command, accepts, args, finite, args.len() as int, o) == Ok::<
            OptionsView,
            Seq<char>,
        >(o),
{
}

/// A command that asks about a time needs one, and one that asks about an
/// event needs its time and place; others need none.
pub proof fn queries_need_what_they_ask_about(kind: CommandKind, o: OptionsView)
    ensures
        ({
            let r = options::required(
                kind.spec_name(),
                kind.spec_needs_at(),
                kind.spec_needs_event(),
                Ok::<OptionsView, Seq<char>>(o),
            );
            let at = kind == CommandKind::ActiveAt || kind == CommandKind::ArchiveActiveAt;
            let event = kind == CommandKind::LeadTime || kind == CommandKind::ArchiveLeadTime;
            &&& r is Ok <==> (at ==> o.at is Some) && (event ==> o.event_at is Some && o.lat is Some
                && o.lon is Some)
            &&& r is Ok ==> r->Ok_0 == o
        }),
{
}

// ---------------------------------------------------------------------------
// Options of sessions
// ---------------------------------------------------------------------------

/// What an argument of a session is, by its name. What only the archiving
/// command takes the other one does not know.
pub proof fn session_options_go_by_their_names(archive: bool, arg: Seq<char>)
    ensures
        ({
            let f = oi_options::oi_flag_of(archive, arg);
            &&& arg == "--count"@ ==> f == OiFlag::Count
            &&& arg == "--max-messages"@ && archive ==> f == OiFlag::Count
            &&& arg == "--history"@ ==> f == OiFlag::History
            &&& arg == "--host"@ ==> f == OiFlag::Host
            &&& arg == "--port"@ ==> f == OiFlag::Port
            &&& arg == "--room"@ ==> f == OiFlag::Room
            &&& arg == "--domain"@ ==> f == OiFlag::Domain
            &&& arg == "--room-service"@ ==> f == OiFlag::RoomService
            &&& arg == "--nickname"@ ==> f == OiFlag::Nickname
            &&& arg == "--resource"@ ==> f == OiFlag::Resource
            &&& archive && (arg == "--duration"@ || arg == "--duration-seconds"@ || arg
                == "--max-seconds"@) ==> f == OiFlag::Duration
            &&& archive && arg == "--archive-duplicates"@ ==> f == OiFlag::ArchiveDuplicates
            &&& archive && arg == "--format"@ ==> f == OiFlag::Format
            &&& archive && arg == "--json"@ ==> f == OiFlag::Json
            &&& archive && arg == "--jsonl"@ ==> f == OiFlag::Jsonl
            &&& archive && arg == "--tool-result"@ ==> f == OiFlag::ToolResult
            &&& f == OiFlag::Count ==> arg == "--count"@ || (archive && arg == "--max-messages"@)
            &&& f == OiFlag::History ==> arg == "--history"@
            &&& f == OiFlag::Host ==> arg == "--host"@
            &&& f == OiFlag::Domain ==> arg == "--domain"@
            &&& f == OiFlag::Port ==> arg == "--port"@
            &&& f == OiFlag::Room ==> arg == "--room"@
            &&& f == OiFlag::RoomService ==> arg == "--room-service"@
            &&& f == OiFlag::Nickname ==> arg == "--nickname"@
            &&& f == OiFlag::Resource ==> arg == "--resource"@
            &&& f == OiFlag::Duration ==> archive && (arg == "--duration"@ || arg
                == "--duration-seconds"@ || arg == "--max-seconds"@)
            &&& f == OiFlag::ArchiveDuplicates ==> archive && arg == "--archive-duplicates"@
            &&& f == OiFlag::Format || f == OiFlag::Json || f == OiFlag::Jsonl || f
                == OiFlag::ToolResult ==> archive
        }),
{
    reveal_strlit("--count");
    reveal_strlit("--max-messages");
    reveal_strlit("--duration");
    reveal_strlit("--duration-seconds");
    reveal_strlit("--max-seconds");
    reveal_strlit("--history");
    reveal_strlit("--archive-duplicates");
    reveal_strlit("--host");
    reveal_strlit("--domain");
    reveal_strlit("--port");
    reveal_strlit("--room");
    reveal_strlit("--room-service");
    reveal_strlit("--nickname");
    reveal_strlit("--resource");
    reveal_strlit("--format");
    reveal_strlit("--json");
    reveal_strlit("--jsonl");
    reveal_strlit("--tool-result");
    assert("--room"@.len() == 6 && "--room-service"@.len() == 14 && "--resource"@[3] == 'e');
    assert("--room-service"@[3] == 'o' && "--room-service"@[2] == 'r' && "--resource"@[2] == 'r');
    assert("--room"@[3] == 'o' && "--nickname"@[2] == 'n' && "--format"@[2] == 'f');
    assert("--json"@[2] == 'j' && "--jsonl"@[2] == 'j' && "--tool-result"@[2] == 't');
    assert("--json"@.len() == 6 && "--jsonl"@.len() == 7);
    assert("--domain"@[3] == 'o' && "--duration"@[3] == 'u' && "--duration-seconds"@[3] == 'u');
    assert("--count"@[2] == 'c' && "--max-messages"@[2] == 'm' && "--duration"@[2] == 'd');
    assert("--duration-seconds"@[2] == 'd' && "--max-seconds"@[2] == 'm' && "--history"@[3] == 'i');
    assert("--max-messages"@[6] == 'm' && "--max-seconds"@[6] == 's');
    assert("--history"@[2] == 'h' && "--archive-duplicates"@[2] == 'a' && "--host"@[3] == 'o');
    assert("--host"@[2] == 'h' && "--domain"@[2] == 'd' && "--port"@[2] == 'p');
    assert("--room"@[2] == 'r');
}

/// An option of a session has the value behind its name: a number that fits,
/// of which the archiving command takes no zero count and no zero time, or the
/// text. All other options stay.
pub proof fn session_options_have_their_value(
    archive: bool,
    flag: OiFlag,
    value: Seq<char>,
    o: OiOptionsView,
)
    ensures
        ({
            let r = oi_options::oi_with_value(archive, flag, value, o);
            let count = number::unsigned(value, usize::MAX as int);
            let seconds = number::unsigned(value, u64::MAX as int);
            let history = number::unsigned(value, u32::MAX as int);
            let port = number::unsigned(value, 65535);
            &&& flag == OiFlag::Count ==> (r is Ok <==> count is Some && !(archive && count->0
                == 0)) && (r is Ok ==> r->Ok_0 == OiOptionsView { count: count->0, ..o })
            &&& flag == OiFlag::Duration ==> (r is Ok <==> seconds is Some && seconds->0 > 0) && (
            r is Ok ==> r->Ok_0 == OiOptionsView { duration_seconds: seconds, ..o })
            &&& flag == OiFlag::History ==> (r is Ok <==> history is Some) && (r is Ok ==> r->Ok_0
                == OiOptionsView { history: history->0, ..o })
            &&& flag == OiFlag::Port ==> (r is Ok <==> port is Some) && (r is Ok ==> r->Ok_0
                == OiOptionsView { port, ..o })
            &&& flag == OiFlag::Host ==> r is Ok && r->Ok_0 == OiOptionsView {
                host: Some(value),
                ..o
            }
            &&& flag == OiFlag::Domain ==> r is Ok && r->Ok_0 == OiOptionsView {
                domain: Some(value),
                ..o
            }
            &&& flag == OiFlag::Room ==> r is Ok && r->Ok_0 == OiOptionsView {
                room: Some(value),
                ..o
            }
            &&& flag == OiFlag::RoomService ==> r is Ok && r->Ok_0 == OiOptionsView {
                room_service: Some(value),
                ..o
            }
            &&& flag == OiFlag::Nickname ==> r is Ok && r->Ok_0 == OiOptionsView {
                nickname: Some(value),
                ..o
            }
            &&& flag == OiFlag::Resource ==> r is Ok && r->Ok_0 == OiOptionsView {
                resource: Some(value),
                ..o
            }
        }),
        number::unsigned(value, 65535) matches Some(n) ==> 0 <= n <= 65535,
{
    if let Some(n) = number::unsigned(value, 65535) {
        lemma_unsigned(value, 65535);
    }
    if let Some(n) = number::unsigned(value, u64::MAX as int) {
        lemma_unsigned(value, u64::MAX as int);
    }
}

proof fn lemma_unsigned(value: Seq<char>, max: int)
    ensures
        number::unsigned(value, max) matches Some(n) ==> 0 <= n <= max,
{
    if let Some(n) = number::unsigned(value, max) {
        let body = if value.len() > 0 && value[0] == '+' {
            value.skip(1)
        } else {
            value
        };
        number::lemma_digits_value_bound(body);
    }
}

/// A session without options reads one message, has no history and writes
/// text; the switches set what they are named for and nothing else. Only a
/// second format is refused.
pub proof fn sessions_read_one_message_unless_told(o: OiOptionsView, archive: bool, flag: OiFlag)
    ensures
        oi_options::no_oi_options().count == 1,
        oi_options::no_oi_options().history == 0,
        oi_options::no_oi_options().duration_seconds is None,
        !oi_options::no_oi_options().archive_duplicates,
        oi_options::no_oi_options().output == OutputFormat::Text,
        oi_options::oi_with_switch(OiFlag::ArchiveDuplicates, o) == Some(
            OiOptionsView { archive_duplicates: true, ..o },
        ),
        oi_options::oi_with_switch(OiFlag::Json, o) == Some(
            OiOptionsView { output: OutputFormat::Json, ..o },
        ),
        oi_options::oi_with_switch(OiFlag::Jsonl, o) == Some(
            OiOptionsView { output: OutputFormat::Jsonl, ..o },
        ),
        oi_options::oi_with_switch(OiFlag::ToolResult, o) == Some(
            OiOptionsView { output: OutputFormat::ToolResult, ..o },
        ),
        oi_options::oi_duplicate(archive, flag, o) is Some <==> o.output != OutputFormat::Text && (
        flag == OiFlag::Format || flag == OiFlag::Json || flag == OiFlag::Jsonl || flag
            == OiFlag::ToolResult),
{
}

/// The options of a session are read one behind the other: a switch by itself,
/// any other with the value behind it; of an option that is given again, the
/// last value counts. A name that is not known, and one without its value, is
/// refused.
pub proof fn session_options_are_read_in_turn(
    archive: bool,
    args: Seq<Seq<char>>,
    i: int,
    o: OiOptionsView,
)
    requires
        0 <= i <= args.len(),
    ensures
        ({
            let all = oi_options::oi_options_from(archive, args, i, o);
            let f = oi_options::oi_flag_of(archive, args[i]);
            let switch = f == OiFlag::ArchiveDuplicates || f == OiFlag::Json || f == OiFlag::Jsonl
                || f == OiFlag::ToolResult;
            let refused = oi_options::oi_duplicate(archive, f, o) is Some;
            &&& i == args.len() ==> all == Ok::<OiOptionsView, Seq<char>>(o)
            &&& i < args.len() && (f == OiFlag::Unknown || refused) ==> all is Err
            &&& i < args.len() && switch && !refused ==> all == oi_options::oi_options_from(
                archive,
                args,
                i + 1,
                oi_options::oi_with_switch(f, o)->0,
            )
            &&& i + 1 == args.len() && !switch ==> all is Err
            &&& i + 1 < args.len() && !switch && f != OiFlag::Unknown && !refused ==> {
                let step = oi_options::oi_with_value(archive, f, args[i + 1], o);
                &&& step is Err ==> all is Err
                &&& step is Ok ==> all == oi_options::oi_options_from(
                    archive,
                    args,
                    i + 2,
                    step->Ok_0,
                )
            }
        }),
{
}

// ---------------------------------------------------------------------------
// Commands
// ---------------------------------------------------------------------------

/// A command line names a command, has its operands behind the name and its
/// options behind them. A session takes two words before its options, an
/// archiving one three, splits, archives and imports two and all others one.
pub proof fn command_lines_are_name_operands_and_options(args: Seq<Seq<char>>, finite: Seq<bool>)
    ensures
        commands::invocation_of(args, finite) matches Ok(v) ==> {
            &&& commands::command_of(args) is Ok
            &&& v.kind == commands::command_of(args)->Ok_0.0
            &&& v.operand == commands::command_of(args)->Ok_0.1
            &&& v.kind != CommandKind::Help ==> {
                let n: int = if v.kind == CommandKind::OiArchive {
                    3
                } else if v.kind == CommandKind::OiConnect || v.kind == CommandKind::Pid201Split
                    || v.kind == CommandKind::Pid201Archive || v.kind
                    == CommandKind::ArchiveImport {
                    2
                } else {
                    1
                };
                &&& args.len() >= v.operand + n
                &&& if v.kind == CommandKind::OiConnect || v.kind == CommandKind::OiArchive {
                    oi_options::oi_options_from(
                        v.kind == CommandKind::OiArchive,
                        args,
                        v.operand + n,
                        oi_options::no_oi_options(),
                    ) == Ok::<OiOptionsView, Seq<char>>(v.session)
                } else {
                    options::options_from(
                        v.kind.spec_name(),
                        v.kind.spec_accepts(),
                        args,
                        finite,
                        v.operand + n,
                        options::no_options(),
                    ) == Ok::<OptionsView, Seq<char>>(v.options)
                }
            }
        },
        commands::command_of(args) is Err ==> commands::invocation_of(args, finite) is Err,
        commands::command_of(args) matches Ok(c) ==> c.0 == CommandKind::Help
            ==> commands::invocation_of(args, finite) is Ok,
{
}

/// The options that commands take: those that ask about a time take one,
/// those that ask about an event take its time and place, and both take a hint
/// and a format, as reading, replaying and importing do; a verification takes a
/// format.
pub proof fn commands_take_what_they_ask_about()
    ensures
        CommandKind::Inspect.spec_accepts() == Accepts::Common,
        CommandKind::Replay.spec_accepts() == Accepts::Common,
        CommandKind::ArchiveImport.spec_accepts() == Accepts::Common,
        CommandKind::ActiveAt.spec_accepts() == Accepts::WithTime,
        CommandKind::Timeline.spec_accepts() == Accepts::WithTime,
        CommandKind::ArchiveActiveAt.spec_accepts() == Accepts::WithTime,
        CommandKind::ArchiveTimeline.spec_accepts() == Accepts::WithTime,
        CommandKind::LeadTime.spec_accepts() == Accepts::WithEvent,
        CommandKind::ArchiveLeadTime.spec_accepts() == Accepts::WithEvent,
        CommandKind::ArchiveVerify.spec_accepts() == Accepts::OutputOnly,
        options::no_options().output == OutputFormat::Text,
        options::no_options().hint is None,
        options::no_options().at is None,
        options::no_options().event_at is None,
        options::no_options().lat is None,
        options::no_options().lon is None,
{
}

/// The commands go by these words, and by no others.
pub proof fn commands_go_by_their_words(args: Seq<Seq<char>>)
    requires
        args.len() >= 2,
    ensures
        ({
            let r = commands::command_of(args);
            let one = |k: CommandKind| r is Ok && r->Ok_0 == (k, 1int);
            let two = |k: CommandKind| r is Ok && r->Ok_0 == (k, 2int);
            let a = args[0];
            let b = args[1];
            &&& a == "help"@ || a == "-h"@ || a == "--help"@ ==> one(CommandKind::Help)
            &&& a == "inspect"@ ==> one(CommandKind::Inspect)
            &&& a == "replay"@ ==> one(CommandKind::Replay)
            &&& a == "active-at"@ || a == "active"@ ==> one(CommandKind::ActiveAt)
            &&& a == "timeline"@ ==> one(CommandKind::Timeline)
            &&& a == "lead-time"@ || a == "leadtime"@ ==> one(CommandKind::LeadTime)
            &&& a == "summary"@ ==> one(CommandKind::Summary)
            &&& a == "oi"@ && b == "connect"@ ==> two(CommandKind::OiConnect)
            &&& a == "oi"@ && b == "archive"@ ==> two(CommandKind::OiArchive)
            &&& a == "pid201"@ && b == "inspect"@ ==> two(CommandKind::Pid201Inspect)
            &&& a == "pid201"@ && b == "split"@ ==> two(CommandKind::Pid201Split)
            &&& a == "pid201"@ && b == "archive"@ ==> two(CommandKind::Pid201Archive)
            &&& a == "archive"@ && b == "import"@ ==> two(CommandKind::ArchiveImport)
            &&& a == "archive"@ && b == "verify"@ ==> two(CommandKind::ArchiveVerify)
            &&& a == "archive"@ && (b == "active-at"@ || b == "active"@) ==> two(
                CommandKind::ArchiveActiveAt,
            )
            &&& a == "archive"@ && b == "timeline"@ ==> two(CommandKind::ArchiveTimeline)
            &&& a == "archive"@ && (b == "lead-time"@ || b == "leadtime"@) ==> two(
                CommandKind::ArchiveLeadTime,
            )
            &&& r is Ok ==> r->Ok_0.1 == if a == "oi"@ || a == "pid201"@ || a == "archive"@ {
                2int
            } else {
                1int
            }
        }),
{
    reveal_strlit("help");
    reveal_strlit("-h");
    reveal_strlit("--help");
    reveal_strlit("inspect");
    reveal_strlit("replay");
    reveal_strlit("active-at");
    reveal_strlit("active");
    reveal_strlit("timeline");
    reveal_strlit("lead-time");
    reveal_strlit("leadtime");
    reveal_strlit("summary");
    reveal_strlit("oi");
    reveal_strlit("pid201");
    reveal_strlit("archive");
    reveal_strlit("connect");
    reveal_strlit("split");
    reveal_strlit("import");
    reveal_strlit("verify");
    assert("help"@[0] == 'h' && "-h"@[0] == '-' && "--help"@[0] == '-' && "inspect"@[0] == 'i');
    assert("replay"@[0] == 'r' && "active-at"@[0] == 'a' && "active"@[0] == 'a');
    assert("active-at"@[1] == 'c' && "active"@[1] == 'c' && "archive"@[1] == 'r');
    assert("timeline"@[0] == 't' && "lead-time"@[0] == 'l' && "leadtime"@[0] == 'l');
    assert("summary"@[0] == 's' && "oi"@[0] == 'o' && "pid201"@[0] == 'p');
    assert("archive"@[0] == 'a' && "connect"@[0] == 'c' && "split"@[0] == 's');
    assert("import"@[0] == 'i' && "verify"@[0] == 'v' && "import"@[1] == 'm');
}

// ---------------------------------------------------------------------------
// Numbers
// ---------------------------------------------------------------------------

pub open spec fn is_digits(s: Seq<char>) -> bool {
    forall|i: int| 0 <= i < s.len() ==> '0' <= #[trigger] s[i] <= '9'
}

proof fn lemma_run(s: Seq<char>, i: int, j: int)
    requires
        0 <= i <= j <= s.len(),
        forall|k: int| i <= k < j ==> '0' <= #[trigger] s[k] <= '9',
        j < s.len() ==> !('0' <= s[j] <= '9'),
    ensures
        number::digit_run(s, i) == j - i,
    decreases j - i,
{
    if i < j {
        assert('0' <= s[i] <= '9');
        lemma_run(s, i + 1, j);
    }
}

/// A number is an optional sign and digits, with a point before, behind or
/// among them or none.
pub proof fn decimal_numbers_are_numbers(sign: Seq<char>, a: Seq<char>, b: Seq<char>)
    requires
        sign.len() == 0 || sign == seq!['+'] || sign == seq!['-'],
        is_digits(a),
        is_digits(b),
        a.len() + b.len() > 0,
    ensures
        number::float_literal(sign + a + seq!['.'] + b),
        a.len() > 0 ==> number::float_literal(sign + a),
{
    let i = sign.len() as int;
    let j = i + a.len();
    let s = sign + a + seq!['.'] + b;
    assert forall|k: int| i <= k < j implies '0' <= #[trigger] s[k] <= '9' by {
        assert(s[k] == a[k - i]);
    }
    assert(s[j] == '.');
    lemma_run(s, i, j);
    assert forall|k: int| j + 1 <= k < s.len() implies '0' <= #[trigger] s[k] <= '9' by {
        assert(s[k] == b[k - j - 1]);
    }
    lemma_run(s, j + 1, s.len() as int);
    if i == 0 {
        if a.len() > 0 {
            assert(s[0] == a[0]);
        } else {
            assert(s[0] == '.');
        }
    } else {
        assert(s[0] == sign[0]);
    }
    assert(number::number_literal(s, i));
    if a.len() > 0 {
        let t = sign + a;
        assert forall|k: int| i <= k < t.len() implies '0' <= #[trigger] t[k] <= '9' by {
            assert(t[k] == a[k - i]);
        }
        lemma_run(t, i, t.len() as int);
        if i == 0 {
            assert(t[0] == a[0]);
        } else {
            assert(t[0] == sign[0]);
        }
        assert(number::number_literal(t, i));
    }
}

proof fn lemma_run_digits(s: Seq<char>, i: int)
    requires
        0 <= i <= s.len(),
    ensures
        0 <= number::digit_run(s, i) <= s.len() - i,
        forall|k: int| i <= k < i + number::digit_run(s, i) ==> '0' <= #[trigger] s[k] <= '9',
    decreases s.len() - i,
{
    if i < s.len() && text::is_digit(s[i]) {
        lemma_run_digits(s, i + 1);
    }
}

/// Whether a character stands in numbers.
pub open spec fn in_numbers(c: char) -> bool {
    ('0' <= c <= '9') || c == '+' || c == '-' || c == '.' || c == 'e' || c == 'E'
}

/// A number holds nothing but digits, signs, points and exponent marks, and
/// has a digit at `k`, unless it is one of the words for what is not finite.
pub proof fn numbers_hold_digits(s: Seq<char>) -> (k: int)
    ensures
        number::float_literal(s) ==> ((0 <= k < s.len() && '0' <= s[k] <= '9' && forall|i: int|
            0 <= i < s.len() ==> in_numbers(#[trigger] s[i])) || not_finite(s) || (s.len() > 0 && (
        s[0] == '+' || s[0] == '-') && not_finite(s.skip(1)))),
{
    let i: int = if s.len() > 0 && (s[0] == '+' || s[0] == '-') {
        1
    } else {
        0
    };
    reveal_strlit("inf");
    reveal_strlit("infinity");
    reveal_strlit("nan");
    input_laws::words_are_told_in_any_case(s.skip(i), "inf"@);
    input_laws::words_are_told_in_any_case(s.skip(i), "infinity"@);
    input_laws::words_are_told_in_any_case(s.skip(i), "nan"@);
    assert(s.skip(0) =~= s);
    lemma_run_digits(s, i);
    let whole = number::digit_run(s, i);
    let j = i + whole;
    if j < s.len() && s[j] == '.' {
        lemma_run_digits(s, j + 1);
        let e = j + 1 + number::digit_run(s, j + 1);
        lemma_exponent(s, e);
        if whole > 0 {
            i
        } else {
            j + 1
        }
    } else {
        lemma_exponent(s, j);
        i
    }
}

proof fn lemma_exponent(s: Seq<char>, i: int)
    requires
        0 <= i <= s.len(),
    ensures
        number::exponent_or_end(s, i) ==> forall|k: int|
            i <= k < s.len() ==> in_numbers(#[trigger] s[k]),
{
    if number::exponent_or_end(s, i) && i < s.len() {
        let j = if i + 1 < s.len() && (s[i + 1] == '+' || s[i + 1] == '-') {
            i + 2
        } else {
            i + 1
        };
        lemma_run_digits(s, j);
        crate::tag_laws::capitals(s[i]);
        assert(s[i] == 'e' || s[i] == 'E');
    }
}

/// Whether a text is a word for what is no finite number.
pub open spec fn not_finite(s: Seq<char>) -> bool {
    input_laws::is_word(s, "inf"@) || input_laws::is_word(s, "infinity"@) || input_laws::is_word(
        s,
        "nan"@,
    )
}

} // verus!
