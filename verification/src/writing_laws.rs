//! What written forms promise: line ends, references in markup, dates and
//! times, identifiers and counts read back as what they were written for.

use vstd::prelude::*;

use crate::active;
use crate::clock;
use crate::code_laws;
use crate::digest;
use crate::families;
use crate::lines;
use crate::number;
use crate::text;
use crate::ugc;
use crate::ugc::UgcPurgeTime;
use crate::vtec::PvtecView;
use crate::warning;
use crate::warning::StateView;
use crate::xml;

verus! {

// ---------------------------------------------------------------------------
// Line ends
// ---------------------------------------------------------------------------

/// So many carriage returns.
pub open spec fn carriages(n: nat) -> Seq<char> {
    Seq::new(n, |i: int| '\r')
}

pub open spec fn no_return(s: Seq<char>) -> bool {
    forall|i: int| 0 <= i < s.len() ==> #[trigger] s[i] != '\r'
}

proof fn lemma_plain_front(a: Seq<char>, b: Seq<char>)
    requires
        no_return(a),
    ensures
        lines::lf_text(a + b) == a + lines::lf_text(b),
    decreases a.len(),
{
    if a.len() == 0 {
        assert(a + b =~= b);
        assert(a + lines::lf_text(b) =~= lines::lf_text(b));
    } else {
        let s = a + b;
        assert(s[0] == a[0]);
        assert(s.skip(1) =~= a.skip(1) + b);
        lemma_plain_front(a.skip(1), b);
        assert(seq![a[0]] + (a.skip(1) + lines::lf_text(b)) =~= a + lines::lf_text(b));
    }
}

proof fn lemma_returns_gone(n: nat, b: Seq<char>)
    ensures
        lines::at_separator(carriages(n) + seq!['\n'] + b),
        lines::lf_text(carriages(n) + seq!['\n'] + b) == seq!['\n'] + lines::lf_text(b),
    decreases n,
{
    let s = carriages(n) + seq!['\n'] + b;
    if n == 0 {
        assert(s[0] == '\n');
        assert(s.skip(1) =~= b);
    } else {
        let m = (n - 1) as nat;
        lemma_returns_gone(m, b);
        assert(s[0] == '\r');
        assert(s.skip(1) =~= carriages(m) + seq!['\n'] + b);
    }
}

/// The carriage returns before a line feed are left out, however many, and
/// what stands before them stays. A carriage return that no line feed follows
/// stays too, and so does a text without any.
pub proof fn line_feeds_alone_end_lines(a: Seq<char>, n: nat, b: Seq<char>, c: char)
    requires
        no_return(a),
        c != '\r',
        c != '\n',
    ensures
        lines::lf_text(a + (carriages(n) + seq!['\n'] + b)) == a + (seq!['\n'] + lines::lf_text(b)),
        lines::lf_text(a + (seq!['\r', c] + b)) == a + (seq!['\r', c] + lines::lf_text(b)),
        lines::lf_text(a) == a,
{
    lemma_plain_front(a, carriages(n) + seq!['\n'] + b);
    lemma_returns_gone(n, b);
    let t = seq!['\r', c] + b;
    lemma_plain_front(a, t);
    let u = t.skip(1);
    assert(t[0] == '\r' && u[0] == c);
    assert(!lines::at_separator(u));
    assert(u.skip(1) =~= b);
    assert(lines::lf_text(u) =~= seq![c] + lines::lf_text(b));
    assert(lines::lf_text(t) =~= seq!['\r', c] + lines::lf_text(b));
    let none = Seq::<char>::empty();
    lemma_plain_front(a, none);
    assert(a + none =~= a);
    assert(a + lines::lf_text(none) =~= a);
}

// ---------------------------------------------------------------------------
// Markup
// ---------------------------------------------------------------------------

/// The five named references stand for these characters; any other name is
/// read as a number, decimal behind a hash and hexadecimal behind a hash and
/// an x, or not at all.
pub proof fn references_stand_for_characters(name: Seq<char>)
    ensures
        xml::entity(seq!['a', 'm', 'p']) == Some('&'),
        xml::entity(seq!['l', 't']) == Some('<'),
        xml::entity(seq!['g', 't']) == Some('>'),
        xml::entity(seq!['q', 'u', 'o', 't']) == Some('"'),
        xml::entity(seq!['a', 'p', 'o', 's']) == Some('\''),
        name.len() > 0 && name[0] != '#' && xml::entity(name) is Some ==> name == seq![
            'a',
            'm',
            'p',
        ] || name == seq!['l', 't'] || name == seq!['g', 't'] || name == seq!['q', 'u', 'o', 't']
            || name == seq!['a', 'p', 'o', 's'],
        name.len() > 1 && name[0] == '#' && (forall|i: int|
            1 <= i < name.len() ==> '0' <= #[trigger] name[i] <= '9') && 0x20
            <= number::digits_value(name.skip(1)) <= 0xD7FF ==> xml::entity(name) is Some
            && xml::entity(name)->0 as int == number::digits_value(name.skip(1)),
{
    reveal_strlit("amp");
    reveal_strlit("lt");
    reveal_strlit("gt");
    reveal_strlit("quot");
    reveal_strlit("apos");
    let amp = seq!['a', 'm', 'p'];
    let lt = seq!['l', 't'];
    let gt = seq!['g', 't'];
    let quot = seq!['q', 'u', 'o', 't'];
    let apos = seq!['a', 'p', 'o', 's'];
    assert("amp"@ =~= amp);
    assert("lt"@ =~= lt);
    assert("gt"@ =~= gt);
    assert("quot"@ =~= quot);
    assert("apos"@ =~= apos);
    assert(lt[0] == 'l' && gt[0] == 'g' && amp.len() == 3 && quot[0] == 'q' && apos[0] == 'a');
    assert(amp[0] == 'a');
    if name.len() > 1 && name[0] == '#' && (forall|i: int|
        1 <= i < name.len() ==> '0' <= #[trigger] name[i] <= '9') {
        let digits = name.skip(1);
        assert forall|i: int| 0 <= i < digits.len() implies text::is_digit(
            #[trigger] digits[i],
        ) by {
            assert(digits[i] == name[i + 1]);
        }
        assert('0' <= name[1] <= '9');
    }
}

proof fn lemma_escape_join(a: Seq<char>, b: Seq<char>, attr: bool)
    ensures
        xml::escape(a + b, attr) == xml::escape(a, attr) + xml::escape(b, attr),
    decreases a.len(),
{
    if a.len() == 0 {
        assert(a + b =~= b);
        assert(xml::escape(a, attr) + xml::escape(b, attr) =~= xml::escape(b, attr));
    } else {
        let s = a + b;
        assert(s[0] == a[0]);
        assert(s.skip(1) =~= a.skip(1) + b);
        lemma_escape_join(a.skip(1), b, attr);
        assert(xml::escape(s, attr) =~= xml::escape(a, attr) + xml::escape(b, attr));
    }
}

/// A text is written in markup character by character. Ampersand and brackets
/// become references everywhere, quotes only in attributes; all else stands as
/// it is.
pub proof fn markup_is_written_character_by_character(
    a: Seq<char>,
    b: Seq<char>,
    c: char,
    attr: bool,
)
    ensures
        xml::escape(a + b, attr) == xml::escape(a, attr) + xml::escape(b, attr),
        xml::escape(Seq::empty(), attr) == Seq::<char>::empty(),
        xml::escape(seq!['&'], attr) == seq!['&', 'a', 'm', 'p', ';'],
        xml::escape(seq!['<'], attr) == seq!['&', 'l', 't', ';'],
        xml::escape(seq!['>'], attr) == seq!['&', 'g', 't', ';'],
        xml::escape(seq!['"'], true) == seq!['&', 'q', 'u', 'o', 't', ';'],
        xml::escape(seq!['\''], true) == seq!['&', 'a', 'p', 'o', 's', ';'],
        c != '&' && c != '<' && c != '>' && (attr ==> c != '"' && c != '\'') ==> xml::escape(
            seq![c],
            attr,
        ) == seq![c],
{
    lemma_escape_join(a, b, attr);
    reveal_strlit("&amp;");
    reveal_strlit("&lt;");
    reveal_strlit("&gt;");
    reveal_strlit("&quot;");
    reveal_strlit("&apos;");
    lemma_escape_one('&', attr);
    lemma_escape_one('<', attr);
    lemma_escape_one('>', attr);
    lemma_escape_one('"', true);
    lemma_escape_one('\'', true);
    lemma_escape_one(c, attr);
    assert("&amp;"@ =~= seq!['&', 'a', 'm', 'p', ';']);
    assert("&lt;"@ =~= seq!['&', 'l', 't', ';']);
    assert("&gt;"@ =~= seq!['&', 'g', 't', ';']);
    assert("&quot;"@ =~= seq!['&', 'q', 'u', 'o', 't', ';']);
    assert("&apos;"@ =~= seq!['&', 'a', 'p', 'o', 's', ';']);
}

proof fn lemma_escape_one(c: char, attr: bool)
    ensures
        xml::escape(seq![c], attr) == xml::escape_char(c, attr),
{
    let s = seq![c];
    assert(s.skip(1) =~= Seq::<char>::empty());
    assert(xml::escape(s.skip(1), attr) =~= Seq::<char>::empty());
    assert(xml::escape_char(c, attr) + Seq::<char>::empty() =~= xml::escape_char(c, attr));
}

// ---------------------------------------------------------------------------
// Characters
// ---------------------------------------------------------------------------

/// Which characters are white, letters, digits and parts of names, by their
/// code.
pub proof fn characters_are_of_their_kind(c: char)
    ensures
        ({
            let n = c as int;
            &&& text::is_ascii_white(c) <==> n == 9 || n == 10 || n == 12 || n == 13 || n == 32
            &&& text::is_ascii_white(c) ==> text::is_white(c)
            &&& n < 128 ==> (text::is_white(c) <==> text::is_ascii_white(c) || n == 11)
            &&& n == 0x85 || n == 0xa0 || n == 0x1680 || 0x2000 <= n <= 0x200a || n == 0x2028 || n
                == 0x2029 || n == 0x202f || n == 0x205f || n == 0x3000 ==> text::is_white(c)
            &&& n > 0x3000 ==> !text::is_white(c)
            &&& text::is_digit(c) <==> 48 <= n <= 57
            &&& text::is_upper(c) <==> 65 <= n <= 90
            &&& text::is_lower(c) <==> 97 <= n <= 122
            &&& text::is_alnum(c) <==> 48 <= n <= 57 || 65 <= n <= 90 || 97 <= n <= 122
            &&& xml::is_name_char(c) <==> text::is_alnum(c) || n == 45 || n == 46 || n == 58 || n
                == 95
        }),
{
}

/// A UTC offset is less than a day, before or behind, in whole minutes.
pub proof fn offsets_are_whole_minutes_below_a_day(offset: int)
    ensures
        clock::is_offset(offset) <==> (exists|minutes: int|
            -1440 < minutes < 1440 && offset == #[trigger] (minutes * 60)),
{
    if clock::is_offset(offset) {
        let minutes = offset / 60;
        assert(offset == minutes * 60);
        assert(-1440 < minutes < 1440);
    }
}

// ---------------------------------------------------------------------------
// Dates and times
// ---------------------------------------------------------------------------

proof fn lemma_two_digits(n: nat)
    requires
        n < 100,
    ensures
        number::padded(n, 2).len() == 2,
        code_laws::pair_at(number::padded(n, 2), 0) == n,
{
    reveal_with_fuel(number::decimal, 3);
}

proof fn lemma_four_digits(n: nat)
    requires
        n < 10000,
    ensures
        number::padded(n, 4).len() == 4,
        code_laws::pair_at(number::padded(n, 4), 0) * 100 + code_laws::pair_at(
            number::padded(n, 4),
            2,
        ) == n,
{
    reveal_with_fuel(number::decimal, 5);
}

/// A date is written with four digits for the year, two for the month and two
/// for the day, in this order and with the mark between each two.
pub proof fn dates_are_year_month_and_day(year: int, month: int, day: int, mark: char)
    requires
        0 <= year < 10000,
        1 <= month <= 12,
        1 <= day <= 31,
    ensures
        ({
            let s = clock::date_text((year, month, day), seq![mark]);
            &&& s.len() == 10
            &&& code_laws::pair_at(s, 0) * 100 + code_laws::pair_at(s, 2) == year
            &&& s[4] == mark
            &&& code_laws::pair_at(s, 5) == month
            &&& s[7] == mark
            &&& code_laws::pair_at(s, 8) == day
        }),
{
    lemma_four_digits(year as nat);
    lemma_two_digits(month as nat);
    lemma_two_digits(day as nat);
    let s = clock::date_text((year, month, day), seq![mark]);
    let y = number::padded(year as nat, 4);
    let m = number::padded(month as nat, 2);
    let d = number::padded(day as nat, 2);
    assert(s[0] == y[0] && s[1] == y[1] && s[2] == y[2] && s[3] == y[3]);
    assert(s[5] == m[0] && s[6] == m[1] && s[8] == d[0] && s[9] == d[1]);
}

/// The purge time of an area is written in six digits: day, hour, minute.
pub proof fn purge_times_are_day_hour_and_minute(p: UgcPurgeTime)
    requires
        p.day <= 31,
        p.hour < 24,
        p.minute < 60,
    ensures
        ugc::purge_text(p).len() == 6,
        code_laws::pair_at(ugc::purge_text(p), 0) == p.day,
        code_laws::pair_at(ugc::purge_text(p), 2) == p.hour,
        code_laws::pair_at(ugc::purge_text(p), 4) == p.minute,
        1 <= p.day ==> ugc::parse_purge(ugc::purge_text(p)) == Some(p),
{
    lemma_two_digits(p.day as nat);
    lemma_two_digits(p.hour as nat);
    lemma_two_digits(p.minute as nat);
    let s = ugc::purge_text(p);
    let d = number::padded(p.day as nat, 2);
    let h = number::padded(p.hour as nat, 2);
    let m = number::padded(p.minute as nat, 2);
    assert(s[0] == d[0] && s[1] == d[1] && s[2] == h[0] && s[3] == h[1] && s[4] == m[0] && s[5]
        == m[1]);
    number::lemma_padded_reads_back(p.day as nat, 2);
    number::lemma_padded_reads_back(p.hour as nat, 2);
    number::lemma_padded_reads_back(p.minute as nat, 2);
    assert forall|i: int| 0 <= i < s.len() implies text::is_digit(#[trigger] s[i]) by {
        assert(text::is_digit(d[0]) && text::is_digit(d[1]));
        assert(text::is_digit(h[0]) && text::is_digit(h[1]));
        assert(text::is_digit(m[0]) && text::is_digit(m[1]));
    }
    assert(number::all_digits(s));
}

/// An instant is written with its date, the hour, the minute and the second in
/// two digits each, and a Z; with a fraction of a second only where it has
/// one.
pub proof fn instants_are_written_by_date_and_time(nanos: int)
    requires
        clock::writable(nanos),
        nanos % 1_000_000_000 == 0,
        0 <= clock::calendar(clock::julian_of(nanos)).0 < 10000,
        1 <= clock::calendar(clock::julian_of(nanos)).1 <= 12,
        1 <= clock::calendar(clock::julian_of(nanos)).2 <= 31,
    ensures
        ({
            let s = clock::utc_text(nanos);
            let date = clock::calendar(clock::julian_of(nanos));
            let of_day = (nanos / 1_000_000_000) % 86_400;
            &&& s.len() == 20
            &&& s.take(10) == clock::date_text(date, seq!['-'])
            &&& s[10] == 'T'
            &&& code_laws::pair_at(s, 11) == of_day / 3600
            &&& s[13] == ':'
            &&& code_laws::pair_at(s, 14) == (of_day / 60) % 60
            &&& s[16] == ':'
            &&& code_laws::pair_at(s, 17) == of_day % 60
            &&& s[19] == 'Z'
        }),
        clock::written(Some(nanos)) == Some(clock::utc_text(nanos)),
        clock::written(None) is None,
{
    reveal_strlit("-");
    reveal_strlit("T");
    reveal_strlit(":");
    reveal_strlit("Z");
    assert("-"@ =~= seq!['-']);
    let date = clock::calendar(clock::julian_of(nanos));
    let of_day = (nanos / 1_000_000_000) % 86_400;
    assert((nanos % 86_400_000_000_000) / 1_000_000_000 == of_day && (nanos % 86_400_000_000_000)
        % 1_000_000_000 == 0) by (nonlinear_arith)
        requires
            nanos % 1_000_000_000 == 0,
            of_day == (nanos / 1_000_000_000) % 86_400,
    ;
    assert(clock::NANOS_PER_DAY == 86_400_000_000_000);
    assert(clock::NANOS_PER_SECOND == 1_000_000_000);
    assert(nanos + 0 * clock::NANOS_PER_SECOND == nanos);
    dates_are_year_month_and_day(date.0, date.1, date.2, '-');
    let d = clock::date_text(date, seq!['-']);
    let h = number::padded((of_day / 3600) as nat, 2);
    let m = number::padded((of_day / 60 % 60) as nat, 2);
    let x = number::padded((of_day % 60) as nat, 2);
    lemma_two_digits((of_day / 3600) as nat);
    lemma_two_digits((of_day / 60 % 60) as nat);
    lemma_two_digits((of_day % 60) as nat);
    let s = clock::utc_text(nanos);
    assert(s =~= d + "T"@ + h + ":"@ + m + ":"@ + x + Seq::<char>::empty() + "Z"@);
    assert(s.take(10) =~= d);
    assert(s[11] == h[0] && s[12] == h[1] && s[14] == m[0] && s[15] == m[1] && s[17] == x[0]
        && s[18] == x[1]);
}

// ---------------------------------------------------------------------------
// Numbers
// ---------------------------------------------------------------------------

/// The number that hexadecimal digits stand for.
pub open spec fn hex_value(c: char) -> int {
    if '0' <= c <= '9' {
        c as int - 48
    } else {
        c as int - 87
    }
}

/// A hexadecimal number has as many digits as it was given, the last one
/// counting ones and the others sixteenfold what they count without it.
pub proof fn hexadecimal_digits_count_sixteens(n: nat, width: nat)
    ensures
        number::hex(n, width).len() == width,
        width > 0 ==> number::hex(n, width).drop_last() == number::hex(
            n / 16,
            (width - 1) as nat,
        ),
        width > 0 ==> hex_value(number::hex(n, width).last()) == n % 16,
        width > 0 ==> digest::is_hex_digit(number::hex(n, width).last()),
    decreases width,
{
    if width > 0 {
        hexadecimal_digits_count_sixteens(n / 16, (width - 1) as nat);
        assert(number::hex(n, width).drop_last() =~= number::hex(n / 16, (width - 1) as nat));
        let d = (n % 16) as int;
        assert(number::hex_char(d) as int == if d < 10 {
            48 + d
        } else {
            87 + d
        });
    }
}

/// The digest of bytes starts from the offset basis; each byte is mixed in and
/// the result multiplied by the prime, in 64 bits. It is written in sixteen
/// hexadecimal digits.
pub proof fn digests_mix_in_every_byte(bytes: Seq<u8>, b: u8)
    ensures
        digest::fnv1a(Seq::empty()) == 14695981039346656037u64,
        digest::fnv1a(bytes.push(b)) == ((digest::fnv1a(bytes) ^ (b as u64)) * 1099511628211)
            % 0x1_0000_0000_0000_0000,
        digest::digest_text(bytes).len() == 16,
        digest::digest_text(bytes) == number::hex(digest::fnv1a(bytes) as nat, 16),
{
    assert(bytes.push(b).drop_last() =~= bytes);
    hexadecimal_digits_count_sixteens(digest::fnv1a(bytes) as nat, 16);
}

/// A number without sign is digits, with a plus before them or not, and is at
/// most the largest that is taken.
pub proof fn unsigned_numbers_are_digits(s: Seq<char>, max: int)
    requires
        s.len() > 0,
        forall|i: int| 0 <= i < s.len() ==> '0' <= #[trigger] s[i] <= '9',
    ensures
        number::unsigned(s, max) is Some <==> number::digits_value(s) <= max,
        number::unsigned(s, max) is Some ==> number::unsigned(s, max)->0 == number::digits_value(
            s,
        ),
        number::unsigned(seq!['+'] + s, max) == number::unsigned(s, max),
        number::unsigned(seq!['-'] + s, max) is None,
        number::unsigned(Seq::empty(), max) is None,
{
    assert(number::all_digits(s));
    let p = seq!['+'] + s;
    assert(p[0] == '+');
    assert(p.skip(1) =~= s);
    let m = seq!['-'] + s;
    assert(m[0] == '-');
    assert(!text::is_digit(m[0]));
    assert('0' <= s[0] <= '9');
}

// ---------------------------------------------------------------------------
// Records
// ---------------------------------------------------------------------------

/// The key of a record names its event, where it came from, and the message,
/// the segment and the line it stands on; records of one source at different
/// places have different keys.
pub proof fn record_keys_name_the_place(
    event: Seq<char>,
    source: Seq<char>,
    a: (nat, nat, nat),
    b: (nat, nat, nat),
)
    ensures
        warning::record_key_text(event, source, a.0 as int, a.1 as int, a.2 as int) == event
            + "|source="@ + source + "|message="@ + number::decimal(a.0) + "|segment="@
            + number::decimal(a.1) + "|vtec="@ + number::decimal(a.2),
        a.0 == b.0 && a.1 == b.1 && a.2 != b.2 ==> warning::record_key_text(
            event,
            source,
            a.0 as int,
            a.1 as int,
            a.2 as int,
        ) != warning::record_key_text(event, source, b.0 as int, b.1 as int, b.2 as int),
{
    let head = event + "|source="@ + source + "|message="@ + number::decimal(a.0) + "|segment="@
        + number::decimal(a.1) + "|vtec="@;
    if a.0 == b.0 && a.1 == b.1 && a.2 != b.2 {
        let x = head + number::decimal(a.2);
        let y = head + number::decimal(b.2);
        if x == y {
            assert(x.skip(head.len() as int) =~= number::decimal(a.2));
            assert(y.skip(head.len() as int) =~= number::decimal(b.2));
            number::lemma_decimal_reads_back(a.2);
            number::lemma_decimal_reads_back(b.2);
        }
    }
}

/// An event belongs to the family of its phenomenon; one of no such family to
/// that of the product.
pub proof fn events_belong_to_the_family_of_their_phenomenon(p: PvtecView, product: Seq<char>)
    ensures
        families::phenomenon_text(p.phenomenon) is Some ==> warning::event_family_text(p, product)
            == families::phenomenon_text(p.phenomenon)->0,
        families::phenomenon_text(p.phenomenon) is None ==> warning::event_family_text(p, product)
            == product,
{
}

/// Whether two records stand in one message: in one input, with one number.
pub open spec fn in_one_message(a: StateView, b: StateView) -> bool {
    a.record.source_path == b.record.source_path && a.record.message_index
        == b.record.message_index
}

/// Messages that were issued after the reference time are counted once each.
/// Where every record stands in a message of its own, that is every record
/// that was issued after it; several records of one message, all issued after
/// it, are one.
pub proof fn later_messages_are_counted_once(states: Seq<StateView>, reference: int, n: int)
    requires
        0 <= n <= states.len(),
    ensures
        (forall|i: int|
            0 < i < states.len() ==> !in_one_message(states[i - 1], #[trigger] states[i]))
            ==> active::future_messages(states, reference, n) == states.take(n).filter(
            |s: StateView| s.issued_at matches Some(t) && t > reference,
        ).len(),
        n > 0 && (forall|i: int|
            0 < i < states.len() ==> in_one_message(states[i - 1], #[trigger] states[i])) && (
        forall|i: int|
            0 <= i < states.len() ==> ((#[trigger] states[i]).issued_at matches Some(t) && t
                > reference)) ==> active::future_messages(states, reference, n) == 1,
    decreases n,
{
    reveal(Seq::filter);
    if n > 0 {
        later_messages_are_counted_once(states, reference, n - 1);
        let t = states.take(n);
        assert(t.drop_last() =~= states.take(n - 1));
        assert(t.last() == states[n - 1]);
        assert(active::future_messages(states, reference, 0) == 0);
        if n >= 2 && (forall|i: int|
            0 <= i < states.len() ==> ((#[trigger] states[i]).issued_at matches Some(t) && t
                > reference)) {
            assert(states[n - 2].issued_at is Some);
        }
    }
}

} // verus!
