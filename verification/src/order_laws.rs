//! What names and orders promise: dictionary order, the order of paths, the
//! days of a reference time, and what an index of fingerprints holds.

use vstd::prelude::*;

use crate::capture;
use crate::clock;
use crate::code_laws;
use crate::keeping_laws;
use crate::oi;
use crate::oi::OiMessageView;
use crate::oi_archive;
use crate::path_order;
use crate::runtime;
use crate::runtime::{PreparedView, RecordSource, ServiceView};
use crate::serve;
use crate::serve::Reference;
use crate::tally;
use crate::text;
use crate::writing_laws;

verus! {

// ---------------------------------------------------------------------------
// Texts
// ---------------------------------------------------------------------------

/// A text comes before another exactly if they agree up to a place, at `k`
/// here, where it ends and the other goes on or where its character is the
/// smaller one.
pub proof fn dictionary_order_goes_by_the_first_difference(a: Seq<char>, b: Seq<char>, k: int)
    requires
        0 <= k <= a.len(),
        k <= b.len(),
        forall|i: int| 0 <= i < k ==> a[i] == #[trigger] b[i],
        k == a.len() || k == b.len() || a[k] != b[k],
    ensures
        tally::before(a, b) <==> (k == a.len() && k < b.len()) || (k < a.len() && k < b.len() && a[k]
            < b[k]),
    decreases a.len(),
{
    if k > 0 {
        assert(a[0] == b[0]);
        let x = a.skip(1);
        let y = b.skip(1);
        assert forall|i: int| 0 <= i < k - 1 implies x[i] == #[trigger] y[i] by {
            assert(a[i + 1] == b[i + 1]);
        }
        dictionary_order_goes_by_the_first_difference(x, y, k - 1);
    }
}

proof fn lemma_split_join(a: Seq<char>, b: Seq<char>, c: char)
    ensures
        text::split(a + seq![c] + b, c) == text::split(a, c) + text::split(b, c),
    decreases a.len(),
{
    let s = a + seq![c] + b;
    text::lemma_index_from(a, c, 0);
    let k = text::index_from(a, c, 0);
    if k < a.len() {
        assert(s[k] == c);
        assert forall|j: int| 0 <= j < k implies #[trigger] s[j] != c by {
            assert(s[j] == a[j]);
        }
        text::lemma_index_is(s, c, 0, k);
        let rest = a.skip(k + 1);
        assert(s.take(k) =~= a.take(k));
        assert(s.skip(k + 1) =~= rest + seq![c] + b);
        lemma_split_join(rest, b, c);
        assert(seq![a.take(k)] + (text::split(rest, c) + text::split(b, c)) =~= (seq![a.take(k)]
            + text::split(rest, c)) + text::split(b, c));
    } else {
        let n = a.len() as int;
        assert(s[n] == c);
        assert forall|j: int| 0 <= j < n implies #[trigger] s[j] != c by {
            assert(s[j] == a[j]);
        }
        text::lemma_index_is(s, c, 0, n);
        assert(s.take(n) =~= a);
        assert(s.skip(n + 1) =~= b);
    }
}

/// The pieces of a text between marks: a text without the mark is one piece,
/// and two texts with a mark between them have the pieces of both.
pub proof fn pieces_stand_between_marks(a: Seq<char>, b: Seq<char>, mark: char)
    ensures
        text::split(a + seq![mark] + b, mark) == text::split(a, mark) + text::split(b, mark),
        !a.contains(mark) ==> text::split(a, mark) == seq![a],
{
    lemma_split_join(a, b, mark);
    text::lemma_index_from(a, mark, 0);
    let k = text::index_from(a, mark, 0);
    if k < a.len() {
        assert(a[k] == mark);
        assert(a.contains(mark));
    }
}

// ---------------------------------------------------------------------------
// Paths
// ---------------------------------------------------------------------------

proof fn lemma_components_same(p: Seq<Seq<char>>, q: Seq<Seq<char>>, n: int)
    requires
        0 <= n <= p.len(),
        p.len() <= q.len(),
        p.len() > 0,
        p[0].len() == 0 ==> p.len() > 1,
        forall|i: int| 0 <= i < p.len() ==> #[trigger] q[i] == p[i],
    ensures
        path_order::components_among(q, n) == path_order::components_among(p, n),
    decreases n,
{
    if n > 0 {
        lemma_components_same(p, q, n - 1);
        assert(q[n - 1] == p[n - 1]);
    }
}

/// Whether a text names a file or directory in its parent.
pub open spec fn is_plain_name(x: Seq<char>) -> bool {
    x.len() > 0 && !x.contains('/') && x != seq!['.']
}

/// A name below a path is one more component of it; a slash behind a path
/// makes no other path of it; and a name by itself is its only component.
pub proof fn names_below_a_path_are_components(path: Seq<char>, x: Seq<char>)
    requires
        path.len() > 0,
        is_plain_name(x),
    ensures
        path_order::components(path + seq!['/'] + x) == path_order::components(path).push(x),
        path_order::components(x) == seq![x],
        path_order::components(path + seq!['/']) == path_order::components(path),
{
    let p = text::split(path, '/');
    let none = Seq::<char>::empty();
    pieces_stand_between_marks(path, x, '/');
    pieces_stand_between_marks(path, none, '/');
    pieces_stand_between_marks(x, none, '/');
    pieces_stand_between_marks(none, none, '/');
    assert(path + seq!['/'] + none =~= path + seq!['/']);
    let q = text::split(path + seq!['/'] + x, '/');
    let r = text::split(path + seq!['/'], '/');
    assert(q =~= p.push(x));
    assert(text::split(none, '/') =~= seq![none]);
    assert(r =~= p.push(none));
    assert(text::split(x, '/') =~= seq![x]);
    let one = seq![x];
    assert(one[0] == x);
    assert(path_order::components_among(one, 0) =~= Seq::<Seq<char>>::empty());
    assert(path_order::components_among(one, 1) =~= seq![x]);
    text::lemma_index_from(path, '/', 0);
    let k = text::index_from(path, '/', 0);
    if k >= path.len() {
        assert(p =~= seq![path]);
    } else {
        assert(p =~= seq![path.take(k)] + text::split(path.skip(k + 1), '/'));
        lemma_some_piece(path.skip(k + 1));
        assert(p.len() > 1);
    }
    lemma_components_same(p, q, p.len() as int);
    lemma_components_same(p, r, p.len() as int);
    assert(q[p.len() as int] == x);
    assert(r[p.len() as int] == none);
}

proof fn lemma_some_piece(s: Seq<char>)
    ensures
        text::split(s, '/').len() > 0,
{
}

/// Paths go by their first component that differs: one that is not there
/// before any other, then nothing before the current directory, the parent
/// and names, and names by the dictionary.
pub proof fn paths_go_by_their_components(a: Seq<Seq<char>>, b: Seq<Seq<char>>, k: int)
    requires
        0 <= k <= a.len(),
        k <= b.len(),
        forall|i: int| 0 <= i < k ==> a[i] == #[trigger] b[i],
        k == a.len() || k == b.len() || a[k] != b[k],
    ensures
        path_order::parts_before(a, b) <==> (k == a.len() && k < b.len()) || (k < a.len() && k
            < b.len() && path_order::part_before(a[k], b[k])),
        k < a.len() && k < b.len() && is_plain_name(a[k]) && is_plain_name(b[k]) && a[k] != seq![
            '.',
            '.',
        ] && b[k] != seq!['.', '.'] ==> (path_order::part_before(a[k], b[k]) <==> tally::before(
            a[k],
            b[k],
        )),
        path_order::part_before(Seq::empty(), seq!['.']),
        path_order::part_before(seq!['.'], seq!['.', '.']),
        k < b.len() && is_plain_name(b[k]) && b[k] != seq!['.', '.'] ==> path_order::part_before(
            seq!['.', '.'],
            b[k],
        ),
    decreases a.len(),
{
    let dot = seq!['.'];
    let dots = seq!['.', '.'];
    assert(dot.len() == 1 && dots.len() == 2);
    if k > 0 {
        assert(a[0] == b[0]);
        let x = a.skip(1);
        let y = b.skip(1);
        assert forall|i: int| 0 <= i < k - 1 implies x[i] == #[trigger] y[i] by {
            assert(a[i + 1] == b[i + 1]);
        }
        paths_go_by_their_components(x, y, k - 1);
    }
}

// ---------------------------------------------------------------------------
// Days
// ---------------------------------------------------------------------------

/// The day of a reference time is that of its own clock: the UTC offset is
/// added to the instant before the day is taken.
pub proof fn reference_days_are_local(r: Reference)
    ensures
        serve::reference_day(r) == clock::julian_of(r.nanos + r.offset * 1_000_000_000),
        r.offset == 0 ==> serve::reference_day(r) == clock::julian_of(r.nanos as int),
{
    assert(clock::NANOS_PER_SECOND == 1_000_000_000);
    if r.offset == 0 {
        assert(r.offset * clock::NANOS_PER_SECOND == 0) by (nonlinear_arith)
            requires
                r.offset == 0,
        ;
    }
}

/// The directory of a day has its year in four digits, its month and its day
/// in two, with slashes between them, and is where records of that day are
/// archived.
pub proof fn days_have_the_directory_that_records_go_to(julian: int)
    requires
        0 <= clock::calendar(julian).0 < 10000,
        1 <= clock::calendar(julian).1 <= 12,
        1 <= clock::calendar(julian).2 <= 31,
    ensures
        serve::day_directory(julian) == clock::date_text(clock::calendar(julian), seq!['/']),
        serve::day_directory(julian).len() == 10,
        code_laws::pair_at(serve::day_directory(julian), 0) * 100 + code_laws::pair_at(
            serve::day_directory(julian),
            2,
        ) == clock::calendar(julian).0,
        code_laws::pair_at(serve::day_directory(julian), 5) == clock::calendar(julian).1,
        code_laws::pair_at(serve::day_directory(julian), 8) == clock::calendar(julian).2,
{
    let date = clock::calendar(julian);
    writing_laws::dates_are_year_month_and_day(date.0, date.1, date.2, '/');
}

/// A text can be a fingerprint exactly if it is not empty and has letters and
/// digits only.
pub proof fn fingerprints_are_letters_and_digits(s: Seq<char>)
    ensures
        serve::can_be_fingerprint(s) <==> s.len() > 0 && forall|i: int|
            0 <= i < s.len() ==> ('a' <= #[trigger] s[i] <= 'z') || ('A' <= s[i] <= 'Z') || ('0'
                <= s[i] <= '9'),
{
}

// ---------------------------------------------------------------------------
// Fingerprints that were seen
// ---------------------------------------------------------------------------

/// An index holds what its lines hold: that of two parts with a line feed
/// between them holds what either holds, and a line holds its text without
/// white space around it, if any is left.
pub proof fn indexes_hold_a_fingerprint_on_each_line(a: Seq<char>, b: Seq<char>, f: Seq<char>)
    ensures
        runtime::index_set(a + seq!['\n'] + b).contains(f) <==> runtime::index_set(a).contains(f)
            || runtime::index_set(b).contains(f),
        !a.contains('\n') ==> (runtime::index_set(a).contains(f) <==> f.len() > 0 && text::trim(a)
            == f),
{
    pieces_stand_between_marks(a, b, '\n');
    let x = text::split(a, '\n');
    let y = text::split(b, '\n');
    let all = x + y;
    if runtime::names(all, f) {
        let i = choose|i: int| 0 <= i < all.len() && text::trim(#[trigger] all[i]) == f;
        if i < x.len() {
            assert(text::trim(x[i]) == f);
        } else {
            assert(text::trim(y[i - x.len()]) == f);
        }
    }
    if runtime::names(x, f) {
        let i = choose|i: int| 0 <= i < x.len() && text::trim(#[trigger] x[i]) == f;
        assert(text::trim(all[i]) == f);
    }
    if runtime::names(y, f) {
        let i = choose|i: int| 0 <= i < y.len() && text::trim(#[trigger] y[i]) == f;
        assert(text::trim(all[i + x.len()]) == f);
    }
    if !a.contains('\n') {
        assert(x == seq![a]);
        if text::trim(a) == f {
            assert(text::trim(x[0]) == f);
        }
    }
}

/// A service that saw several messages knows their fingerprints and those it
/// knew before, and no others.
pub proof fn services_know_what_came_before(
    service: ServiceView,
    records: Seq<PreparedView>,
    f: Seq<char>,
)
    ensures
        runtime::after_records(service, records).seen.contains(f) <==> service.seen.contains(f)
            || exists|i: int| 0 <= i < records.len() && (#[trigger] records[i]).fingerprint == f,
        runtime::after_records(service, records).router == service.router,
        runtime::after_records(service, records).archive_duplicates == service.archive_duplicates,
    decreases records.len(),
{
    if records.len() > 0 {
        let rest = records.drop_last();
        services_know_what_came_before(service, rest, f);
        assert(forall|i: int| 0 <= i < rest.len() ==> rest[i] == records[i]);
        assert(records.last() == records[records.len() - 1]);
    }
}

/// What is done about the messages of an input: message `i` as a service does
/// that saw those before it.
pub proof fn messages_are_handled_in_turn(
    service: ServiceView,
    records: Seq<PreparedView>,
    i: int,
)
    requires
        0 <= i < records.len(),
    ensures
        runtime::plans_for(service, records).len() == records.len(),
        runtime::plans_for(service, records)[i].record == records[i],
        runtime::plans_for(service, records)[i].remember <==> !service.seen.contains(
            records[i].fingerprint,
        ) && forall|j: int|
            0 <= j < i ==> (#[trigger] records[j]).fingerprint != records[i].fingerprint,
{
    let before = records.take(i);
    services_know_what_came_before(service, before, records[i].fingerprint);
    assert(forall|j: int| 0 <= j < i ==> before[j] == records[j]);
    if exists|j: int|
        0 <= j < i && (#[trigger] records[j]).fingerprint == records[i].fingerprint {
        let j = choose|j: int|
            0 <= j < i && (#[trigger] records[j]).fingerprint == records[i].fingerprint;
        assert(before[j].fingerprint == records[i].fingerprint);
    }
}

/// A live message is kept exactly if it has a payload whose issue time can be
/// written and whose bulletin is read, at a time that can be written. What is
/// kept is its archive form, with the identifier and the issue time of the
/// payload.
pub proof fn live_messages_are_kept_in_archive_form(m: OiMessageView, now: int)
    ensures
        ({
            let r = capture::live_record(m, now);
            let p = m.payload->0;
            let issue = clock::rfc3339_text(p.instant, p.utc_offset);
            &&& r is Ok <==> m.payload is Some && clock::writable_at(p.instant, p.utc_offset)
                && oi::payload_content(p) is Ok && clock::writable(now)
            &&& r is Ok ==> keeping_laws::keeps(
                r->Ok_0,
                RecordSource::OpenInterface,
                vstd::utf8::encode_utf8(oi_archive::archive_xml(m, p, issue)),
                oi::payload_content(p)->Ok_0,
                (Some(oi_archive::id_text(p.id)), Some(issue)),
                now,
            )
        }),
{
    reveal_strlit("/");
    assert("/"@ =~= seq!['/']);
}

} // verus!
