//! What the HTTP service promises: which products pass a filter, which days a
//! query looks at, and how the intake is counted.

use vstd::prelude::*;

use crate::clock;
use crate::families;
use crate::oi;
use crate::oi::OiPayloadView;
use crate::product::ProductFamily;
use crate::runtime::ArchiveRecordView;
use crate::serve;
use crate::serve::{FilterView, IngestEventView, LiveProductView, StatusView};
use crate::tag_laws;
use crate::text;

verus! {

// ---------------------------------------------------------------------------
// Filters
// ---------------------------------------------------------------------------

/// Whether two words are the same, the case of ASCII letters aside.
pub open spec fn same_word(a: Seq<char>, b: Seq<char>) -> bool {
    a.len() == b.len() && forall|i: int|
        0 <= i < a.len() ==> tag_laws::same_letter(#[trigger] a[i], b[i])
}

/// Whether a word begins with another, the case of ASCII letters aside.
pub open spec fn word_begins(a: Seq<char>, prefix: Seq<char>) -> bool {
    prefix.len() <= a.len() && same_word(a.take(prefix.len() as int), prefix)
}

proof fn lemma_lower_letter(a: char, b: char)
    ensures
        (text::lower_char(a) == text::lower_char(b)) == tag_laws::same_letter(a, b),
        (text::upper_char(a) == text::upper_char(b)) == tag_laws::same_letter(a, b),
{
    tag_laws::capitals(a);
    tag_laws::capitals(b);
}

proof fn lemma_same_word(a: Seq<char>, b: Seq<char>)
    ensures
        serve::same_ignoring_case(a, b) == same_word(a, b),
        (text::upper(a) == text::upper(b)) == same_word(a, b),
{
    let x = text::lower(a);
    let y = text::lower(b);
    let u = text::upper(a);
    let v = text::upper(b);
    assert forall|i: int| 0 <= i < a.len() && a.len() == b.len() implies (x[i] == y[i])
        == tag_laws::same_letter(#[trigger] a[i], b[i]) && (u[i] == v[i]) == tag_laws::same_letter(
        a[i],
        b[i],
    ) by {
        lemma_lower_letter(a[i], b[i]);
    }
    if same_word(a, b) {
        assert(x =~= y);
        assert(u =~= v);
    }
    if x == y {
        assert(x.len() == y.len());
        assert forall|i: int| 0 <= i < a.len() implies tag_laws::same_letter(
            #[trigger] a[i],
            b[i],
        ) by {
            assert(x[i] == y[i]);
        }
    }
    if u == v {
        assert(u.len() == v.len());
        assert forall|i: int| 0 <= i < a.len() implies tag_laws::same_letter(
            #[trigger] a[i],
            b[i],
        ) by {
            assert(u[i] == v[i]);
        }
    }
}

proof fn lemma_word_begins(a: Seq<char>, prefix: Seq<char>)
    ensures
        serve::begins_ignoring_case(a, prefix) == word_begins(a, prefix),
{
    if prefix.len() <= a.len() {
        let head = a.take(prefix.len() as int);
        assert(text::upper(a).take(prefix.len() as int) =~= text::upper(head));
        lemma_same_word(head, prefix);
    }
}

/// Whether an office passes the part of a filter that asks for one.
pub open spec fn office_passes(filter: FilterView, cccc: Seq<char>) -> bool {
    filter.office is Some ==> same_word(cccc, filter.office->0)
}

/// Whether an AWIPS identifier passes the part of a filter that asks for a
/// beginning.
pub open spec fn pil_passes(filter: FilterView, awips_id: Seq<char>) -> bool {
    filter.pil is Some ==> word_begins(awips_id, filter.pil->0)
}

/// A stored product passes a filter exactly where its office is the one asked
/// for, its AWIPS identifier begins with the letters asked for, and its family
/// is the one asked for, by its slug or by its stored name; case aside, and
/// each only where it is asked for.
pub proof fn stored_products_pass_by_office_pil_and_family(
    filter: FilterView,
    cccc: Seq<char>,
    awips_id: Seq<char>,
    family: Seq<char>,
)
    ensures
        serve::sidecar_passes(filter, cccc, awips_id, family) <==> office_passes(filter, cccc)
            && pil_passes(filter, awips_id) && (filter.family is Some ==> same_word(
            family,
            filter.family->0,
        ) || same_word(serve::stored_slug(family), filter.family->0)),
{
    if filter.office is Some {
        lemma_same_word(cccc, filter.office->0);
    }
    if filter.pil is Some {
        lemma_word_begins(awips_id, filter.pil->0);
    }
    if filter.family is Some {
        lemma_same_word(family, filter.family->0);
        lemma_same_word(serve::stored_slug(family), filter.family->0);
    }
}

/// A live product passes a filter exactly where its office is the one asked
/// for, its AWIPS identifier begins with the letters asked for, and it was
/// archived under the family asked for; case aside, and each only where it is
/// asked for.
pub proof fn live_products_pass_by_office_pil_and_family(
    filter: FilterView,
    product: LiveProductView,
)
    ensures
        serve::filter_passes(filter, product) <==> office_passes(filter, product.cccc)
            && pil_passes(filter, product.awips_id) && (filter.family is Some ==> product.metadata
            is Some && same_word(
            families::family_slug_text((product.metadata->0).family),
            filter.family->0,
        )),
{
    if filter.office is Some {
        lemma_same_word(product.cccc, filter.office->0);
    }
    if filter.pil is Some {
        lemma_word_begins(product.awips_id, filter.pil->0);
    }
    if filter.family is Some && product.metadata is Some {
        lemma_same_word(
            families::family_slug_text((product.metadata->0).family),
            filter.family->0,
        );
    }
}

/// A filter that asks for nothing lets every product pass.
pub proof fn empty_filters_let_all_pass(
    filter: FilterView,
    product: LiveProductView,
    cccc: Seq<char>,
    awips_id: Seq<char>,
    family: Seq<char>,
)
    requires
        filter.office is None,
        filter.pil is None,
        filter.family is None,
    ensures
        serve::filter_passes(filter, product),
        serve::sidecar_passes(filter, cccc, awips_id, family),
{
}

/// The name that stored metadata gives a family.
pub open spec fn stored_name(family: ProductFamily) -> Seq<char> {
    match family {
        ProductFamily::Tornado => "Tornado"@,
        ProductFamily::SevereThunderstorm => "SevereThunderstorm"@,
        ProductFamily::FlashFlood => "FlashFlood"@,
        ProductFamily::Flood => "Flood"@,
        ProductFamily::Marine => "Marine"@,
        ProductFamily::Discussion => "Discussion"@,
        ProductFamily::Forecast => "Forecast"@,
        ProductFamily::Statement => "Statement"@,
        ProductFamily::Hydrology => "Hydrology"@,
        ProductFamily::Watch => "Watch"@,
        ProductFamily::Advisory => "Advisory"@,
        ProductFamily::Administrative => "Administrative"@,
        ProductFamily::Unknown => "Unknown"@,
    }
}

/// A stored name stands for a family exactly where it is the name of that
/// family.
pub proof fn stored_names_are_read_back(name: Seq<char>, family: ProductFamily)
    ensures
        serve::stored_family(name) == Some(family) <==> name == stored_name(family),
        serve::stored_slug(stored_name(family)) == families::family_slug_text(family),
{
    reveal_strlit("Tornado");
    reveal_strlit("SevereThunderstorm");
    reveal_strlit("FlashFlood");
    reveal_strlit("Flood");
    reveal_strlit("Marine");
    reveal_strlit("Discussion");
    reveal_strlit("Forecast");
    reveal_strlit("Statement");
    reveal_strlit("Hydrology");
    reveal_strlit("Watch");
    reveal_strlit("Advisory");
    reveal_strlit("Administrative");
    reveal_strlit("Unknown");
    let n = stored_name(family);
    assert(n == "Tornado"@ ==> n[0] == 'T');
    assert(n == "SevereThunderstorm"@ ==> n[0] == 'S' && n[1] == 'e');
    assert(n == "FlashFlood"@ ==> n[0] == 'F' && n[2] == 'a');
    assert(n == "Flood"@ ==> n[0] == 'F' && n[2] == 'o' && n.len() == 5);
    assert(n == "Marine"@ ==> n[0] == 'M');
    assert(n == "Discussion"@ ==> n[0] == 'D');
    assert(n == "Forecast"@ ==> n[0] == 'F' && n[2] == 'r');
    assert(n == "Statement"@ ==> n[0] == 'S' && n[1] == 't');
    assert(n == "Hydrology"@ ==> n[0] == 'H');
    assert(n == "Watch"@ ==> n[0] == 'W');
    assert(n == "Advisory"@ ==> n[0] == 'A' && n.len() == 8);
    assert(n == "Administrative"@ ==> n[0] == 'A' && n.len() == 14);
    assert(n == "Unknown"@ ==> n[0] == 'U');
}

/// Discussions, forecasts and administrative messages are not scanned for
/// warnings unless all families are asked for.
pub proof fn families_without_warnings_are_not_scanned()
    ensures
        !serve::relevant_family(families::family_slug_text(ProductFamily::Discussion)),
        !serve::relevant_family(families::family_slug_text(ProductFamily::Forecast)),
        !serve::relevant_family(families::family_slug_text(ProductFamily::Administrative)),
{
}

// ---------------------------------------------------------------------------
// Live products
// ---------------------------------------------------------------------------

/// A live product shows what its payload holds and, of the copies that were
/// archived, the first.
pub proof fn live_products_show_their_payload(
    payload: OiPayloadView,
    duplicate: bool,
    records: Seq<ArchiveRecordView>,
)
    ensures
        ({
            let p = serve::live_product(payload, duplicate, serve::first_record(records));
            &&& p.duplicate == duplicate
            &&& p.cccc == payload.cccc
            &&& p.ttaaii == payload.ttaaii
            &&& p.awips_id == payload.awips_id
            &&& p.raw_bulletin == payload.raw_bulletin
            &&& p.issue == oi::written_issue(payload)
            &&& records.len() == 0 ==> p.fingerprint is None && p.metadata is None
            &&& records.len() > 0 ==> p.fingerprint == Some(records[0].fingerprint) && p.metadata
                == Some(records[0].metadata)
        }),
{
}

// ---------------------------------------------------------------------------
// Windows
// ---------------------------------------------------------------------------

/// A query looks back as many days as are asked for, or as many as it does by
/// itself; never less than one, and never more than ninety-two.
pub proof fn lookbacks_are_clamped(asked: Option<u32>, default: u32)
    ensures
        ({
            let days = serve::lookback(asked, default);
            &&& 1 <= days <= 92
            &&& asked is Some && 1 <= asked->0 <= 92 ==> days == asked->0
            &&& asked is Some && asked->0 > 92 ==> days == 92
            &&& asked is Some && asked->0 == 0 ==> days == 1
            &&& asked is None && 1 <= default <= 92 ==> days == default
        }),
{
}

/// A query looks at a day exactly where it is no further from the reference
/// than the window, and not after today.
pub proof fn windows_hold_the_days_around_the_reference(
    reference: int,
    today: int,
    days: u32,
    day: int,
)
    requires
        clock::FIRST_JULIAN_DAY <= reference <= clock::LAST_JULIAN_DAY,
        clock::FIRST_JULIAN_DAY <= today <= clock::LAST_JULIAN_DAY,
        clock::FIRST_JULIAN_DAY <= day <= clock::LAST_JULIAN_DAY,
        days > 0,
        reference + days - 1 <= clock::LAST_JULIAN_DAY,
    ensures
        ({
            let w = serve::day_window(reference, today, days);
            w.0 <= day <= w.1 <==> reference - days < day < reference + days && day <= today
        }),
{
}

/// The directories of a window are those of its days, one for each, in order.
pub proof fn windows_list_every_day(window: (int, int), day: int)
    requires
        window.0 <= day <= window.1,
    ensures
        serve::day_directories(window).len() == window.1 - window.0 + 1,
        serve::day_directories(window)[day - window.0] == serve::day_directory(day),
{
}

/// Without a reference time, or with the word for it, a query is about the
/// present; else about the instant that its text stands for.
pub proof fn references_are_read_or_now(at: Seq<char>, now: i128, nanos: int, offset: int)
    ensures
        serve::reference_of(None, now) == Ok::<(int, int), Seq<char>>((now as int, 0)),
        at == seq!['n', 'o', 'w'] ==> serve::reference_of(Some(at), now) == Ok::<
            (int, int),
            Seq<char>,
        >((now as int, 0)),
        at != seq!['n', 'o', 'w'] ==> serve::reference_of(Some(at), now) == clock::rfc3339_reading(
            at,
        ),
{
    reveal_strlit("now");
    assert("now"@ =~= seq!['n', 'o', 'w']);
}

proof fn lemma_placed_keeps_ties(order: Seq<int>, times: Seq<Option<int>>, n: int)
    requires
        forall|i: int| 0 <= i < order.len() ==> #[trigger] order[i] < n,
        forall|i: int, j: int|
            #![trigger order[i], order[j]]
            0 <= i < j < order.len() && times[order[i]] == times[order[j]] ==> order[i] < order[j],
    ensures
        ({
            let r = serve::placed(order, times, n);
            &&& forall|i: int| 0 <= i < r.len() ==> #[trigger] r[i] <= n
            &&& forall|i: int, j: int|
                #![trigger r[i], r[j]]
                0 <= i < j < r.len() && times[r[i]] == times[r[j]] ==> r[i] < r[j]
        }),
    decreases order.len(),
{
    if order.len() > 0 && !serve::not_older(times[order.last()], times[n]) {
        let rest = order.drop_last();
        assert forall|i: int, j: int|
            #![trigger rest[i], rest[j]]
            0 <= i < j < rest.len() && times[rest[i]] == times[rest[j]] implies rest[i]
            < rest[j] by {
            assert(rest[i] == order[i] && rest[j] == order[j]);
        }
        lemma_placed_keeps_ties(rest, times, n);
        let inner = serve::placed(rest, times, n);
        let r = inner.push(order.last());
        lemma_placed_members(rest, times, n);
        assert forall|i: int, j: int|
            #![trigger r[i], r[j]]
            0 <= i < j < r.len() && times[r[i]] == times[r[j]] implies r[i] < r[j] by {
            if j == inner.len() {
                if inner[i] != n {
                    assert(rest.contains(inner[i]));
                    let k = rest.index_of(inner[i]);
                    assert(order[k] == inner[i]);
                    assert(order[order.len() - 1] == order.last());
                }
            } else {
                assert(r[i] == inner[i] && r[j] == inner[j]);
            }
        }
    }
}

proof fn lemma_placed_members(order: Seq<int>, times: Seq<Option<int>>, n: int)
    ensures
        forall|i: int|
            0 <= i < serve::placed(order, times, n).len() ==> (#[trigger] serve::placed(
                order,
                times,
                n,
            )[i] == n || order.contains(serve::placed(order, times, n)[i])),
    decreases order.len(),
{
    let r = serve::placed(order, times, n);
    if order.len() > 0 && !serve::not_older(times[order.last()], times[n]) {
        let rest = order.drop_last();
        lemma_placed_members(rest, times, n);
        let inner = serve::placed(rest, times, n);
        assert forall|i: int| 0 <= i < r.len() implies (#[trigger] r[i] == n || order.contains(
            r[i],
        )) by {
            if i < inner.len() {
                assert(r[i] == inner[i]);
                if inner[i] != n {
                    let k = rest.index_of(inner[i]);
                    assert(order[k] == inner[i]);
                }
            } else {
                assert(order[order.len() - 1] == r[i]);
            }
        }
    } else {
        assert forall|i: int| 0 <= i < r.len() implies (#[trigger] r[i] == n || order.contains(
            r[i],
        )) by {
            if i < order.len() {
                assert(order[i] == r[i]);
            }
        }
    }
}

/// Recent products of the same time keep their order.
pub proof fn recent_products_of_one_time_keep_their_order(times: Seq<Option<int>>, n: int)
    requires
        0 <= n <= times.len(),
    ensures
        ({
            let r = serve::newest_first(times, n);
            &&& forall|i: int| 0 <= i < r.len() ==> #[trigger] r[i] < n
            &&& forall|i: int, j: int|
                #![trigger r[i], r[j]]
                0 <= i < j < r.len() && times[r[i]] == times[r[j]] ==> r[i] < r[j]
        }),
    decreases n,
{
    if n > 0 {
        recent_products_of_one_time_keep_their_order(times, n - 1);
        lemma_placed_keeps_ties(serve::newest_first(times, n - 1), times, n - 1);
    }
}

/// A capture time that is later comes first; unknown times come last.
pub proof fn newer_products_come_first(a: Option<int>, b: Option<int>)
    ensures
        a is Some && b is Some ==> (serve::not_older(a, b) <==> a->0 >= b->0),
        a is Some && b is None ==> serve::not_older(a, b) && !serve::not_older(b, a),
{
}

// ---------------------------------------------------------------------------
// Ingest status
// ---------------------------------------------------------------------------

/// One more, starting again at zero after the largest number.
pub open spec fn one_more(n: u64) -> int {
    if n == u64::MAX {
        0
    } else {
        n + 1
    }
}

/// Every event changes what it is about and leaves the rest: connections set
/// the flag, failures are counted by their kind and leave their error, and a
/// message is counted as read and as a copy or as archived.
pub proof fn events_count_what_they_are_about(s: StatusView, event: IngestEventView)
    ensures
        ({
            let t = serve::status_after(s, event);
            match event {
                IngestEventView::StoreFailed(e) => t == (StatusView {
                    last_error: Some("failed to open dedupe store: "@ + e),
                    ..s
                }),
                IngestEventView::Connected => t == (StatusView { connected: true, ..s }),
                IngestEventView::ConnectFailed(e) => {
                    &&& t.connect_failures == one_more(s.connect_failures)
                    &&& t.last_error == Some(e)
                    &&& (StatusView {
                        connect_failures: s.connect_failures,
                        last_error: s.last_error,
                        ..t
                    }) == s
                },
                IngestEventView::MessageProcessed { duplicate, at } => {
                    &&& t.messages_read == one_more(s.messages_read)
                    &&& duplicate ==> t.duplicate_records == one_more(s.duplicate_records)
                        && t.archived_records == s.archived_records
                    &&& !duplicate ==> t.archived_records == one_more(s.archived_records)
                        && t.duplicate_records == s.duplicate_records
                    &&& t.last_message_at == at
                    &&& t.connected == s.connected
                    &&& t.reconnects == s.reconnects
                    &&& t.last_error == s.last_error
                    &&& t.ingest_failures == s.ingest_failures
                    &&& t.connect_failures == s.connect_failures
                },
                IngestEventView::IngestFailed(e) => {
                    &&& t.ingest_failures == one_more(s.ingest_failures)
                    &&& t.last_error == Some(e)
                    &&& (StatusView {
                        ingest_failures: s.ingest_failures,
                        last_error: s.last_error,
                        ..t
                    }) == s
                },
                IngestEventView::Disconnected(e) => {
                    &&& !t.connected
                    &&& t.reconnects == one_more(s.reconnects)
                    &&& e is Some ==> t.last_error == e
                    &&& e is None ==> t.last_error == s.last_error
                    &&& (StatusView {
                        connected: s.connected,
                        reconnects: s.reconnects,
                        last_error: s.last_error,
                        ..t
                    }) == s
                },
                IngestEventView::ShuttingDown => !t.connected && (StatusView {
                    connected: s.connected,
                    ..t
                }) == s,
                IngestEventView::MessageSkipped => t == s,
                IngestEventView::SilentRead => t == s,
            }
        }),
{
}

} // verus!
