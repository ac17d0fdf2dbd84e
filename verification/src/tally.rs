//! Counts by name, kept in the order of the names.

use vstd::prelude::*;

use crate::text;
use crate::timeline_report;

verus! {

// ---------------------------------------------------------------------------
// The order of texts
// ---------------------------------------------------------------------------

/// Whether a text comes before another in dictionary order.
pub open spec fn before(a: Seq<char>, b: Seq<char>) -> bool
    decreases a.len(),
{
    if b.len() == 0 {
        false
    } else if a.len() == 0 {
        true
    } else if a[0] != b[0] {
        a[0] < b[0]
    } else {
        before(a.skip(1), b.skip(1))
    }
}

/// No text comes before itself.
pub proof fn before_is_irreflexive(a: Seq<char>)
    ensures
        !before(a, a),
    decreases a.len(),
{
    if a.len() > 0 {
        before_is_irreflexive(a.skip(1));
    }
}

/// The order is transitive.
pub proof fn before_is_transitive(a: Seq<char>, b: Seq<char>, c: Seq<char>)
    requires
        before(a, b),
        before(b, c),
    ensures
        before(a, c),
    decreases a.len(),
{
    if a.len() > 0 && a[0] == b[0] && b[0] == c[0] {
        before_is_transitive(a.skip(1), b.skip(1), c.skip(1));
    }
}

/// Of two different texts one comes before the other.
pub proof fn before_is_total(a: Seq<char>, b: Seq<char>)
    ensures
        a == b || before(a, b) || before(b, a),
    decreases a.len(),
{
    if a.len() > 0 && b.len() > 0 && a[0] == b[0] {
        before_is_total(a.skip(1), b.skip(1));
        if a.skip(1) == b.skip(1) {
            assert(a =~= seq![a[0]] + a.skip(1));
            assert(b =~= seq![b[0]] + b.skip(1));
        }
    } else if a.len() == 0 && b.len() == 0 {
        assert(a =~= b);
    }
}

/// Whether characters come before others in dictionary order.
pub fn chars_before(x: &[char], y: &[char]) -> (r: bool)
    ensures
        r == before(x@, y@),
{
    let mut i: usize = 0;
    assert(x@.skip(0) =~= x@);
    assert(y@.skip(0) =~= y@);
    loop
        invariant
            i <= x@.len(),
            i <= y@.len(),
            before(x@, y@) == before(x@.skip(i as int), y@.skip(i as int)),
        decreases x@.len() - i,
    {
        if i >= y.len() {
            return false;
        }
        if i >= x.len() {
            return true;
        }
        if x[i] != y[i] {
            return x[i] < y[i];
        }
        assert(x@.skip(i as int).skip(1) =~= x@.skip(i + 1));
        assert(y@.skip(i as int).skip(1) =~= y@.skip(i + 1));
        i += 1;
    }
}

/// Whether a text comes before another in dictionary order.
pub fn comes_before(a: &str, b: &str) -> (r: bool)
    ensures
        r == before(a@, b@),
{
    let x = text::to_chars(a);
    let y = text::to_chars(b);
    chars_before(x.as_slice(), y.as_slice())
}

// ---------------------------------------------------------------------------
// Tallies
// ---------------------------------------------------------------------------

/// A name and how often it was counted.
#[derive(Debug, PartialEq, Eq)]
pub struct TallyEntry {
    pub name: String,
    pub count: usize,
}

impl DeepView for TallyEntry {
    type V = (Seq<char>, usize);

    open spec fn deep_view(&self) -> (Seq<char>, usize) {
        (self.name@, self.count)
    }
}

/// Whether the names are in strictly ascending order.
pub open spec fn ascending(s: Seq<(Seq<char>, usize)>) -> bool {
    forall|i: int, j: int| #![trigger s[i], s[j]] 0 <= i < j < s.len() ==> before(s[i].0, s[j].0)
}

/// Whether a name occurs.
pub open spec fn has_name(s: Seq<(Seq<char>, usize)>, name: Seq<char>) -> bool {
    exists|i: int| 0 <= i < s.len() && (#[trigger] s[i]).0 == name
}

/// The counts by name.
pub open spec fn counts_of(s: Seq<(Seq<char>, usize)>) -> Map<Seq<char>, usize> {
    Map::new(
        |name: Seq<char>| has_name(s, name),
        |name: Seq<char>| s[choose|i: int| 0 <= i < s.len() && (#[trigger] s[i]).0 == name].1,
    )
}

/// The counts after one more of the name. Counts stop at the largest number.
pub open spec fn counted(counts: Map<Seq<char>, usize>, name: Seq<char>) -> Map<Seq<char>, usize> {
    counts.insert(
        name,
        timeline_report::bumped(
            if counts.dom().contains(name) {
                counts[name]
            } else {
                0
            },
        ),
    )
}

/// What the counts add up to.
pub open spec fn total(counts: Map<Seq<char>, usize>) -> int
    decreases counts.dom().len(),
    when counts.dom().finite()
{
    if counts.dom().len() == 0 {
        0
    } else {
        let name = counts.dom().choose();
        counts[name] + total(counts.remove(name))
    }
}

proof fn lemma_total_remove(counts: Map<Seq<char>, usize>, name: Seq<char>)
    requires
        counts.dom().finite(),
        counts.dom().contains(name),
    ensures
        total(counts) == counts[name] + total(counts.remove(name)),
        total(counts.remove(name)) >= 0,
    decreases counts.dom().len(),
{
    let first = counts.dom().choose();
    assert(counts.dom().contains(first));
    let rest = counts.remove(first);
    assert(rest.dom() =~= counts.dom().remove(first));
    lemma_total_positive(counts.remove(name));
    if first != name {
        lemma_total_remove(rest, name);
        let other = counts.remove(name);
        assert(other.dom() =~= counts.dom().remove(name));
        lemma_total_remove(other, first);
        assert(other.remove(first) =~= rest.remove(name));
    }
}

proof fn lemma_total_positive(counts: Map<Seq<char>, usize>)
    requires
        counts.dom().finite(),
    ensures
        total(counts) >= 0,
    decreases counts.dom().len(),
{
    if counts.dom().len() > 0 {
        let first = counts.dom().choose();
        assert(counts.dom().contains(first));
        assert(counts.remove(first).dom() =~= counts.dom().remove(first));
        lemma_total_positive(counts.remove(first));
    }
}

/// Counts of nothing add up to nothing.
pub proof fn empty_total()
    ensures
        Map::<Seq<char>, usize>::empty().dom().finite(),
        total(Map::empty()) == 0,
{
    assert(Map::<Seq<char>, usize>::empty().dom() =~= Set::empty());
}

/// Counting a name makes the counts add up to one more, as far as that can be
/// counted.
pub proof fn counting_adds_one(counts: Map<Seq<char>, usize>, name: Seq<char>)
    requires
        counts.dom().finite(),
        total(counts) < usize::MAX,
    ensures
        counted(counts, name).dom().finite(),
        total(counted(counts, name)) == total(counts) + 1,
{
    let more = counted(counts, name);
    assert(more.dom() =~= counts.dom().insert(name));
    lemma_total_remove(more, name);
    if counts.dom().contains(name) {
        lemma_total_remove(counts, name);
        assert(more.remove(name) =~= counts.remove(name));
    } else {
        assert(more.remove(name) =~= counts);
    }
}

proof fn lemma_at(s: Seq<(Seq<char>, usize)>, i: int)
    requires
        ascending(s),
        0 <= i < s.len(),
    ensures
        counts_of(s).dom().contains(s[i].0),
        counts_of(s)[s[i].0] == s[i].1,
{
    let j = choose|j: int| 0 <= j < s.len() && (#[trigger] s[j]).0 == s[i].0;
    before_is_irreflexive(s[i].0);
}

proof fn lemma_update(s: Seq<(Seq<char>, usize)>, i: int, count: usize)
    requires
        ascending(s),
        0 <= i < s.len(),
    ensures
        ascending(s.update(i, (s[i].0, count))),
        counts_of(s.update(i, (s[i].0, count))) == counts_of(s).insert(s[i].0, count),
{
    let t = s.update(i, (s[i].0, count));
    assert(forall|k: int| 0 <= k < s.len() ==> (#[trigger] t[k]).0 == s[k].0);
    let have = counts_of(t);
    let want = counts_of(s).insert(s[i].0, count);
    assert forall|name: Seq<char>| have.dom().contains(name) == want.dom().contains(name) by {
        if has_name(s, name) {
            let k = choose|k: int| 0 <= k < s.len() && (#[trigger] s[k]).0 == name;
            assert(t[k].0 == name);
        }
        if has_name(t, name) {
            let k = choose|k: int| 0 <= k < t.len() && (#[trigger] t[k]).0 == name;
            assert(s[k].0 == name);
        }
        assert(t[i].0 == s[i].0);
    }
    assert forall|name: Seq<char>| have.dom().contains(name) implies have[name] == want[name] by {
        let k = choose|k: int| 0 <= k < t.len() && (#[trigger] t[k]).0 == name;
        lemma_at(t, k);
        lemma_at(s, k);
        if name == s[i].0 && k != i {
            before_is_irreflexive(name);
            assert(before(s[k].0, s[i].0) || before(s[i].0, s[k].0));
        }
    }
    assert(have =~= want);
}

proof fn lemma_insert(s: Seq<(Seq<char>, usize)>, i: int, name: Seq<char>, count: usize)
    requires
        ascending(s),
        0 <= i <= s.len(),
        forall|k: int| 0 <= k < i ==> before((#[trigger] s[k]).0, name),
        forall|k: int| i <= k < s.len() ==> before(name, (#[trigger] s[k]).0),
    ensures
        ascending(s.insert(i, (name, count))),
        !counts_of(s).dom().contains(name),
        counts_of(s.insert(i, (name, count))) == counts_of(s).insert(name, count),
{
    let t = s.insert(i, (name, count));
    before_is_irreflexive(name);
    assert(forall|k: int| 0 <= k < i ==> #[trigger] t[k] == s[k]);
    assert(t[i] == (name, count));
    assert(forall|k: int| i < k < t.len() ==> #[trigger] t[k] == s[k - 1]);
    assert(!has_name(s, name));
    let have = counts_of(t);
    let want = counts_of(s).insert(name, count);
    assert forall|other: Seq<char>| have.dom().contains(other) == want.dom().contains(other) by {
        if has_name(s, other) {
            let k = choose|k: int| 0 <= k < s.len() && (#[trigger] s[k]).0 == other;
            if k < i {
                assert(t[k].0 == other);
            } else {
                assert(t[k + 1].0 == other);
            }
        }
        if has_name(t, other) {
            let k = choose|k: int| 0 <= k < t.len() && (#[trigger] t[k]).0 == other;
            if k < i {
                assert(s[k].0 == other);
            } else if k > i {
                assert(s[k - 1].0 == other);
            }
        }
    }
    assert forall|other: Seq<char>| have.dom().contains(other) implies have[other]
        == want[other] by {
        let k = choose|k: int| 0 <= k < t.len() && (#[trigger] t[k]).0 == other;
        lemma_at(t, k);
        if k < i {
            lemma_at(s, k);
        } else if k > i {
            lemma_at(s, k - 1);
        }
    }
    assert(have =~= want);
}

/// Counts by name, kept in the order of the names.
#[derive(Debug, PartialEq, Eq)]
pub struct Tally {
    entries: Vec<TallyEntry>,
}

impl View for Tally {
    type V = Map<Seq<char>, usize>;

    closed spec fn view(&self) -> Map<Seq<char>, usize> {
        counts_of(self.entries.deep_view())
    }
}

impl Tally {
    #[verifier::type_invariant]
    spec fn well_formed(self) -> bool {
        ascending(self.entries.deep_view())
    }

    /// A tally in which nothing was counted yet.
    pub fn new() -> (r: Tally)
        ensures
            r@ == Map::<Seq<char>, usize>::empty(),
    {
        let entries: Vec<TallyEntry> = Vec::new();
        let r = Tally { entries };
        assert(r@ =~= Map::<Seq<char>, usize>::empty());
        r
    }

    /// Counts one more of the name.
    pub fn bump(&mut self, name: &str)
        ensures
            final(self)@ == counted(old(self)@, name@),
    {
        proof {
            use_type_invariant(&*self);
        }
        let mut entries: Vec<TallyEntry> = Vec::new();
        std::mem::swap(&mut entries, &mut self.entries);
        let ghost s = entries.deep_view();
        let mut i: usize = 0;
        while i < entries.len() && comes_before(entries[i].name.as_str(), name)
            invariant
                i <= entries@.len(),
                s == entries.deep_view(),
                ascending(s),
                forall|k: int| 0 <= k < i ==> before((#[trigger] s[k]).0, name@),
            decreases entries.len() - i,
        {
            assert(s[i as int] == entries@[i as int].deep_view());
            i += 1;
        }
        if i < entries.len() {
            assert(s[i as int] == entries@[i as int].deep_view());
        }
        if i < entries.len() && !comes_before(name, entries[i].name.as_str()) {
            proof {
                before_is_total(s[i as int].0, name@);
                lemma_at(s, i as int);
                lemma_update(s, i as int, timeline_report::bumped(s[i as int].1));
            }
            let count: usize = timeline_report::bump(entries[i].count);
            entries.set(i, TallyEntry { name: name.to_owned(), count });
            assert(entries.deep_view() =~= s.update(i as int, (s[i as int].0, count)));
        } else {
            proof {
                assert forall|k: int| i <= k < s.len() implies before(name@, (#[trigger] s[k]).0) by {
                    if k > i {
                        before_is_transitive(name@, s[i as int].0, s[k].0);
                    }
                }
                lemma_insert(s, i as int, name@, timeline_report::bumped(0));
            }
            let count: usize = timeline_report::bump(0);
            entries.insert(i, TallyEntry { name: name.to_owned(), count });
            assert(entries.deep_view() =~= s.insert(i as int, (name@, count)));
        }
        self.entries = entries;
    }

    /// The names with their counts, in the order of the names.
    pub fn entries(&self) -> (r: &Vec<TallyEntry>)
        ensures
            ascending(r.deep_view()),
            counts_of(r.deep_view()) == self@,
    {
        proof {
            use_type_invariant(self);
        }
        &self.entries
    }

    /// How often the name was counted.
    pub fn count(&self, name: &str) -> (r: usize)
        ensures
            r == (if self@.dom().contains(name@) {
                self@[name@]
            } else {
                0
            }),
    {
        proof {
            use_type_invariant(self);
        }
        let ghost s = self.entries.deep_view();
        let chars = text::to_chars(name);
        let mut i: usize = 0;
        while i < self.entries.len()
            invariant
                i <= self.entries@.len(),
                chars@ == name@,
                s == self.entries.deep_view(),
                ascending(s),
                forall|k: int| 0 <= k < i ==> (#[trigger] s[k]).0 != name@,
            decreases self.entries.len() - i,
        {
            assert(s[i as int] == self.entries@[i as int].deep_view());
            if text::is_str(chars.as_slice(), self.entries[i].name.as_str()) {
                proof {
                    lemma_at(s, i as int);
                }
                return self.entries[i].count;
            }
            i += 1;
        }
        assert(!has_name(s, name@));
        0
    }
}

impl Clone for Tally {
    fn clone(&self) -> (r: Tally)
        ensures
            r@ == self@,
    {
        proof {
            use_type_invariant(self);
        }
        let mut entries: Vec<TallyEntry> = Vec::new();
        let mut i: usize = 0;
        while i < self.entries.len()
            invariant
                i <= self.entries@.len(),
                entries@.len() == i,
                forall|k: int|
                    0 <= k < i ==> (#[trigger] entries@[k]).deep_view()
                        == self.entries@[k].deep_view(),
            decreases self.entries.len() - i,
        {
            entries.push(
                TallyEntry { name: self.entries[i].name.clone(), count: self.entries[i].count },
            );
            i += 1;
        }
        assert(entries.deep_view() =~= self.entries.deep_view());
        Tally { entries }
    }
}

} // verus!
