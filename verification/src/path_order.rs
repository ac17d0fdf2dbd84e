//! The order of paths: by their components, as file systems list them.

use vstd::prelude::*;

use crate::tally;
use crate::text;

verus! {

/// What kind of component a text is: the root, which is written as nothing,
/// the current directory, the parent directory, or a name.
pub open spec fn class(part: Seq<char>) -> int {
    if part.len() == 0 {
        0
    } else if part == seq!['.'] {
        1
    } else if part == seq!['.', '.'] {
        2
    } else {
        3
    }
}

/// Whether part `i` between the slashes is a component: nothing counts only
/// at the start of an absolute path, and the current directory only at the
/// start of a relative one.
pub open spec fn counts(parts: Seq<Seq<char>>, i: int) -> bool {
    if parts[i].len() == 0 {
        i == 0 && parts.len() > 1
    } else {
        parts[i] != seq!['.'] || i == 0
    }
}

/// The components among the first `n` parts.
pub open spec fn components_among(parts: Seq<Seq<char>>, n: int) -> Seq<Seq<char>>
    decreases n,
{
    if n <= 0 {
        Seq::empty()
    } else {
        let before = components_among(parts, n - 1);
        if counts(parts, n - 1) {
            before.push(parts[n - 1])
        } else {
            before
        }
    }
}

/// The components of a path.
pub open spec fn components(path: Seq<char>) -> Seq<Seq<char>> {
    let parts = text::split(path, '/');
    components_among(parts, parts.len() as int)
}

/// Whether a component comes before another.
pub open spec fn part_before(a: Seq<char>, b: Seq<char>) -> bool {
    if class(a) != class(b) {
        class(a) < class(b)
    } else {
        tally::before(a, b)
    }
}

/// Whether components come before others, the first difference deciding.
pub open spec fn parts_before(a: Seq<Seq<char>>, b: Seq<Seq<char>>) -> bool
    decreases a.len(),
{
    if b.len() == 0 {
        false
    } else if a.len() == 0 {
        true
    } else if a[0] != b[0] {
        part_before(a[0], b[0])
    } else {
        parts_before(a.skip(1), b.skip(1))
    }
}

/// Whether a path comes before another.
pub open spec fn path_before(a: Seq<char>, b: Seq<char>) -> bool {
    parts_before(components(a), components(b))
}

// ---------------------------------------------------------------------------
// Laws
// ---------------------------------------------------------------------------

/// No path comes before itself.
pub proof fn parts_before_is_irreflexive(a: Seq<Seq<char>>)
    ensures
        !parts_before(a, a),
    decreases a.len(),
{
    if a.len() > 0 {
        parts_before_is_irreflexive(a.skip(1));
    }
}

proof fn lemma_part_total(a: Seq<char>, b: Seq<char>)
    ensures
        a == b || part_before(a, b) || part_before(b, a),
        !(part_before(a, b) && part_before(b, a)),
{
    tally::before_is_total(a, b);
    if tally::before(a, b) && tally::before(b, a) {
        tally::before_is_transitive(a, b, a);
        tally::before_is_irreflexive(a);
    }
}

proof fn lemma_part_transitive(a: Seq<char>, b: Seq<char>, c: Seq<char>)
    requires
        part_before(a, b),
        part_before(b, c),
    ensures
        part_before(a, c),
        a != c,
{
    if class(a) == class(b) && class(b) == class(c) {
        tally::before_is_transitive(a, b, c);
        tally::before_is_irreflexive(a);
    }
}

/// The order of paths is transitive.
pub proof fn parts_before_is_transitive(a: Seq<Seq<char>>, b: Seq<Seq<char>>, c: Seq<Seq<char>>)
    requires
        parts_before(a, b),
        parts_before(b, c),
    ensures
        parts_before(a, c),
    decreases a.len(),
{
    if a.len() > 0 {
        if a[0] == b[0] && b[0] == c[0] {
            parts_before_is_transitive(a.skip(1), b.skip(1), c.skip(1));
        } else if a[0] != b[0] && b[0] != c[0] {
            lemma_part_transitive(a[0], b[0], c[0]);
        }
    }
}

/// Of two paths with different components one comes before the other.
pub proof fn parts_before_is_total(a: Seq<Seq<char>>, b: Seq<Seq<char>>)
    ensures
        a == b || parts_before(a, b) || parts_before(b, a),
    decreases a.len(),
{
    if a.len() > 0 && b.len() > 0 {
        if a[0] == b[0] {
            parts_before_is_total(a.skip(1), b.skip(1));
            if a.skip(1) == b.skip(1) {
                assert(a =~= seq![a[0]] + a.skip(1));
                assert(b =~= seq![b[0]] + b.skip(1));
            }
        } else {
            lemma_part_total(a[0], b[0]);
        }
    } else if a.len() == 0 && b.len() == 0 {
        assert(a =~= b);
    }
}

// ---------------------------------------------------------------------------
// Comparing
// ---------------------------------------------------------------------------

fn class_of(part: &[char]) -> (r: u8)
    ensures
        r == class(part@),
{
    if part.len() == 0 {
        0
    } else if part.len() == 1 && part[0] == '.' {
        assert(part@ =~= seq!['.']);
        1
    } else if part.len() == 2 && part[0] == '.' && part[1] == '.' {
        assert(part@ =~= seq!['.', '.']);
        2
    } else {
        3
    }
}

fn components_of(path: &str) -> (r: Vec<Vec<char>>)
    ensures
        text::views(r@) == components(path@),
{
    let chars = text::to_chars(path);
    let parts = text::split_on(chars.as_slice(), '/');
    let ghost all = text::views(parts@);
    let mut out: Vec<Vec<char>> = Vec::new();
    let mut i: usize = 0;
    assert(text::views(out@) =~= components_among(all, 0));
    while i < parts.len()
        invariant
            i <= parts@.len(),
            all == text::views(parts@),
            all.len() == parts@.len(),
            text::views(out@) == components_among(all, i as int),
        decreases parts.len() - i,
    {
        let part = parts[i].as_slice();
        assert(all[i as int] == part@);
        let kind: u8 = class_of(part);
        let counted: bool = if kind == 0 {
            i == 0 && parts.len() > 1
        } else {
            kind != 1 || i == 0
        };
        assert(counted == counts(all, i as int));
        if counted {
            let ghost before = text::views(out@);
            let copy = text::copy_chars(part);
            out.push(copy);
            assert(text::views(out@) =~= before.push(copy@));
        }
        i += 1;
    }
    out
}

/// How two paths stand to each other.
#[derive(Debug, Clone, Copy, PartialEq, Eq, Structural)]
pub enum PathOrder {
    Before,
    Same,
    After,
}

pub open spec fn order_of(a: Seq<char>, b: Seq<char>) -> PathOrder {
    if components(a) == components(b) {
        PathOrder::Same
    } else if path_before(a, b) {
        PathOrder::Before
    } else {
        PathOrder::After
    }
}

/// Compares two paths by their components.
pub fn order_paths(a: &str, b: &str) -> (r: PathOrder)
    ensures
        r == order_of(a@, b@),
{
    let x = components_of(a);
    let y = components_of(b);
    let ghost p = text::views(x@);
    let ghost q = text::views(y@);
    let mut i: usize = 0;
    assert(p.skip(0) =~= p);
    assert(q.skip(0) =~= q);
    loop
        invariant
            p == text::views(x@),
            q == text::views(y@),
            p.len() == x@.len(),
            q.len() == y@.len(),
            p == components(a@),
            q == components(b@),
            i <= x@.len(),
            i <= y@.len(),
            p.take(i as int) == q.take(i as int),
            parts_before(p, q) == parts_before(p.skip(i as int), q.skip(i as int)),
        decreases x@.len() - i,
    {
        if i >= y.len() {
            if i >= x.len() {
                assert(p.take(i as int) =~= p);
                assert(q.take(i as int) =~= q);
                return PathOrder::Same;
            }
            return PathOrder::After;
        }
        if i >= x.len() {
            return PathOrder::Before;
        }
        assert(p[i as int] == x@[i as int]@);
        assert(q[i as int] == y@[i as int]@);
        if !text::same(x[i].as_slice(), y[i].as_slice()) {
            let u: u8 = class_of(x[i].as_slice());
            let v: u8 = class_of(y[i].as_slice());
            let first: bool = if u != v {
                u < v
            } else {
                tally::chars_before(x[i].as_slice(), y[i].as_slice())
            };
            assert(p.skip(i as int)[0] == p[i as int]);
            assert(q.skip(i as int)[0] == q[i as int]);
            assert(p != q);
            return if first {
                PathOrder::Before
            } else {
                PathOrder::After
            };
        }
        assert(p.skip(i as int).skip(1) =~= p.skip(i + 1));
        assert(q.skip(i as int).skip(1) =~= q.skip(i + 1));
        assert(p.take(i + 1) =~= p.take(i as int).push(p[i as int]));
        assert(q.take(i + 1) =~= q.take(i as int).push(q[i as int]));
        i += 1;
    }
}

} // verus!
