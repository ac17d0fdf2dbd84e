//! Warning polygons as plane figures: their outline, whether it is simple and
//! convex, and its area. Coordinates are hundredths of a degree.

use vstd::prelude::*;

use crate::warning_tags::{WarningPoint, WarningPolygon};

verus! {

// ---------------------------------------------------------------------------
// Outlines
// ---------------------------------------------------------------------------

/// The points without those that repeat the one before.
pub open spec fn without_repeats(points: Seq<WarningPoint>) -> Seq<WarningPoint>
    decreases points.len(),
{
    if points.len() == 0 {
        points
    } else {
        let before = without_repeats(points.drop_last());
        if before.len() > 0 && before.last() == points.last() {
            before
        } else {
            before.push(points.last())
        }
    }
}

/// The corners in turn: the points without repeats, and without the last
/// where it closes the line.
pub open spec fn corners(points: Seq<WarningPoint>) -> Seq<WarningPoint> {
    let line = without_repeats(points);
    if line.len() > 1 && line[0] == line.last() {
        line.drop_last()
    } else {
        line
    }
}

/// The outline that points give, if they give one.
pub open spec fn outline(points: Seq<WarningPoint>) -> Option<Seq<WarningPoint>> {
    if corners(points).len() >= 3 {
        Some(corners(points))
    } else {
        None
    }
}

proof fn lemma_without_repeats(points: Seq<WarningPoint>)
    ensures
        points.len() > 0 ==> without_repeats(points).len() > 0 && without_repeats(points)[0]
            == points[0] && without_repeats(points).last() == points.last(),
        without_repeats(points).len() <= points.len(),
    decreases points.len(),
{
    if points.len() > 0 {
        let rest = points.drop_last();
        lemma_without_repeats(rest);
        if rest.len() > 0 {
            assert(rest[0] == points[0]);
        }
    }
}

/// It makes no difference whether the first point is written again at the
/// end.
pub proof fn outlines_may_be_closed(points: Seq<WarningPoint>)
    requires
        points.len() > 0,
    ensures
        outline(points.push(points[0])) == outline(points),
{
    let closed = points.push(points[0]);
    let line = without_repeats(points);
    lemma_without_repeats(points);
    assert(closed.drop_last() =~= points);
    if line.last() != points[0] {
        assert(without_repeats(closed) == line.push(points[0]));
        assert(line.push(points[0]).drop_last() =~= line);
    }
    assert(corners(closed) == corners(points));
}

/// The outline that points give, if they give one.
pub fn outline_of(points: &Vec<WarningPoint>) -> (r: Option<Vec<WarningPoint>>)
    ensures
        match r {
            Some(v) => outline(points@) == Some(v@) && v@.len() >= 3,
            None => outline(points@) is None,
        },
{
    let mut line: Vec<WarningPoint> = Vec::new();
    let mut i: usize = 0;
    assert(points@.take(0) =~= Seq::<WarningPoint>::empty());
    while i < points.len()
        invariant
            i <= points@.len(),
            line@ == without_repeats(points@.take(i as int)),
        decreases points.len() - i,
    {
        let p = points[i];
        let ghost upto = points@.take(i + 1);
        assert(upto.drop_last() =~= points@.take(i as int));
        let n: usize = line.len();
        if n == 0 || line[n - 1] != p {
            line.push(p);
        }
        i += 1;
    }
    assert(points@.take(i as int) =~= points@);
    proof {
        lemma_without_repeats(points@);
    }
    let n: usize = line.len();
    if n > 1 && line[0] == line[n - 1] {
        let ghost before = line@;
        line.pop();
        assert(line@ =~= before.drop_last());
    }
    if line.len() >= 3 {
        Some(line)
    } else {
        None
    }
}

// ---------------------------------------------------------------------------
// Simple and convex outlines
// ---------------------------------------------------------------------------

/// Twice the area of a triangle, positive where it turns left.
pub open spec fn cross(a: WarningPoint, b: WarningPoint, c: WarningPoint) -> int {
    (b.lon - a.lon) * (c.lat - a.lat) - (b.lat - a.lat) * (c.lon - a.lon)
}

/// Whether a point lies in the box that an edge spans.
pub open spec fn in_box(a: WarningPoint, p: WarningPoint, b: WarningPoint) -> bool {
    &&& a.lon <= p.lon <= b.lon || b.lon <= p.lon <= a.lon
    &&& a.lat <= p.lat <= b.lat || b.lat <= p.lat <= a.lat
}

/// Whether a point lies on an edge.
pub open spec fn on_edge(a: WarningPoint, b: WarningPoint, p: WarningPoint) -> bool {
    cross(a, b, p) == 0 && in_box(a, p, b)
}

/// Whether two numbers lie on different sides of zero.
pub open spec fn opposite(x: int, y: int) -> bool {
    x > 0 && y < 0 || x < 0 && y > 0
}

/// Whether two edges have a point in common: they cross, or an end of one
/// lies on the other.
pub open spec fn edges_meet(
    a: WarningPoint,
    b: WarningPoint,
    c: WarningPoint,
    d: WarningPoint,
) -> bool {
    ||| opposite(cross(a, b, c), cross(a, b, d)) && opposite(cross(c, d, a), cross(c, d, b))
    ||| on_edge(a, b, c)
    ||| on_edge(a, b, d)
    ||| on_edge(c, d, a)
    ||| on_edge(c, d, b)
}

/// The corner after corner `i` of `n`.
pub open spec fn next(i: int, n: int) -> int {
    if i + 1 >= n {
        i + 1 - n
    } else {
        i + 1
    }
}

/// Whether the edges that start at corners `i` and `j` are no neighbours and
/// have a point in common.
pub open spec fn edges_clash(r: Seq<WarningPoint>, i: int, j: int) -> bool {
    let n = r.len() as int;
    0 <= i < j < n && next(i, n) != j && next(j, n) != i && edges_meet(
        r[i],
        r[next(i, n)],
        r[j],
        r[next(j, n)],
    )
}

/// Whether an outline meets itself.
pub open spec fn self_intersecting(r: Seq<WarningPoint>) -> bool {
    exists|i: int, j: int| edges_clash(r, i, j)
}

/// The turn at the corner after corner `i`.
pub open spec fn turn(r: Seq<WarningPoint>, i: int) -> int {
    let n = r.len() as int;
    cross(r[i], r[next(i, n)], r[next(next(i, n), n)])
}

pub open spec fn turns_left(r: Seq<WarningPoint>, n: int) -> bool {
    exists|i: int| 0 <= i < n && #[trigger] turn(r, i) > 0
}

pub open spec fn turns_right(r: Seq<WarningPoint>, n: int) -> bool {
    exists|i: int| 0 <= i < n && #[trigger] turn(r, i) < 0
}

/// Whether an outline turns, and always the same way.
pub open spec fn convex(r: Seq<WarningPoint>) -> bool {
    turns_left(r, r.len() as int) != turns_right(r, r.len() as int)
}

fn cross_of(a: WarningPoint, b: WarningPoint, c: WarningPoint) -> (r: i128)
    ensures
        r == cross(a, b, c),
{
    let x: i128 = b.lon as i128 - a.lon as i128;
    let y: i128 = b.lat as i128 - a.lat as i128;
    let u: i128 = c.lon as i128 - a.lon as i128;
    let v: i128 = c.lat as i128 - a.lat as i128;
    proof {
        lemma_product_bound(x as int, v as int, 0x1_0000_0000);
        lemma_product_bound(y as int, u as int, 0x1_0000_0000);
    }
    x * v - y * u
}

proof fn lemma_product_bound(x: int, y: int, m: int)
    requires
        0 <= m,
        -m <= x <= m,
        -m <= y <= m,
    ensures
        -(m * m) <= x * y <= m * m,
{
    assert(-(m * m) <= x * y <= m * m) by (nonlinear_arith)
        requires
            0 <= m,
            -m <= x <= m,
            -m <= y <= m,
    ;
}

fn lies_in_box(a: WarningPoint, p: WarningPoint, b: WarningPoint) -> (r: bool)
    ensures
        r == in_box(a, p, b),
{
    ((a.lon <= p.lon && p.lon <= b.lon) || (b.lon <= p.lon && p.lon <= a.lon)) && ((a.lat <= p.lat
        && p.lat <= b.lat) || (b.lat <= p.lat && p.lat <= a.lat))
}

fn opposite_signs(x: i128, y: i128) -> (r: bool)
    ensures
        r == opposite(x as int, y as int),
{
    (x > 0 && y < 0) || (x < 0 && y > 0)
}

/// Whether two edges have a point in common.
pub fn segments_intersect(
    a: WarningPoint,
    b: WarningPoint,
    c: WarningPoint,
    d: WarningPoint,
) -> (r: bool)
    ensures
        r == edges_meet(a, b, c, d),
{
    let abc: i128 = cross_of(a, b, c);
    let abd: i128 = cross_of(a, b, d);
    let cda: i128 = cross_of(c, d, a);
    let cdb: i128 = cross_of(c, d, b);
    if opposite_signs(abc, abd) && opposite_signs(cda, cdb) {
        return true;
    }
    (abc == 0 && lies_in_box(a, c, b)) || (abd == 0 && lies_in_box(a, d, b)) || (cda == 0
        && lies_in_box(c, a, d)) || (cdb == 0 && lies_in_box(c, b, d))
}

fn next_index(i: usize, n: usize) -> (r: usize)
    requires
        i < n,
    ensures
        r == next(i as int, n as int),
        r < n,
{
    if i + 1 == n {
        0
    } else {
        i + 1
    }
}

/// Whether an outline meets itself.
pub fn polygon_self_intersects(r: &Vec<WarningPoint>) -> (found: bool)
    ensures
        found == self_intersecting(r@),
{
    let n: usize = r.len();
    let mut i: usize = 0;
    while i < n
        invariant
            n == r@.len(),
            i <= n,
            forall|k: int, l: int| 0 <= k < i ==> !#[trigger] edges_clash(r@, k, l),
        decreases n - i,
    {
        let i_next: usize = next_index(i, n);
        let mut j: usize = i + 1;
        while j < n
            invariant
                n == r@.len(),
                i < n,
                i + 1 <= j <= n,
                i_next == next(i as int, n as int),
                i_next < n,
                forall|l: int| l < j ==> !#[trigger] edges_clash(r@, i as int, l),
            decreases n - j,
        {
            let j_next: usize = next_index(j, n);
            if i_next != j && j_next != i {
                if segments_intersect(r[i], r[i_next], r[j], r[j_next]) {
                    assert(edges_clash(r@, i as int, j as int));
                    return true;
                }
            }
            assert(!edges_clash(r@, i as int, j as int));
            j += 1;
        }
        assert forall|k: int, l: int| 0 <= k < i + 1 implies !#[trigger] edges_clash(r@, k, l) by {
            if k == i && l >= n {
                assert(!edges_clash(r@, k, l));
            }
        }
        i += 1;
    }
    assert forall|k: int, l: int| !#[trigger] edges_clash(r@, k, l) by {}
    false
}

/// Whether an outline turns, and always the same way.
pub fn is_convex_polygon(r: &Vec<WarningPoint>) -> (found: bool)
    requires
        r@.len() >= 2,
    ensures
        found == convex(r@),
{
    let n: usize = r.len();
    let mut left: bool = false;
    let mut right: bool = false;
    let mut i: usize = 0;
    while i < n
        invariant
            n == r@.len(),
            n >= 2,
            i <= n,
            left == turns_left(r@, i as int),
            right == turns_right(r@, i as int),
        decreases n - i,
    {
        let j: usize = next_index(i, n);
        let k: usize = next_index(j, n);
        let t: i128 = cross_of(r[i], r[j], r[k]);
        assert(t == turn(r@, i as int));
        proof {
            if turns_left(r@, i as int) {
                let w = choose|w: int| 0 <= w < i && #[trigger] turn(r@, w) > 0;
                assert(0 <= w < i + 1 && turn(r@, w) > 0);
            }
            if turns_right(r@, i as int) {
                let w = choose|w: int| 0 <= w < i && #[trigger] turn(r@, w) < 0;
                assert(0 <= w < i + 1 && turn(r@, w) < 0);
            }
            if t <= 0 && turns_left(r@, i + 1) {
                let w = choose|w: int| 0 <= w < i + 1 && #[trigger] turn(r@, w) > 0;
                assert(0 <= w < i && turn(r@, w) > 0);
            }
            if t >= 0 && turns_right(r@, i + 1) {
                let w = choose|w: int| 0 <= w < i + 1 && #[trigger] turn(r@, w) < 0;
                assert(0 <= w < i && turn(r@, w) < 0);
            }
        }
        if t > 0 {
            left = true;
        } else if t < 0 {
            right = true;
        }
        i += 1;
    }
    left != right
}

// ---------------------------------------------------------------------------
// Area
// ---------------------------------------------------------------------------

/// What the edge from corner `i` adds to twice the signed area.
pub open spec fn edge_term(r: Seq<WarningPoint>, i: int) -> int {
    let j = next(i, r.len() as int);
    r[i].lon * r[j].lat - r[j].lon * r[i].lat
}

/// Twice the signed area that the first `k` edges sweep.
pub open spec fn swept(r: Seq<WarningPoint>, k: int) -> int
    decreases k,
{
    if k <= 0 {
        0
    } else {
        swept(r, k - 1) + edge_term(r, k - 1)
    }
}

/// Twice the area of an outline.
pub open spec fn doubled_area(r: Seq<WarningPoint>) -> int {
    let s = swept(r, r.len() as int);
    if s >= 0 {
        s
    } else {
        -s
    }
}

fn doubled_area_of(r: &Vec<WarningPoint>) -> (area: i128)
    ensures
        area == doubled_area(r@),
        area >= 0,
{
    let n: usize = r.len();
    let mut sum: i128 = 0;
    let mut i: usize = 0;
    while i < n
        invariant
            n == r@.len(),
            i <= n,
            sum == swept(r@, i as int),
            -0x8000_0000_0000_0000 * i <= sum <= 0x8000_0000_0000_0000 * i,
        decreases n - i,
    {
        let j: usize = next_index(i, n);
        let p = r[i];
        let q = r[j];
        proof {
            lemma_product_bound(p.lon as int, q.lat as int, 0x8000_0000);
            lemma_product_bound(q.lon as int, p.lat as int, 0x8000_0000);
        }
        sum = sum + (p.lon as i128 * q.lat as i128 - q.lon as i128 * p.lat as i128);
        i += 1;
    }
    if sum >= 0 {
        sum
    } else {
        -sum
    }
}

/// The area of a polygon in twenty-thousandths of a square degree, where it
/// has a simple outline.
pub open spec fn area_of(points: Seq<WarningPoint>) -> Option<int> {
    match outline(points) {
        Some(o) => if self_intersecting(o) {
            None
        } else {
            Some(doubled_area(o))
        },
        None => None,
    }
}

/// The area of a polygon in twenty-thousandths of a square degree, where it
/// has a simple outline.
pub fn warning_polygon_area_square_degrees(polygon: &WarningPolygon) -> (r: Option<i128>)
    ensures
        match r {
            Some(area) => area_of(polygon.points@) == Some(area as int) && area >= 0,
            None => area_of(polygon.points@) is None,
        },
{
    match outline_of(&polygon.points) {
        Some(o) => if polygon_self_intersects(&o) {
            None
        } else {
            Some(doubled_area_of(&o))
        },
        None => None,
    }
}

/// Whether an outline can be clipped: it is simple and convex.
pub open spec fn clippable(o: Option<Seq<WarningPoint>>) -> bool {
    o matches Some(r) && !self_intersecting(r) && convex(r)
}

fn clippable_outline(polygon: &WarningPolygon) -> (r: Option<Vec<WarningPoint>>)
    ensures
        match r {
            Some(v) => outline(polygon.points@) == Some(v@) && clippable(outline(polygon.points@)),
            None => !clippable(outline(polygon.points@)),
        },
{
    match outline_of(&polygon.points) {
        Some(o) => if polygon_self_intersects(&o) || !is_convex_polygon(&o) {
            None
        } else {
            Some(o)
        },
        None => None,
    }
}

/// The outlines of two polygons, where their overlap is defined: both are
/// simple and convex.
pub open spec fn overlap_pair(left: Seq<WarningPoint>, right: Seq<WarningPoint>) -> Option<
    (Seq<WarningPoint>, Seq<WarningPoint>),
> {
    if clippable(outline(left)) && clippable(outline(right)) {
        Some((outline(left)->0, outline(right)->0))
    } else {
        None
    }
}

/// An overlap is defined in one order exactly where it is in the other, and
/// then between the same outlines.
pub proof fn overlap_is_defined_in_both_orders(left: Seq<WarningPoint>, right: Seq<WarningPoint>)
    ensures
        overlap_pair(left, right) is Some <==> overlap_pair(right, left) is Some,
        overlap_pair(left, right) matches Some((a, b)) ==> overlap_pair(right, left) == Some(
            (b, a),
        ),
{
}

/// An overlap is defined only between simple convex outlines, and between any
/// two of them; both then have an area.
pub proof fn overlap_needs_simple_convex_outlines(
    left: Seq<WarningPoint>,
    right: Seq<WarningPoint>,
)
    ensures
        overlap_pair(left, right) matches Some((a, b)) ==> {
            &&& outline(left) == Some(a) && !self_intersecting(a) && convex(a)
            &&& outline(right) == Some(b) && !self_intersecting(b) && convex(b)
            &&& area_of(left) == Some(doubled_area(a))
            &&& area_of(right) == Some(doubled_area(b))
        },
        clippable(outline(left)) && clippable(outline(right)) ==> overlap_pair(left, right) is Some,
{
}

/// The exec outlines as mathematical ones.
pub open spec fn pair_view(pair: Option<(Vec<WarningPoint>, Vec<WarningPoint>)>) -> Option<
    (Seq<WarningPoint>, Seq<WarningPoint>),
> {
    match pair {
        Some((a, b)) => Some((a@, b@)),
        None => None,
    }
}

/// The outlines of two polygons whose overlap is defined.
pub fn overlap_outlines(left: &WarningPolygon, right: &WarningPolygon) -> (r: Option<
    (Vec<WarningPoint>, Vec<WarningPoint>),
>)
    ensures
        pair_view(r) == overlap_pair(left.points@, right.points@),
{
    match (clippable_outline(left), clippable_outline(right)) {
        (Some(a), Some(b)) => Some((a, b)),
        _ => None,
    }
}

} // verus!
