//! What outlines promise: which corners they have, when they meet themselves,
//! which way they turn, what area they enclose, and what metrics tell of them.

use vstd::prelude::*;

use crate::metrics;
use crate::polygon;
use crate::warning::RecordView;
use crate::warning_tags::WarningPoint;

verus! {

// ---------------------------------------------------------------------------
// Corners
// ---------------------------------------------------------------------------

/// Whether no point is followed by itself.
pub open spec fn no_repeat(points: Seq<WarningPoint>) -> bool {
    forall|i: int| 0 < i < points.len() ==> points[i - 1] != #[trigger] points[i]
}

proof fn lemma_repeats_gone(points: Seq<WarningPoint>)
    ensures
        no_repeat(polygon::without_repeats(points)),
        forall|p: WarningPoint| #[trigger]
            polygon::without_repeats(points).contains(p) <==> points.contains(p),
        points.len() > 0 ==> polygon::without_repeats(points).len() > 0
            && polygon::without_repeats(points)[0] == points[0]
            && polygon::without_repeats(points).last() == points.last(),
        no_repeat(points) ==> polygon::without_repeats(points) == points,
    decreases points.len(),
{
    if points.len() > 0 {
        let rest = points.drop_last();
        let before = polygon::without_repeats(rest);
        let all = polygon::without_repeats(points);
        let last = points.last();
        lemma_repeats_gone(rest);
        assert(points =~= rest.push(last));
        assert forall|p: WarningPoint| #[trigger] all.contains(p) <==> points.contains(p) by {
            if points.contains(p) {
                let i = choose|i: int| 0 <= i < points.len() && points[i] == p;
                if i < rest.len() {
                    assert(rest[i] == p);
                    assert(rest.contains(p));
                    assert(before.contains(p));
                    let k = choose|k: int| 0 <= k < before.len() && before[k] == p;
                    assert(all[k] == p);
                } else {
                    assert(all[all.len() - 1] == p);
                }
            }
            if all.contains(p) {
                let i = choose|i: int| 0 <= i < all.len() && all[i] == p;
                if i < before.len() {
                    assert(before[i] == p);
                    assert(before.contains(p));
                    assert(rest.contains(p));
                    let k = choose|k: int| 0 <= k < rest.len() && rest[k] == p;
                    assert(points[k] == p);
                } else {
                    assert(points[points.len() - 1] == p);
                }
            }
        }
        assert forall|i: int| 0 < i < all.len() implies all[i - 1] != #[trigger] all[i] by {
            if i < before.len() {
                assert(before[i - 1] != before[i]);
            }
        }
        if rest.len() > 0 {
            assert(rest[0] == points[0]);
            assert(rest.last() == points[points.len() - 2]);
        }
        if no_repeat(points) {
            assert forall|i: int| 0 < i < rest.len() implies rest[i - 1] != #[trigger] rest[i] by {
                assert(points[i - 1] != points[i]);
            }
            assert(before == rest);
            if rest.len() > 0 {
                assert(points[points.len() - 2] != points[points.len() - 1]);
            }
            assert(all =~= points);
        }
    }
}

/// The outline of a polygon has its points for corners: every point is one and
/// every corner was a point; no two neighbours are the same, the last and the
/// first among them. Points that are so already stand as they are. There is an
/// outline exactly from three corners on.
pub proof fn outlines_have_the_points_for_corners(points: Seq<WarningPoint>)
    ensures
        polygon::outline(points) is Some <==> polygon::corners(points).len() >= 3,
        polygon::outline(points) matches Some(o) ==> {
            &&& o.len() >= 3
            &&& no_repeat(o)
            &&& o[0] != o.last()
            &&& o[0] == points[0]
            &&& forall|p: WarningPoint| #[trigger] o.contains(p) <==> points.contains(p)
        },
        no_repeat(points) && points.len() >= 3 && points[0] != points.last() ==> polygon::outline(
            points,
        ) == Some(points),
{
    lemma_repeats_gone(points);
    let line = polygon::without_repeats(points);
    if let Some(o) = polygon::outline(points) {
        if line.len() > 1 && line[0] == line.last() {
            assert(o =~= line.drop_last());
            assert forall|i: int| 0 < i < o.len() implies o[i - 1] != #[trigger] o[i] by {
                assert(line[i - 1] != line[i]);
            }
            assert(line[line.len() - 2] != line[line.len() - 1]);
            assert forall|p: WarningPoint| #[trigger] o.contains(p) <==> points.contains(p) by {
                if points.contains(p) {
                    assert(line.contains(p));
                    let k = choose|k: int| 0 <= k < line.len() && line[k] == p;
                    if k < o.len() {
                        assert(o[k] == p);
                    } else {
                        assert(o[0] == p);
                    }
                }
                if o.contains(p) {
                    let k = choose|k: int| 0 <= k < o.len() && o[k] == p;
                    assert(line[k] == p);
                    assert(line.contains(p));
                }
            }
        }
    }
}

// ---------------------------------------------------------------------------
// Turns and areas
// ---------------------------------------------------------------------------

/// A point moved by so much.
pub open spec fn is_moved(p: WarningPoint, q: WarningPoint, lat: int, lon: int) -> bool {
    q.lat == p.lat + lat && q.lon == p.lon + lon
}

/// The turn of three points is twice the area of their triangle: base times
/// height above a base that runs east. It is the same where all three are
/// moved and where they are taken in turn, and has the other sign where two
/// change places.
pub proof fn turns_are_doubled_areas(
    a: WarningPoint,
    b: WarningPoint,
    c: WarningPoint,
    moved: (WarningPoint, WarningPoint, WarningPoint),
    lat: int,
    lon: int,
)
    ensures
        a.lat == b.lat ==> polygon::cross(a, b, c) == (b.lon - a.lon) * (c.lat - a.lat),
        polygon::cross(a, b, c) == polygon::cross(b, c, a),
        polygon::cross(a, c, b) == -polygon::cross(a, b, c),
        is_moved(a, moved.0, lat, lon) && is_moved(b, moved.1, lat, lon) && is_moved(
            c,
            moved.2,
            lat,
            lon,
        ) ==> polygon::cross(moved.0, moved.1, moved.2) == polygon::cross(a, b, c),
{
    lemma_cross(
        a.lon as int,
        a.lat as int,
        b.lon as int,
        b.lat as int,
        c.lon as int,
        c.lat as int,
    );
    if a.lat == b.lat {
        assert((b.lat - a.lat) * (c.lon - a.lon) == 0) by (nonlinear_arith)
            requires
                a.lat == b.lat,
        ;
    }
}

#[verifier::spinoff_prover]
#[verifier::rlimit(50)]
proof fn lemma_cross(x: int, y: int, u: int, v: int, s: int, t: int)
    ensures
        (u - x) * (t - y) - (v - y) * (s - x) == (s - u) * (y - v) - (t - v) * (x - u),
        (s - x) * (v - y) - (t - y) * (u - x) == -((u - x) * (t - y) - (v - y) * (s - x)),
        (u - x) * (t - y) - (v - y) * (s - x) == (x * v - u * y) + (u * t - s * v) + (s * y - x
            * t),
{
    assert((u - x) * (t - y) - (v - y) * (s - x) == (s - u) * (y - v) - (t - v) * (x - u))
        by (nonlinear_arith);
    assert((s - x) * (v - y) - (t - y) * (u - x) == -((u - x) * (t - y) - (v - y) * (s - x)))
        by (nonlinear_arith);
    assert((u - x) * (t - y) - (v - y) * (s - x) == (x * v - u * y) + (u * t - s * v) + (s * y - x
        * t)) by (nonlinear_arith);
}

proof fn lemma_swept_same(r: Seq<WarningPoint>, more: Seq<WarningPoint>, k: int)
    requires
        0 <= k < r.len(),
        more.len() == r.len() + 1,
        forall|i: int| 0 <= i < r.len() ==> #[trigger] more[i] == r[i],
    ensures
        polygon::swept(more, k) == polygon::swept(r, k),
    decreases k,
{
    if k > 0 {
        lemma_swept_same(r, more, k - 1);
        assert(more[k - 1] == r[k - 1] && more[k] == r[k]);
    }
}

/// A corner that is put behind the others adds the triangle of the first, the
/// last and the new corner to the area, with its sign.
pub proof fn areas_add_triangles(r: Seq<WarningPoint>, p: WarningPoint)
    requires
        r.len() >= 2,
    ensures
        polygon::swept(r.push(p), r.len() as int + 1) == polygon::swept(r, r.len() as int)
            + polygon::cross(r[0], r.last(), p),
        polygon::swept(r, 0) == 0,
        r.len() == 2 ==> polygon::swept(r, 2) == 0,
{
    let n = r.len() as int;
    let more = r.push(p);
    lemma_swept_same(r, more, n - 1);
    assert(more[n - 1] == r[n - 1] && more[n] == p && more[0] == r[0]);
    let x = r[n - 1];
    let a = r[0];
    assert(polygon::swept(r, n) == polygon::swept(r, n - 1) + polygon::edge_term(r, n - 1));
    assert(polygon::swept(more, n) == polygon::swept(more, n - 1) + polygon::edge_term(more, n - 1));
    assert(polygon::swept(more, n + 1) == polygon::swept(more, n) + polygon::edge_term(more, n));
    lemma_cross(
        a.lon as int,
        a.lat as int,
        x.lon as int,
        x.lat as int,
        p.lon as int,
        p.lat as int,
    );
    lemma_term(a, x, p);
    if n == 2 {
        reveal_with_fuel(polygon::swept, 3);
        assert(r[0].lon * r[1].lat - r[1].lon * r[0].lat + (r[1].lon * r[0].lat - r[0].lon
            * r[1].lat) == 0) by (nonlinear_arith);
    }
}

proof fn lemma_term(a: WarningPoint, x: WarningPoint, p: WarningPoint)
    ensures
        polygon::cross(a, x, p) == (x.lon * p.lat - p.lon * x.lat) + (p.lon * a.lat - a.lon * p.lat)
            - (x.lon * a.lat - a.lon * x.lat),
{
    lemma_cross(
        a.lon as int,
        a.lat as int,
        x.lon as int,
        x.lat as int,
        p.lon as int,
        p.lat as int,
    );
    assert(a.lon * x.lat - x.lon * a.lat == -(x.lon * a.lat - a.lon * x.lat)) by (nonlinear_arith);
}

/// The area is that without sign: outlines that run the one way round and the
/// other enclose the same.
pub proof fn areas_are_not_negative(r: Seq<WarningPoint>)
    ensures
        polygon::doubled_area(r) >= 0,
        polygon::doubled_area(r) == polygon::swept(r, r.len() as int) || polygon::doubled_area(r)
            == -polygon::swept(r, r.len() as int),
{
}

/// The four corners of a box, from the south-west one eastward.
pub open spec fn is_box(
    r: Seq<WarningPoint>,
    south: int,
    west: int,
    height: int,
    width: int,
) -> bool {
    &&& r.len() == 4
    &&& height > 0
    &&& width > 0
    &&& r[0].lat == south && r[0].lon == west
    &&& r[1].lat == south && r[1].lon == west + width
    &&& r[2].lat == south + height && r[2].lon == west + width
    &&& r[3].lat == south + height && r[3].lon == west
}

proof fn lemma_box_turns(r: Seq<WarningPoint>, south: int, west: int, height: int, width: int)
    requires
        is_box(r, south, west, height, width),
    ensures
        polygon::cross(r[0], r[1], r[2]) == width * height,
        polygon::cross(r[1], r[2], r[3]) == width * height,
        polygon::cross(r[2], r[3], r[0]) == width * height,
        polygon::cross(r[3], r[0], r[1]) == width * height,
        polygon::cross(r[0], r[2], r[3]) == width * height,
        polygon::cross(r[0], r[1], r[3]) == width * height,
        polygon::cross(r[0], r[2], r[1]) == -(width * height),
        polygon::cross(r[2], r[3], r[1]) == width * height,
        polygon::cross(r[1], r[3], r[0]) == width * height,
        polygon::cross(r[1], r[3], r[2]) == -(width * height),
        polygon::cross(r[1], r[2], r[0]) == width * height,
        polygon::cross(r[3], r[0], r[2]) == width * height,
        width * height > 0,
{
    assert(width * height > 0) by (nonlinear_arith)
        requires
            width > 0,
            height > 0,
    ;
    let w = width;
    let h = height;
    assert((w - 0) * (h - 0) - (0int - 0) * (w - 0) == w * h) by (nonlinear_arith);
    assert(0 * h - h * (-w) == w * h) by (nonlinear_arith);
    assert((-w) * (-h) - 0 * 0 == w * h) by (nonlinear_arith);
    assert(0 * (-h) - (-h) * w == w * h) by (nonlinear_arith);
    assert(w * h - h * 0 == w * h) by (nonlinear_arith);
    assert(w * 0 - h * w == -(w * h)) by (nonlinear_arith);
    assert((-w) * (-h) - 0 * 0 == w * h) by (nonlinear_arith);
    assert((-w) * 0 - h * (-w) == w * h) by (nonlinear_arith);
    assert((-w) * h - h * 0 == -(w * h)) by (nonlinear_arith);
    assert(0 * 0 - h * (-w) == w * h) by (nonlinear_arith);
    assert(0 * 0 - (-h) * w == w * h) by (nonlinear_arith);
    assert((-w) * (-h) - 0 * (0 - 0) == w * h) by (nonlinear_arith);
    assert(w * h - 0 * w == w * h) by (nonlinear_arith);
    assert(w * h - 0 * 0 == w * h) by (nonlinear_arith);
    assert(0 * h - (-h) * w == w * h) by (nonlinear_arith);
    assert(0 * 0 - (-h) * w == w * h) by (nonlinear_arith);
    assert((-w) * (-h) - 0 * w == w * h) by (nonlinear_arith);
    assert((-w) * (-h) - 0 * 0 == w * h) by (nonlinear_arith);
}

/// A box, however large, is a simple outline that always turns the same way,
/// and its doubled area is twice its height times its width. The same corners
/// with two of them changed, whose edges cross, are no simple outline.
pub proof fn boxes_are_simple_and_convex(
    r: Seq<WarningPoint>,
    south: int,
    west: int,
    height: int,
    width: int,
)
    requires
        is_box(r, south, west, height, width),
    ensures
        polygon::outline(r) == Some(r),
        polygon::convex(r),
        !polygon::self_intersecting(r),
        polygon::area_of(r) == Some(2 * (width * height)),
        polygon::self_intersecting(seq![r[0], r[2], r[1], r[3]]),
        polygon::area_of(seq![r[0], r[2], r[1], r[3]]) is None,
{
    outlines_have_the_points_for_corners(r);
    assert(no_repeat(r));
    lemma_box_turns(r, south, west, height, width);
    assert(polygon::turn(r, 0) == width * height);
    assert(polygon::turn(r, 1) == width * height);
    assert(polygon::turn(r, 2) == width * height);
    assert(polygon::turn(r, 3) == width * height);
    assert(polygon::turns_left(r, 4));
    if polygon::turns_right(r, 4) {
        let i = choose|i: int| 0 <= i < 4 && #[trigger] polygon::turn(r, i) < 0;
        assert(i == 0 || i == 1 || i == 2 || i == 3);
    }
    if polygon::self_intersecting(r) {
        let (i, j) = choose|i: int, j: int| polygon::edges_clash(r, i, j);
        assert((i == 0 && j == 2) || (i == 1 && j == 3));
    }
    let one = r.take(2);
    let two = r.take(3);
    areas_add_triangles(one, r[2]);
    assert(one.push(r[2]) =~= two);
    areas_add_triangles(two, r[3]);
    assert(two.push(r[3]) =~= r);
    assert(one.last() == r[1] && two.last() == r[2] && one[0] == r[0] && two[0] == r[0]);
    assert(polygon::swept(r, 4) == width * height + width * height);
    let x = seq![r[0], r[2], r[1], r[3]];
    assert(x[0] == r[0] && x[1] == r[2] && x[2] == r[1] && x[3] == r[3]);
    assert(polygon::edges_meet(x[0], x[1], x[2], x[3]));
    assert(polygon::next(0, 4) == 1 && polygon::next(2, 4) == 3);
    assert(polygon::edges_clash(x, 0, 2));
    outlines_have_the_points_for_corners(x);
    assert(no_repeat(x));
}

/// Whether two edges meet does not depend on which is named first, nor on the
/// way either runs; an edge meets every edge that begins or ends at one of its
/// ends.
pub proof fn edges_meet_whichever_way_they_run(
    a: WarningPoint,
    b: WarningPoint,
    c: WarningPoint,
    d: WarningPoint,
)
    ensures
        polygon::edges_meet(a, b, c, d) == polygon::edges_meet(c, d, a, b),
        polygon::edges_meet(a, b, c, d) == polygon::edges_meet(b, a, c, d),
        polygon::edges_meet(a, b, c, d) == polygon::edges_meet(a, b, d, c),
        polygon::edges_meet(a, b, b, d),
        polygon::edges_meet(a, b, c, a),
{
    lemma_turned(a, b, c);
    lemma_turned(a, b, d);
    lemma_turned(c, d, a);
    lemma_turned(c, d, b);
    assert((b.lon - a.lon) * (b.lat - a.lat) == (b.lat - a.lat) * (b.lon - a.lon))
        by (nonlinear_arith);
    assert(polygon::on_edge(a, b, b));
    assert((b.lon - a.lon) * (a.lat - a.lat) == 0) by (nonlinear_arith);
    assert((b.lat - a.lat) * (a.lon - a.lon) == 0) by (nonlinear_arith);
    assert(polygon::on_edge(a, b, a));
}

proof fn lemma_turned(a: WarningPoint, b: WarningPoint, p: WarningPoint)
    ensures
        polygon::cross(b, a, p) == -polygon::cross(a, b, p),
{
    lemma_cross(
        a.lon as int,
        a.lat as int,
        b.lon as int,
        b.lat as int,
        p.lon as int,
        p.lat as int,
    );
    lemma_cross(
        b.lon as int,
        b.lat as int,
        a.lon as int,
        a.lat as int,
        p.lon as int,
        p.lat as int,
    );
    assert((b.lon * a.lat - a.lon * b.lat) + (a.lon * p.lat - p.lon * a.lat) + (p.lon * b.lat
        - b.lon * p.lat) == -((a.lon * b.lat - b.lon * a.lat) + (b.lon * p.lat - p.lon * b.lat) + (
    p.lon * a.lat - a.lon * p.lat))) by (nonlinear_arith);
}

/// A turn is to the left or to the right; an outline is convex exactly if it
/// turns one of these ways somewhere and the other nowhere.
pub proof fn convex_outlines_turn_one_way(r: Seq<WarningPoint>)
    ensures
        ({
            let left = exists|i: int| 0 <= i < r.len() && #[trigger] polygon::turn(r, i) > 0;
            let right = exists|i: int| 0 <= i < r.len() && #[trigger] polygon::turn(r, i) < 0;
            polygon::convex(r) <==> (left && !right) || (right && !left)
        }),
{
}

/// Metrics tell the area of each polygon, where it has one, and the outlines
/// to clip, the left one first, where both are simple and convex.
pub proof fn metrics_tell_areas_and_outlines(left: RecordView, right: RecordView)
    ensures
        ({
            let m = metrics::metrics_of(left, right);
            let a = polygon::outline(left.polygon->0.points);
            let b = polygon::outline(right.polygon->0.points);
            &&& left.polygon is None ==> m.left.area is None && m.outlines is None
            &&& right.polygon is None ==> m.right.area is None && m.outlines is None
            &&& left.polygon is Some ==> m.left.area == polygon::area_of(left.polygon->0.points)
            &&& right.polygon is Some ==> m.right.area == polygon::area_of(right.polygon->0.points)
            &&& left.polygon is Some && right.polygon is Some ==> (m.outlines is Some <==> a is Some
                && b is Some && !polygon::self_intersecting(a->0) && !polygon::self_intersecting(
                b->0,
            ) && polygon::convex(a->0) && polygon::convex(b->0))
            &&& m.outlines is Some ==> m.outlines->0 == (a->0, b->0)
        }),
{
}

} // verus!
