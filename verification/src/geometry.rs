use vstd::prelude::*;

use crate::data_structures::{Coordinates, CoordV, Polygon, Region, LAT_LIMIT, LON_LIMIT};

verus! {

/// Twice the signed area of the triangle (a, b, p): positive when p lies
/// strictly to the left of the directed edge from a to b, zero when the
/// three points are collinear.
pub open spec fn cross(a: CoordV, b: CoordV, p: CoordV) -> int {
    (b.x - a.x) * (p.y - a.y) - (b.y - a.y) * (p.x - a.x)
}

/// Whether v lies between lo and hi, whichever order the two come in.
pub open spec fn within(lo: int, hi: int, v: int) -> bool {
    (lo <= v && v <= hi) || (hi <= v && v <= lo)
}

/// Whether p lies on the closed segment from a to b: collinear with the two
/// ends and inside their bounding box.
pub open spec fn on_segment(a: CoordV, b: CoordV, p: CoordV) -> bool {
    cross(a, b, p) == 0 && within(a.x, b.x, p.x) && within(a.y, b.y, p.y)
}

/// Whether the horizontal ray from p towards growing x crosses the edge from
/// a to b: the edge spans p's y half-open (lower end included, upper end
/// excluded), and the crossing point lies strictly to the right of p.
pub open spec fn edge_crosses_ray(a: CoordV, b: CoordV, p: CoordV) -> bool {
    ||| (a.y <= p.y < b.y && cross(a, b, p) > 0)
    ||| (b.y <= p.y < a.y && cross(a, b, p) < 0)
}

/// How many of the ring's first n edges the horizontal ray from p crosses;
/// edge k runs from vertex k to vertex k + 1.
pub open spec fn crossings_upto(ring: Seq<CoordV>, p: CoordV, n: int) -> int
    decreases n,
{
    if n <= 0 {
        0
    } else {
        crossings_upto(ring, p, n - 1) + if edge_crosses_ray(ring[n - 1], ring[n], p) {
            1int
        } else {
            0int
        }
    }
}

/// Whether p lies on one of the ring's first n edges.
pub open spec fn on_boundary_upto(ring: Seq<CoordV>, p: CoordV, n: int) -> bool {
    exists|k: int| 0 <= k < n && #[trigger] on_segment(ring[k], ring[k + 1], p)
}

/// Whether p lies on the ring itself.
pub open spec fn on_ring(ring: Seq<CoordV>, p: CoordV) -> bool {
    on_boundary_upto(ring, p, ring.len() - 1)
}

/// The containment rule: p is inside the ring when it does not lie on the
/// ring itself and the horizontal ray from p crosses the ring's edges an odd
/// number of times. A point exactly on an edge or vertex counts as outside.
pub open spec fn ring_contains(ring: Seq<CoordV>, p: CoordV) -> bool {
    &&& !on_ring(ring, p)
    &&& crossings_upto(ring, p, ring.len() - 1) % 2 == 1
}

/// Whether any one of the region's polygons contains p.
pub open spec fn region_has_coord(region: Region, p: CoordV) -> bool {
    exists|i: int|
        0 <= i < region.polygons@.len() && #[trigger] ring_contains(region.polygons@[i]@, p)
}

/// A product of two bounded factors stays within the product of the bounds.
proof fn lemma_mul_bound(a: int, b: int, bound_a: int, bound_b: int)
    by (nonlinear_arith)
    requires
        -bound_a <= a <= bound_a,
        -bound_b <= b <= bound_b,
        0 <= bound_a,
        0 <= bound_b,
    ensures
        -(bound_a * bound_b) <= a * b <= bound_a * bound_b,
{
}

/// Evaluates `cross` exactly: the coordinate ranges keep every intermediate
/// product well inside 128 bits.
fn cross_exec(a: &Coordinates, b: &Coordinates, p: &Coordinates) -> (r: i128)
    ensures
        r as int == cross(a@, b@, p@),
{
    let a_lon = a.longitude;
    let a_lat = a.latitude;
    let b_lon = b.longitude;
    let b_lat = b.latitude;
    let p_lon = p.longitude;
    let p_lat = p.latitude;
    proof {
        use_type_invariant(a_lon);
        use_type_invariant(a_lat);
        use_type_invariant(b_lon);
        use_type_invariant(b_lat);
        use_type_invariant(p_lon);
        use_type_invariant(p_lat);
    }
    let dx1: i128 = b_lon.val() as i128 - a_lon.val() as i128;
    let dy1: i128 = p_lat.val() as i128 - a_lat.val() as i128;
    let dy2: i128 = b_lat.val() as i128 - a_lat.val() as i128;
    let dx2: i128 = p_lon.val() as i128 - a_lon.val() as i128;
    proof {
        lemma_mul_bound(dx1 as int, dy1 as int, 2 * (LON_LIMIT as int), 2 * (LAT_LIMIT as int));
        lemma_mul_bound(dy2 as int, dx2 as int, 2 * (LAT_LIMIT as int), 2 * (LON_LIMIT as int));
    }
    dx1 * dy1 - dy2 * dx2
}

/// Whether v lies between lo and hi, whichever order the two come in.
fn within_exec(lo: i64, hi: i64, v: i64) -> (r: bool)
    ensures
        r == within(lo as int, hi as int, v as int),
{
    (lo <= v && v <= hi) || (hi <= v && v <= lo)
}

/// Decides ring containment for one polygon by the documented rule:
/// boundary excluded, interior by ray-crossing parity.
pub fn coordinate_in_ring(poly: &Polygon, c: &Coordinates) -> (r: bool)
    ensures
        r == ring_contains(poly@, c@),
{
    proof {
        use_type_invariant(poly);
    }
    let n = poly.vertex_count();
    let mut crossings: usize = 0;
    let mut on_edge = false;
    let mut i: usize = 0;
    while i < n - 1
        invariant
            4 <= n,
            n == poly@.len(),
            i <= n - 1,
            crossings <= i,
            crossings as int == crossings_upto(poly@, c@, i as int),
            on_edge ==> on_boundary_upto(poly@, c@, i as int),
            !on_edge ==> forall|k: int|
                0 <= k < i as int ==> !#[trigger] on_segment(poly@[k], poly@[k + 1], c@),
        decreases n - 1 - i,
    {
        let a = poly.vertex(i);
        let b = poly.vertex(i + 1);
        let cr = cross_exec(a, b, c);
        let ax = a.longitude.val();
        let ay = a.latitude.val();
        let bx = b.longitude.val();
        let by = b.latitude.val();
        let px = c.longitude.val();
        let py = c.latitude.val();
        let seg = cr == 0 && within_exec(ax, bx, px) && within_exec(ay, by, py);
        let crossed = (ay <= py && py < by && cr > 0) || (by <= py && py < ay && cr < 0);
        proof {
            assert(seg == on_segment(poly@[i as int], poly@[i as int + 1], c@));
            assert(crossed == edge_crosses_ray(poly@[i as int], poly@[i as int + 1], c@));
        }
        if seg {
            on_edge = true;
        }
        if crossed {
            crossings = crossings + 1;
        }
        i = i + 1;
    }
    !on_edge && crossings % 2 == 1
}

/// Decides whether the coordinate lies inside any of the region's polygons.
pub fn region_contains_coordinate(region: &Region, c: &Coordinates) -> (r: bool)
    ensures
        r == region_has_coord(*region, c@),
{
    let n = region.polygons.len();
    let mut i: usize = 0;
    while i < n
        invariant
            i <= n,
            n == region.polygons@.len(),
            forall|k: int|
                0 <= k < i as int ==> !#[trigger] ring_contains(region.polygons@[k]@, c@),
        decreases n - i,
    {
        if coordinate_in_ring(&region.polygons[i], c) {
            return true;
        }
        i = i + 1;
    }
    false
}

} // verus!
