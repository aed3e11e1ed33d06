//! The spiral itself: the value held by each point of the plane, the point
//! that holds each value, and the two executable mappings between them.

use crate::diagonal::{
    corner_value, diagonal_ahead, get_diagonal_ahead, get_diagonal_value, Diagonal, DiagonalTable,
};
use crate::grid::{Coordinate, GridValue};
use crate::ring::{get_number_ring, in_ring};
use vstd::prelude::*;

verus! {

pub open spec fn abs(v: int) -> int {
    if v < 0 {
        -v
    } else {
        v
    }
}

/// The ring of the spiral that passes through `(x, y)`.
pub open spec fn ring_of_point(x: int, y: int) -> int {
    if abs(x) >= abs(y) {
        abs(x)
    } else {
        abs(y)
    }
}

/// The spiral value held by `(x, y)`: 1 at the centre; elsewhere the value
/// of the corner ahead on the same ring, less the distance back to it.
pub open spec fn value_at(x: int, y: int) -> int {
    if x == 0 && y == 0 {
        1
    } else {
        let r = ring_of_point(x, y);
        let d = diagonal_ahead(x, y);
        let corner = corner_value(d, r);
        match d {
            Diagonal::TopRight | Diagonal::BottomLeft => corner - abs(d.y_incr() * r - y),
            Diagonal::TopLeft | Diagonal::BottomRight => corner - abs(d.x_incr() * r - x),
        }
    }
}

/// The point `k` cells back from the corner of ring `r` on `d`, along the
/// edge that ends at that corner.
pub open spec fn edge_point(d: Diagonal, r: int, k: int) -> (int, int) {
    match d {
        Diagonal::TopLeft => (-r + k, r),
        Diagonal::TopRight => (r, r - k),
        Diagonal::BottomLeft => (-r, -r + k),
        Diagonal::BottomRight => (r - k, -r),
    }
}

/// How far `(x, y)` lies back from the corner ahead of it.
pub open spec fn edge_offset(x: int, y: int) -> int {
    let r = ring_of_point(x, y);
    match diagonal_ahead(x, y) {
        Diagonal::TopLeft => x + r,
        Diagonal::TopRight => r - y,
        Diagonal::BottomLeft => y + r,
        Diagonal::BottomRight => r - x,
    }
}

/// The point of the plane that holds the spiral value `v`.
pub open spec fn position_of(v: int) -> (int, int) {
    choose|p: (int, int)| value_at(p.0, p.1) == v
}

proof fn lemma_odd_squares(r: int)
    ensures
        (2 * r - 1) * (2 * r - 1) == 4 * (r * r) - 4 * r + 1,
        (2 * r + 1) * (2 * r + 1) == 4 * (r * r) + 4 * r + 1,
{
    assert((2 * r - 1) * (2 * r - 1) == 4 * (r * r) - 4 * r + 1) by (nonlinear_arith);
    assert((2 * r + 1) * (2 * r + 1) == 4 * (r * r) + 4 * r + 1) by (nonlinear_arith);
}

proof fn lemma_corner_values(r: int)
    ensures
        corner_value(Diagonal::TopRight, r) == 4 * (r * r) - 2 * r + 1,
        corner_value(Diagonal::TopLeft, r) == 4 * (r * r) + 1,
        corner_value(Diagonal::BottomLeft, r) == 4 * (r * r) + 2 * r + 1,
        corner_value(Diagonal::BottomRight, r) == 4 * (r * r) + 4 * r + 1,
{
    assert(4 * r * r == 4 * (r * r)) by (nonlinear_arith);
    assert(r * (5 - 3) == 2 * r) by (nonlinear_arith);
    assert(r * (5 - 5) == 0) by (nonlinear_arith);
    assert(r * (5 - 7) == -2 * r) by (nonlinear_arith);
    assert(r * (5 - 9) == -4 * r) by (nonlinear_arith);
}

/// Walking `k` cells back from a corner, for `k` short of the previous
/// corner, reaches a point of the same ring and sector whose value is the
/// corner's less `k`.
pub proof fn lemma_edge_point(d: Diagonal, r: int, k: int)
    requires
        r >= 1,
        0 <= k <= 2 * r - 1,
    ensures
        edge_point(d, r, k) != (0int, 0int),
        ring_of_point(edge_point(d, r, k).0, edge_point(d, r, k).1) == r,
        diagonal_ahead(edge_point(d, r, k).0, edge_point(d, r, k).1) == d,
        value_at(edge_point(d, r, k).0, edge_point(d, r, k).1) == corner_value(d, r) - k,
{
    lemma_corner_values(r);
}

/// Every point but the centre lies on the edge of its ring that ends at the
/// corner ahead of it, less than a full edge back from that corner.
proof fn lemma_point_on_edge(x: int, y: int)
    requires
        x != 0 || y != 0,
    ensures
        ring_of_point(x, y) >= 1,
        0 <= edge_offset(x, y) <= 2 * ring_of_point(x, y) - 1,
        edge_point(diagonal_ahead(x, y), ring_of_point(x, y), edge_offset(x, y)) == (x, y),
        value_at(x, y) == corner_value(diagonal_ahead(x, y), ring_of_point(x, y)) - edge_offset(
            x,
            y,
        ),
{
    lemma_corner_values(ring_of_point(x, y));
}

/// The value held by a point lies in the range of that point's ring.
pub proof fn lemma_value_in_ring(x: int, y: int)
    ensures
        in_ring(value_at(x, y), ring_of_point(x, y)),
{
    if x != 0 || y != 0 {
        let r = ring_of_point(x, y);
        lemma_point_on_edge(x, y);
        lemma_corner_values(r);
        lemma_odd_squares(r);
    }
}

/// No value lies in two rings.
pub proof fn lemma_ring_unique(v: int, r1: int, r2: int)
    requires
        in_ring(v, r1),
        in_ring(v, r2),
    ensures
        r1 == r2,
{
    if r1 != r2 {
        let lo = if r1 < r2 { r1 } else { r2 };
        let hi = if r1 < r2 { r2 } else { r1 };
        assert(in_ring(v, lo) && in_ring(v, hi));
        assert((2 * lo + 1) * (2 * lo + 1) <= (2 * hi - 1) * (2 * hi - 1)) by (nonlinear_arith)
            requires
                0 <= lo < hi,
        ;
        if lo == 0 {
            assert((2 * lo + 1) * (2 * lo + 1) == 1) by (nonlinear_arith)
                requires
                    lo == 0,
            ;
        }
        assert(v <= (2 * lo + 1) * (2 * lo + 1));
        assert((2 * hi - 1) * (2 * hi - 1) < v);
    }
}

/// Every positive value lies in some ring.
pub proof fn lemma_ring_exists(v: int) -> (r: int)
    requires
        v >= 1,
    ensures
        r >= 0,
        in_ring(v, r),
    decreases v,
{
    if v == 1 {
        0
    } else {
        let prev = lemma_ring_exists(v - 1);
        if prev == 0 {
            assert(in_ring(v, 1));
            1
        } else if v <= (2 * prev + 1) * (2 * prev + 1) {
            prev
        } else {
            assert(v <= (2 * prev + 3) * (2 * prev + 3)) by (nonlinear_arith)
                requires
                    prev >= 1,
                    v == (2 * prev + 1) * (2 * prev + 1) + 1,
            ;
            let next = prev + 1;
            assert(2 * next - 1 == 2 * prev + 1);
            assert(2 * next + 1 == 2 * prev + 3);
            assert(in_ring(v, next));
            next
        }
    }
}

/// Distinct points hold distinct values.
pub proof fn lemma_value_at_injective(x1: int, y1: int, x2: int, y2: int)
    requires
        value_at(x1, y1) == value_at(x2, y2),
    ensures
        x1 == x2 && y1 == y2,
{
    let r1 = ring_of_point(x1, y1);
    let r2 = ring_of_point(x2, y2);
    lemma_value_in_ring(x1, y1);
    lemma_value_in_ring(x2, y2);
    lemma_ring_unique(value_at(x1, y1), r1, r2);
    if x1 != 0 || y1 != 0 {
        lemma_point_on_edge(x1, y1);
        lemma_point_on_edge(x2, y2);
        lemma_corner_values(r1);
    }
}

/// Every positive value is held by some point.
pub proof fn lemma_position_exists(v: int) -> (p: (int, int))
    requires
        v >= 1,
    ensures
        value_at(p.0, p.1) == v,
{
    let r = lemma_ring_exists(v);
    if r == 0 {
        (0, 0)
    } else {
        lemma_corner_values(r);
        lemma_odd_squares(r);
        let d = if v <= corner_value(Diagonal::TopRight, r) {
            Diagonal::TopRight
        } else if v <= corner_value(Diagonal::TopLeft, r) {
            Diagonal::TopLeft
        } else if v <= corner_value(Diagonal::BottomLeft, r) {
            Diagonal::BottomLeft
        } else {
            Diagonal::BottomRight
        };
        lemma_edge_point(d, r, corner_value(d, r) - v);
        edge_point(d, r, corner_value(d, r) - v)
    }
}

/// The point found for a positive value holds that value.
pub proof fn lemma_round_trip(v: int)
    requires
        v >= 1,
    ensures
        value_at(position_of(v).0, position_of(v).1) == v,
{
    let p = lemma_position_exists(v);
    assert(value_at(p.0, p.1) == v);
}

/// The value held by a point leads back to that point.
pub proof fn lemma_position_of_value(x: int, y: int)
    ensures
        position_of(value_at(x, y)) == (x, y),
{
    let v = value_at(x, y);
    let q = (x, y);
    assert(value_at(q.0, q.1) == v);
    let p = position_of(v);
    lemma_value_at_injective(p.0, p.1, x, y);
}

/// Distinct positive values are found at distinct points.
pub proof fn lemma_position_injective(v1: int, v2: int)
    requires
        v1 >= 1,
        v2 >= 1,
        position_of(v1) == position_of(v2),
    ensures
        v1 == v2,
{
    lemma_round_trip(v1);
    lemma_round_trip(v2);
}

/// The corner of every ring past the centre is classified under its own diagonal.
pub proof fn lemma_corner_ahead(d: Diagonal, r: int)
    requires
        r >= 1,
    ensures
        diagonal_ahead(d.x_incr() * r, d.y_incr() * r) == d,
{
    lemma_edge_point(d, r, 0);
    assert(edge_point(d, r, 0) == (d.x_incr() * r, d.y_incr() * r));
}

/// The spiral value held by `coord`, in 128 bits: every point whose
/// components exceed `i64::MIN` holds a value that fits there.
pub fn get_value_at_coords(coord: &Coordinate, props: &DiagonalTable) -> (v: u128)
    requires
        props.wf(),
        coord.x > i64::MIN,
        coord.y > i64::MIN,
    ensures
        v == value_at(coord.x as int, coord.y as int),
{
    if coord.x == 0 && coord.y == 0 {
        return 1;
    }
    let ax = if coord.x < 0 { -coord.x } else { coord.x };
    let ay = if coord.y < 0 { -coord.y } else { coord.y };
    let ring = if ax >= ay { ax as u64 } else { ay as u64 };
    let diagonal = get_diagonal_ahead(coord);
    let attrs = props.get(&diagonal);
    assert(attrs.describes(diagonal));
    let corner = get_diagonal_value(attrs.x_incr, attrs.y_incr, attrs.base_value, ring);
    proof {
        lemma_value_in_ring(coord.x as int, coord.y as int);
        lemma_point_on_edge(coord.x as int, coord.y as int);
    }
    match diagonal {
        Diagonal::TopRight | Diagonal::BottomLeft => {
            let gap = corner.coord.y as i128 - coord.y as i128;
            let dist = if gap < 0 { (-gap) as u128 } else { gap as u128 };
            corner.value - dist
        },
        Diagonal::TopLeft | Diagonal::BottomRight => {
            let gap = corner.coord.x as i128 - coord.x as i128;
            let dist = if gap < 0 { (-gap) as u128 } else { gap as u128 };
            corner.value - dist
        },
    }
}

/// The point that holds the spiral value `target`: the corner nearest
/// ahead of `target` on its ring, walked back by the difference.
pub fn get_coords(target: u64, props: &DiagonalTable) -> (c: Coordinate)
    requires
        target >= 1,
        props.wf(),
    ensures
        c@ == position_of(target as int),
        value_at(c.x as int, c.y as int) == target,
        abs(c.x as int) <= 0x8000_0000,
        abs(c.y as int) <= 0x8000_0000,
{
    let ring = get_number_ring(target);
    let diagonals: [Diagonal; 4] = [
        Diagonal::TopLeft,
        Diagonal::TopRight,
        Diagonal::BottomLeft,
        Diagonal::BottomRight,
    ];
    let mut best_diag = Diagonal::TopLeft;
    let mut best_diff: u128 = u128::MAX;
    let mut best = GridValue { coord: Coordinate { x: 0, y: 0 }, value: 0 };
    let mut i: usize = 0;
    while i < 4
        invariant
            0 <= i <= 4,
            diagonals@ == seq![
                Diagonal::TopLeft,
                Diagonal::TopRight,
                Diagonal::BottomLeft,
                Diagonal::BottomRight,
            ],
            props.wf(),
            in_ring(target as int, ring as int),
            ring <= 0x8000_0000,
            best_diff < u128::MAX ==> {
                &&& best.value == corner_value(best_diag, ring as int)
                &&& best.value >= target
                &&& best_diff == best.value - target
                &&& best.coord@ == (best_diag.x_incr() * ring, best_diag.y_incr() * ring)
            },
            forall|j: int|
                0 <= j < i && corner_value(#[trigger] diagonals@[j], ring as int) >= target
                    ==> corner_value(diagonals@[j], ring as int) - target >= best_diff,
        decreases 4 - i,
    {
        let d = diagonals[i];
        let attrs = props.get(&d);
        assert(attrs.describes(d));
        let g = get_diagonal_value(attrs.x_incr, attrs.y_incr, attrs.base_value, ring);
        proof {
            lemma_corner_values(ring as int);
        }
        if g.value >= target as u128 {
            let diff = g.value - target as u128;
            if diff < best_diff {
                best_diag = d;
                best_diff = diff;
                best = g;
            }
        }
        i += 1;
    }
    proof {
        let r = ring as int;
        let t = target as int;
        lemma_corner_values(r);
        lemma_odd_squares(r);
        assert(corner_value(diagonals@[3], r) >= t);
        assert(corner_value(diagonals@[0], r) >= t ==> corner_value(diagonals@[0], r) - t
            >= best_diff);
        assert(corner_value(diagonals@[1], r) >= t ==> corner_value(diagonals@[1], r) - t
            >= best_diff);
        assert(corner_value(diagonals@[2], r) >= t ==> corner_value(diagonals@[2], r) - t
            >= best_diff);
        if r >= 1 {
            assert(best_diff <= 2 * r - 1);
            lemma_edge_point(best_diag, r, best_diff as int);
        }
    }
    let delta = best_diff as i64;
    let c = match best_diag {
        Diagonal::TopLeft => Coordinate { x: best.coord.x + delta, y: best.coord.y },
        Diagonal::TopRight => Coordinate { x: best.coord.x, y: best.coord.y - delta },
        Diagonal::BottomLeft => Coordinate { x: best.coord.x, y: best.coord.y + delta },
        Diagonal::BottomRight => Coordinate { x: best.coord.x - delta, y: best.coord.y },
    };
    proof {
        if ring >= 1 {
            assert(c@ == edge_point(best_diag, ring as int, best_diff as int));
        }
        lemma_position_of_value(c.x as int, c.y as int);
    }
    c
}

} // verus!
