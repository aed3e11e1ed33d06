//! The four corner diagonals of the spiral, their value formulas, and the
//! classifier that tells which corner governs the edge a point lies on.

use crate::grid::{Coordinate, GridValue};
use vstd::prelude::*;

verus! {

/// One of the four diagonals through the centre, named by the corner it reaches.
#[derive(Clone, Copy, Debug, PartialEq, Eq, Structural, Hash)]
pub enum Diagonal {
    TopLeft,
    TopRight,
    BottomLeft,
    BottomRight,
}

impl Diagonal {
    /// Step along the x axis from one corner of the diagonal to the next.
    pub open spec fn x_incr(self) -> int {
        match self {
            Diagonal::TopLeft | Diagonal::BottomLeft => -1,
            Diagonal::TopRight | Diagonal::BottomRight => 1,
        }
    }

    /// Step along the y axis from one corner of the diagonal to the next.
    pub open spec fn y_incr(self) -> int {
        match self {
            Diagonal::TopLeft | Diagonal::TopRight => 1,
            Diagonal::BottomLeft | Diagonal::BottomRight => -1,
        }
    }

    /// The constant of the diagonal's corner formula.
    pub open spec fn base(self) -> int {
        match self {
            Diagonal::TopLeft => 5,
            Diagonal::TopRight => 3,
            Diagonal::BottomLeft => 7,
            Diagonal::BottomRight => 9,
        }
    }
}

/// The spiral value at the corner of ring `r` on diagonal `d`.
pub open spec fn corner_value(d: Diagonal, r: int) -> int {
    4 * r * r - r * (5 - d.base()) + 1
}

/// The diagonal whose corner ends the edge that `(x, y)` lies on. Each
/// quarter of the plane between two diagonal lines takes the corner that
/// the spiral reaches last, the diagonal lines included.
pub open spec fn diagonal_ahead(x: int, y: int) -> Diagonal {
    if x > 0 && -x < y <= x {
        Diagonal::TopRight
    } else if y > 0 && -y <= x < y {
        Diagonal::TopLeft
    } else if x < 0 && x <= y < -x {
        Diagonal::BottomLeft
    } else {
        Diagonal::BottomRight
    }
}

/// The constants that generate one diagonal's corners.
#[derive(Clone, Copy, Debug, PartialEq, Eq, Structural)]
pub struct GeneratorAttributes {
    pub base_value: u8,
    pub x_incr: i8,
    pub y_incr: i8,
}

impl GeneratorAttributes {
    /// These are the constants of diagonal `d`.
    pub open spec fn describes(self, d: Diagonal) -> bool {
        &&& self.base_value as int == d.base()
        &&& self.x_incr as int == d.x_incr()
        &&& self.y_incr as int == d.y_incr()
    }
}

/// The generating constants of all four diagonals.
#[derive(Clone, Copy, Debug, PartialEq, Eq, Structural)]
pub struct DiagonalTable {
    pub top_left: GeneratorAttributes,
    pub top_right: GeneratorAttributes,
    pub bottom_left: GeneratorAttributes,
    pub bottom_right: GeneratorAttributes,
}

impl DiagonalTable {
    /// The entry of the table for diagonal `d`.
    pub open spec fn spec_get(self, d: Diagonal) -> GeneratorAttributes {
        match d {
            Diagonal::TopLeft => self.top_left,
            Diagonal::TopRight => self.top_right,
            Diagonal::BottomLeft => self.bottom_left,
            Diagonal::BottomRight => self.bottom_right,
        }
    }

    /// Every entry holds the constants of its own diagonal.
    pub open spec fn wf(self) -> bool {
        forall|d: Diagonal| #[trigger] self.spec_get(d).describes(d)
    }

    /// The constants recorded for diagonal `d`.
    pub fn get(&self, d: &Diagonal) -> (a: GeneratorAttributes)
        ensures
            a == self.spec_get(*d),
    {
        match d {
            Diagonal::TopLeft => self.top_left,
            Diagonal::TopRight => self.top_right,
            Diagonal::BottomLeft => self.bottom_left,
            Diagonal::BottomRight => self.bottom_right,
        }
    }
}

/// The table of the four diagonals' constants.
pub fn get_diagonal_properties() -> (t: DiagonalTable)
    ensures
        t.wf(),
{
    let t = DiagonalTable {
        top_left: GeneratorAttributes { base_value: 5, x_incr: -1, y_incr: 1 },
        top_right: GeneratorAttributes { base_value: 3, x_incr: 1, y_incr: 1 },
        bottom_left: GeneratorAttributes { base_value: 7, x_incr: -1, y_incr: -1 },
        bottom_right: GeneratorAttributes { base_value: 9, x_incr: 1, y_incr: -1 },
    };
    assert forall|d: Diagonal| #[trigger] t.spec_get(d).describes(d) by {
        match d {
            Diagonal::TopLeft => {},
            Diagonal::TopRight => {},
            Diagonal::BottomLeft => {},
            Diagonal::BottomRight => {},
        }
    }
    t
}

/// The corner of ring `ring` on the diagonal with the given constants: its
/// point `(x_incr * ring, y_incr * ring)` and its value
/// `4 ring^2 - ring (5 - base_value) + 1`, computed in 128 bits.
pub fn get_diagonal_value(x_incr: i8, y_incr: i8, base_value: u8, ring: u64) -> (g: GridValue)
    requires
        x_incr == 1 || x_incr == -1,
        y_incr == 1 || y_incr == -1,
        3 <= base_value <= 9,
        ring <= i64::MAX,
    ensures
        g.coord.x == x_incr * ring,
        g.coord.y == y_incr * ring,
        g.value == 4 * ring * ring - ring * (5 - base_value) + 1,
{
    let r = ring as u128;
    proof {
        let ri = r as int;
        assert(4 * ri * ri + 4 * ri + 1 <= u128::MAX) by (nonlinear_arith)
            requires
                0 <= ri <= i64::MAX,
        ;
        assert(4 * ri * ri >= 2 * ri) by (nonlinear_arith)
            requires
                0 <= ri,
        ;
    }
    let square = 4 * r * r;
    let value = if base_value >= 5 {
        let k = (base_value - 5) as u128;
        assert(r * k <= 4 * r) by (nonlinear_arith)
            requires
                k <= 4,
        ;
        assert(ring * (5 - base_value) == -(r * k)) by (nonlinear_arith)
            requires
                k == base_value - 5,
                r == ring,
        ;
        square + r * k + 1
    } else {
        let k = (5 - base_value) as u128;
        assert(r * k <= 2 * r) by (nonlinear_arith)
            requires
                k <= 2,
        ;
        assert(ring * (5 - base_value) == r * k) by (nonlinear_arith)
            requires
                k == 5 - base_value,
                r == ring,
        ;
        square - r * k + 1
    };
    let x = if x_incr == 1 { ring as i64 } else { -(ring as i64) };
    let y = if y_incr == 1 { ring as i64 } else { -(ring as i64) };
    GridValue { coord: Coordinate { x, y }, value }
}

/// Which corner governs the edge that `coord` lies on; the centre has none.
pub fn get_diagonal_ahead(coord: &Coordinate) -> (d: Diagonal)
    requires
        coord.x != 0 || coord.y != 0,
    ensures
        d == diagonal_ahead(coord.x as int, coord.y as int),
{
    let x = coord.x as i128;
    let y = coord.y as i128;
    let ax = if x < 0 { -x } else { x };
    let ay = if y < 0 { -y } else { y };
    if ax == ay {
        if x > 0 && y > 0 {
            Diagonal::TopRight
        } else if x > 0 && y < 0 {
            Diagonal::BottomRight
        } else if x < 0 && y > 0 {
            Diagonal::TopLeft
        } else {
            Diagonal::BottomLeft
        }
    } else if x > ay {
        Diagonal::TopRight
    } else if x < -ay {
        Diagonal::BottomLeft
    } else if ax < y {
        Diagonal::TopLeft
    } else {
        Diagonal::BottomRight
    }
}

} // verus!
