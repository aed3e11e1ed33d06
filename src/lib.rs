//! Grambulation: a binary operation on positive integers, defined through
//! their positions on the square spiral of positive integers centred at 1.
//!
//! To grambulate `a` and `b`, find their points `a'` and `b'` on the spiral,
//! reflect `a'` through `b'`, and read the value held by the point reached.

pub mod diagonal;
pub mod grid;
pub mod ring;
pub mod spiral;

pub use diagonal::{
    get_diagonal_ahead, get_diagonal_properties, get_diagonal_value, Diagonal, DiagonalTable,
    GeneratorAttributes,
};
pub use grid::{Coordinate, GridValue};
pub use ring::{ceil_sqrt, get_number_ring};
pub use spiral::{get_coords, get_value_at_coords};

use spiral::{position_of, value_at};
use vstd::prelude::*;

verus! {

/// Why a grambulation produced no value.
#[derive(Clone, Copy, Debug, PartialEq, Eq, Structural)]
pub enum GrambulateError {
    /// One of the two operands is zero, which the spiral does not hold.
    ZeroInput,
    /// The resulting value is greater than `u64::MAX`.
    ResultTooLarge,
}

/// The grambulation of two positive values: the value held by the
/// reflection of `a`'s point through `b`'s point.
pub open spec fn grambulation(a: int, b: int) -> int {
    let pa = position_of(a);
    let pb = position_of(b);
    value_at(2 * pb.0 - pa.0, 2 * pb.1 - pa.1)
}

/// Grambulate `value_a` with `value_b`: find their points `a'` and `b'`,
/// apply the vector from `a'` to `b'` once more to `b'`, and return the value
/// held by the point reached. Fails with `ZeroInput` when an operand is zero,
/// and with `ResultTooLarge` when that value does not fit in a `u64`.
pub fn grambulate(value_a: u64, value_b: u64) -> (r: Result<u64, GrambulateError>)
    ensures
        r == Err::<u64, GrambulateError>(GrambulateError::ZeroInput) <==> (value_a == 0 || value_b
            == 0),
        r == Err::<u64, GrambulateError>(GrambulateError::ResultTooLarge) <==> (value_a != 0
            && value_b != 0 && grambulation(value_a as int, value_b as int) > u64::MAX),
        r is Ok <==> (value_a != 0 && value_b != 0 && grambulation(value_a as int, value_b as int)
            <= u64::MAX),
        r matches Ok(v) ==> v == grambulation(value_a as int, value_b as int),
{
    if value_a == 0 || value_b == 0 {
        return Err(GrambulateError::ZeroInput);
    }
    let props = get_diagonal_properties();
    let a_coords = get_coords(value_a, &props);
    let b_coords = get_coords(value_b, &props);
    let diff = (b_coords.x - a_coords.x, b_coords.y - a_coords.y);
    let result_coords = Coordinate { x: b_coords.x + diff.0, y: b_coords.y + diff.1 };
    let value = get_value_at_coords(&result_coords, &props);
    if value > u64::MAX as u128 {
        Err(GrambulateError::ResultTooLarge)
    } else {
        Ok(value as u64)
    }
}

} // verus!
