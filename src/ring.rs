//! Ring arithmetic: exact integer square roots and the ring that holds a value.

use integer_sqrt::IntegerSquareRoot;
use vstd::prelude::*;

verus! {

/// `r` is the smallest natural number whose square is at least `n`.
pub open spec fn is_ceil_sqrt(n: int, r: int) -> bool {
    &&& r >= 0
    &&& r * r >= n
    &&& r == 0 || (r - 1) * (r - 1) < n
}

/// The value `v` lies in ring `r` of the spiral: the centre cell for ring 0,
/// and for `r >= 1` the values after `(2r - 1)^2` up to `(2r + 1)^2`.
pub open spec fn in_ring(v: int, r: int) -> bool {
    if r == 0 {
        v == 1
    } else {
        r > 0 && (2 * r - 1) * (2 * r - 1) < v <= (2 * r + 1) * (2 * r + 1)
    }
}

/// Relies on `IntegerSquareRoot::integer_sqrt` of the integer-sqrt crate:
/// the floor of the square root, for every unsigned input.
#[verifier::external_body]
fn floor_sqrt(n: u64) -> (r: u64)
    ensures
        r * r <= n < (r + 1) * (r + 1),
{
    n.integer_sqrt()
}

/// The smallest `r` with `r * r >= n`, for `n >= 1`.
pub fn ceil_sqrt(n: u64) -> (r: u64)
    requires
        n >= 1,
    ensures
        is_ceil_sqrt(n as int, r as int),
        1 <= r <= 0x1_0000_0000,
{
    if n == 1 {
        1
    } else {
        let s = floor_sqrt(n - 1);
        proof {
            let si = s as int;
            assert(si < 0x1_0000_0000) by (nonlinear_arith)
                requires
                    si * si < 0x1_0000_0000_0000_0000,
                    si >= 0,
            ;
            assert((si + 1) * (si + 1) >= n);
        }
        s + 1
    }
}

/// The index of the ring of the spiral that holds `target`.
pub fn get_number_ring(target: u64) -> (r: u64)
    requires
        target >= 1,
    ensures
        in_ring(target as int, r as int),
        r <= 0x8000_0000,
{
    let c = ceil_sqrt(target);
    let r = c / 2;
    proof {
        let ci = c as int;
        let ri = r as int;
        if ri > 0 {
            if ci == 2 * ri {
                assert((2 * ri - 1) * (2 * ri - 1) < target);
                assert(target <= (2 * ri + 1) * (2 * ri + 1)) by (nonlinear_arith)
                    requires
                        ri >= 0,
                        target <= (2 * ri) * (2 * ri),
                ;
            } else {
                assert(ci == 2 * ri + 1);
                assert((2 * ri - 1) * (2 * ri - 1) < target) by (nonlinear_arith)
                    requires
                        ri >= 1,
                        (2 * ri) * (2 * ri) < target,
                ;
            }
        } else {
            assert(ci == 1);
        }
        assert(in_ring(target as int, ri));
    }
    r
}

} // verus!
