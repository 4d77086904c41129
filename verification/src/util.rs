//! Small pure helpers: rectangle intersection and the signed divisions the
//! pixel-to-tile conversions and the ray walk use.
//!
//! In specifications, `/` on `int` rounds toward negative infinity for a
//! positive divisor, which is exactly the floor division the grid needs;
//! `tdiv` names Rust's own truncating division.

use vstd::prelude::*;

verus! {

/// Bound on the pixel coordinates and sizes the queries accept, far above
/// any reachable world size, low enough that sums and differences of a few
/// of them never overflow `i32`.
pub const PIXEL_LIMIT: i32 = 0x2000_0000;

/// Bound on the operands the division helpers accept.
pub const DIV_LIMIT: i32 = 0x4000_0000;

/// The larger of two integers.
pub open spec fn imax(a: int, b: int) -> int {
    if a >= b {
        a
    } else {
        b
    }
}

/// The smaller of two integers.
pub open spec fn imin(a: int, b: int) -> int {
    if a <= b {
        a
    } else {
        b
    }
}

/// Magnitude of an integer.
pub open spec fn iabs(a: int) -> int {
    if a >= 0 {
        a
    } else {
        -a
    }
}

/// Truncating (round toward zero) division, the semantics of Rust's `/`.
pub open spec fn tdiv(a: int, b: int) -> int {
    if a >= 0 {
        if b >= 0 {
            a / b
        } else {
            -(a / -b)
        }
    } else {
        if b >= 0 {
            -(-a / b)
        } else {
            -a / -b
        }
    }
}

/// Truncating division on machine integers, with bounds that keep every
/// intermediate value representable.
pub fn tdiv_exec(a: i32, b: i32) -> (q: i32)
    requires
        b != 0,
        -DIV_LIMIT <= a <= DIV_LIMIT,
        -DIV_LIMIT <= b <= DIV_LIMIT,
    ensures
        q == tdiv(a as int, b as int),
{
    let am: i32 = if a >= 0 {
        a
    } else {
        -a
    };
    let bm: i32 = if b >= 0 {
        b
    } else {
        -b
    };
    let qm = am / bm;
    if (a >= 0) == (b >= 0) {
        qm
    } else {
        -qm
    }
}

/// Floor division by a positive divisor: `q` is the greatest integer with
/// `q * b <= a`, i.e. the mathematical `a / b`.
pub fn div_floor(a: i32, b: i32) -> (q: i32)
    requires
        0 < b,
        -DIV_LIMIT <= a <= DIV_LIMIT,
    ensures
        q == a as int / b as int,
{
    if a >= 0 {
        a / b
    } else {
        let m: i32 = -a;
        let qm = m / b;
        let rm = m % b;
        proof {
            vstd::arithmetic::div_mod::lemma_fundamental_div_mod(m as int, b as int);
            vstd::arithmetic::div_mod::lemma_mod_bound(m as int, b as int);
            assert(m as int == b as int * (m as int / b as int) + m as int % b as int);
            assert(qm == m as int / b as int);
            assert(rm == m as int % b as int);
            if rm == 0 {
                assert(a as int == (-(qm as int)) * b as int + 0) by (nonlinear_arith)
                    requires
                        m as int == b as int * (qm as int) + 0,
                        a as int == -(m as int),
                ;
                vstd::arithmetic::div_mod::lemma_fundamental_div_mod_converse(
                    a as int,
                    b as int,
                    -(qm as int),
                    0,
                );
            } else {
                assert(a as int == (-(qm as int) - 1) * b as int + (b as int - rm as int))
                    by (nonlinear_arith)
                    requires
                        m as int == b as int * (qm as int) + rm as int,
                        a as int == -(m as int),
                ;
                vstd::arithmetic::div_mod::lemma_fundamental_div_mod_converse(
                    a as int,
                    b as int,
                    -(qm as int) - 1,
                    b as int - rm as int,
                );
            }
        }
        if rm == 0 {
            -qm
        } else {
            -qm - 1
        }
    }
}

/// Whether the axis-aligned pixel rectangles `(x1, y1, w1, h1)` and
/// `(x2, y2, w2, h2)` overlap.
pub fn intersect_rect(x1: i32, y1: i32, w1: i32, h1: i32, x2: i32, y2: i32, w2: i32, h2: i32) -> (r:
    bool)
    requires
        -PIXEL_LIMIT <= x1 <= PIXEL_LIMIT,
        -PIXEL_LIMIT <= y1 <= PIXEL_LIMIT,
        -PIXEL_LIMIT <= x2 <= PIXEL_LIMIT,
        -PIXEL_LIMIT <= y2 <= PIXEL_LIMIT,
        0 <= w1 <= PIXEL_LIMIT,
        0 <= h1 <= PIXEL_LIMIT,
        0 <= w2 <= PIXEL_LIMIT,
        0 <= h2 <= PIXEL_LIMIT,
    ensures
        r == (x1 + w1 > x2 && y1 + h1 > y2 && x1 < x2 + w2 && y1 < y2 + h2),
{
    x1 + w1 > x2 && y1 + h1 > y2 && x1 < x2 + w2 && y1 < y2 + h2
}

} // verus!
