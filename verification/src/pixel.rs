use vstd::prelude::*;
use crate::cells::HexId;

verus! {

// Pixel positions are held in signed 64-bit fixed point: one pixel is
// `FP_ONE` units.  The square-root constants are sqrt(3) terms of the
// axial-to-pixel projection, scaled by `FP_ONE` and rounded to the nearest
// unit; `SQR_3 == 2 * SQR_3_DIV_TWO` exactly, which keeps the inverse
// projection's error small (see `lemma_pixel_round_trip`).
//
// An axial-to-pixel projection can be scaled either by the full cell-size
// constant or by the center-to-center spacing constant.  This crate uses the
// spacing constant `HEX_SPACING` on both the forward and the inverse path,
// one convention throughout, so `from_xyz` is an exact inverse of `xyz` on
// lattice points.

/// Fixed-point scale: one pixel.
pub const FP_ONE: i64 = 65536;

/// Half a pixel in fixed point.
pub const FP_HALF: i64 = 32768;

/// sqrt(3), in fixed point.
pub const SQR_3: i64 = 113512;

/// sqrt(3)/2, in fixed point.
pub const SQR_3_DIV_TWO: i64 = 56756;

/// sqrt(3)/3, in fixed point.
pub const SQR_3_DIV_THREE: i64 = 37837;

/// Width of one hex cell, in pixels.
pub const HEX_SIZE: i64 = 100;

/// Center-to-center spacing of adjacent cells, in pixels.
pub const HEX_SPACING: i64 = 50;

/// Unit (unscaled) x projection of a cell: `q * 1.5`, in fixed point.
pub open spec fn unit_x(c: HexId) -> int {
    c.q * 98304
}

/// Unit (unscaled) y projection of a cell: `q * sqrt(3)/2 + r * sqrt(3)`,
/// in fixed point.
pub open spec fn unit_y(c: HexId) -> int {
    c.q * 56756 + c.r * 113512
}

/// Pixel-space x position of a cell: the unit projection scaled by
/// `HEX_SPACING`.
pub open spec fn pixel_x(c: HexId) -> int {
    unit_x(c) * 50
}

/// Pixel-space y position of a cell.
pub open spec fn pixel_y(c: HexId) -> int {
    unit_y(c) * 50
}

/// Nearest lattice value of a fixed-point quantity, halves away from zero.
pub open spec fn fp_round(v: int) -> int {
    if v >= 0 {
        (v + 32768) / 65536
    } else {
        -(((-v) + 32768) / 65536)
    }
}

/// Magnitude of an integer.
pub open spec fn fp_abs(v: int) -> int {
    if v >= 0 {
        v
    } else {
        -v
    }
}

/// The axial lattice point nearest to the fractional axial coordinates
/// `(qf, rf)` (fixed point): round all three cube components, then discard
/// the one with the largest rounding error so that `q + r + s == 0` is
/// restored, with the exact comparison order s-vs-r first, then s-vs-q,
/// then r-vs-q.
pub open spec fn round_pair(qf: int, rf: int) -> (int, int) {
    let sf = -qf - rf;
    let rq = fp_round(qf);
    let rr = fp_round(rf);
    let rs = fp_round(sf);
    let q_dif = fp_abs(qf - rq * 65536);
    let r_dif = fp_abs(rf - rr * 65536);
    let s_dif = fp_abs(sf - rs * 65536);
    if s_dif > r_dif {
        if s_dif > q_dif {
            (rq, rr)
        } else {
            (-rs - rr, rr)
        }
    } else {
        if r_dif > q_dif {
            (rq, -rs - rq)
        } else {
            (-rs - rr, rr)
        }
    }
}

/// Fractional axial q recovered from a pixel position (fixed point).
pub open spec fn frac_q(x: int) -> int {
    (2 * (x / 50)) / 3
}

/// Fractional axial r recovered from a pixel position (fixed point).
pub open spec fn frac_r(x: int, y: int) -> int {
    ((y / 50) * 37837) / 65536 - (x / 50) / 3
}

/// Floor division of `a` by a positive divisor `b`.
fn div_floor(a: i64, b: i64) -> (r: i64)
    requires
        0 < b <= 0x1_0000_0000,
        -0x4000_0000_0000_0000 <= a <= 0x4000_0000_0000_0000,
    ensures
        r == (a as int) / (b as int),
{
    if a >= 0 {
        (((a as u64) / (b as u64)) as i64)
    } else {
        let m: u64 = (-a) as u64;
        let bu: u64 = b as u64;
        let k: u64 = (m + (bu - 1)) / bu;
        proof {
            let mi = m as int;
            let bi = b as int;
            let ki = (mi + bi - 1) / bi;
            vstd::arithmetic::div_mod::lemma_fundamental_div_mod(mi + bi - 1, bi);
            let rem = (mi + bi - 1) % bi;
            assert(mi + bi - 1 == bi * ki + rem);
            assert(0 <= rem < bi) by {
                vstd::arithmetic::div_mod::lemma_mod_division_less_than_divisor(mi + bi - 1, bi);
            }
            assert(a as int == (-ki) * bi + (bi - 1 - rem)) by {
                assert(-mi == -(bi * ki) + (bi - 1 - rem));
                assert((-ki) * bi == -(bi * ki)) by (nonlinear_arith);
            }
            vstd::arithmetic::div_mod::lemma_fundamental_div_mod_converse_div(
                a as int,
                bi,
                -ki,
                bi - 1 - rem,
            );
        }
        -(k as i64)
    }
}

/// Nearest lattice value of a fixed-point quantity, halves away from zero.
fn fp_round_exec(v: i64) -> (r: i64)
    requires
        -0x1_0000_0000_0000 <= v <= 0x1_0000_0000_0000,
    ensures
        r == fp_round(v as int),
{
    if v >= 0 {
        ((((v as u64) + (FP_HALF as u64)) / (FP_ONE as u64)) as i64)
    } else {
        let m: u64 = (((-v) as u64) + (FP_HALF as u64)) / (FP_ONE as u64);
        -(m as i64)
    }
}

/// Magnitude of a fixed-point quantity.
fn fp_abs_exec(v: i64) -> (r: i64)
    requires
        -0x4000_0000_0000_0000 <= v <= 0x4000_0000_0000_0000,
    ensures
        r == fp_abs(v as int),
{
    if v >= 0 {
        v
    } else {
        -v
    }
}

impl HexId {
    /// Unit x projection of this cell (`q * 1.5`, fixed point).
    pub fn x(&self) -> (x: i64)
        ensures
            x == unit_x(*self),
    {
        (self.q as i64) * 98304
    }

    /// Unit y projection of this cell (`q * sqrt(3)/2 + r * sqrt(3)`,
    /// fixed point).
    pub fn y(&self) -> (y: i64)
        ensures
            y == unit_y(*self),
    {
        (self.q as i64) * 56756 + (self.r as i64) * 113512
    }

    /// Pixel-space position of this cell: the unit projection scaled by
    /// `HEX_SPACING`.
    pub fn xyz(&self) -> (p: (i64, i64))
        ensures
            p.0 == pixel_x(*self),
            p.1 == pixel_y(*self),
    {
        (self.x() * HEX_SPACING, self.y() * HEX_SPACING)
    }

    /// The lattice cell nearest to the fractional axial coordinates
    /// `(qf, rf)`, given in fixed point.
    pub fn round(qf: i64, rf: i64) -> (c: HexId)
        requires
            -0x1000_0000_0000 <= qf <= 0x1000_0000_0000,
            -0x1000_0000_0000 <= rf <= 0x1000_0000_0000,
        ensures
            (c.q as int, c.r as int) == round_pair(qf as int, rf as int),
    {
        let sf = -qf - rf;
        let round_q = fp_round_exec(qf);
        let round_r = fp_round_exec(rf);
        let round_s = fp_round_exec(sf);
        proof {
            lemma_fp_round_in_range(qf as int, 0x2_0000_0000_0000);
            lemma_fp_round_in_range(rf as int, 0x2_0000_0000_0000);
            lemma_fp_round_in_range(sf as int, 0x2_0000_0000_0000);
        }
        let q_dif = fp_abs_exec(qf - round_q * FP_ONE);
        let r_dif = fp_abs_exec(rf - round_r * FP_ONE);
        let s_dif = fp_abs_exec(sf - round_s * FP_ONE);
        if s_dif > r_dif {
            if s_dif > q_dif {
                HexId::new(round_q as i32, round_r as i32)
            } else {
                HexId::new((-round_s - round_r) as i32, round_r as i32)
            }
        } else {
            if r_dif > q_dif {
                HexId::new(round_q as i32, (-round_s - round_q) as i32)
            } else {
                HexId::new((-round_s - round_r) as i32, round_r as i32)
            }
        }
    }

    /// The lattice cell under a pixel position: recovers fractional axial
    /// coordinates and rounds them to the nearest cell.
    pub fn from_xyz(x: i64, y: i64) -> (c: HexId)
        requires
            -0x100_0000_0000 <= x <= 0x100_0000_0000,
            -0x100_0000_0000 <= y <= 0x100_0000_0000,
        ensures
            (c.q as int, c.r as int) == round_pair(frac_q(x as int), frac_r(x as int, y as int)),
    {
        let xs = div_floor(x, HEX_SPACING);
        let ys = div_floor(y, HEX_SPACING);
        let qf = div_floor(2 * xs, 3);
        let rf = div_floor(ys * SQR_3_DIV_THREE, FP_ONE) - div_floor(xs, 3);
        proof {
            lemma_div_in_range(x as int, 50, 0x100_0000_0000);
            lemma_div_in_range(y as int, 50, 0x100_0000_0000);
            lemma_div_in_range(2 * (x as int / 50), 3, 0x200_0000_0000);
            lemma_div_in_range((y as int / 50) * 37837, 65536, 0x100_0000_0000int * 37837);
            lemma_div_in_range(x as int / 50, 3, 0x100_0000_0000);
        }
        HexId::round(qf, rf)
    }
}

/// A quotient is bounded by the bound of its numerator: if `|v| <= bound`
/// then `|v / d| <= bound` for a positive divisor `d`.
proof fn lemma_div_in_range(v: int, d: int, bound: int)
    requires
        0 < d,
        0 < bound,
        -bound <= v <= bound,
    ensures
        -bound <= v / d <= bound,
{
    vstd::arithmetic::div_mod::lemma_fundamental_div_mod(v, d);
    vstd::arithmetic::div_mod::lemma_mod_division_less_than_divisor(v, d);
    let q = v / d;
    assert(v == d * q + v % d);
    if q > bound {
        assert(d * q >= q) by (nonlinear_arith)
            requires
                0 < d,
                0 < q,
        ;
        assert(false);
    }
    if q < -bound {
        assert(d * (q + 1) == d * q + d) by (nonlinear_arith);
        assert(d * (q + 1) <= q + 1) by (nonlinear_arith)
            requires
                0 < d,
                q + 1 <= 0,
        ;
        assert(false);
    }
}

/// `fp_round` of a quantity bounded by `bound` is bounded by
/// `bound / 65536 + 1`.
proof fn lemma_fp_round_in_range(v: int, bound: int)
    requires
        0 < bound,
        -bound <= v <= bound,
    ensures
        -(bound / 65536 + 1) <= fp_round(v) <= bound / 65536 + 1,
{
    if v >= 0 {
        lemma_div_in_range(v + 32768, 65536, bound + 32768);
        assert((v + 32768) / 65536 <= bound / 65536 + 1) by {
            vstd::arithmetic::div_mod::lemma_fundamental_div_mod(bound, 65536);
            vstd::arithmetic::div_mod::lemma_mod_division_less_than_divisor(bound, 65536);
            vstd::arithmetic::div_mod::lemma_fundamental_div_mod(v + 32768, 65536);
            vstd::arithmetic::div_mod::lemma_mod_division_less_than_divisor(v + 32768, 65536);
            let qb = bound / 65536;
            let qv = (v + 32768) / 65536;
            assert(65536 * qv <= v + 32768);
            assert(bound >= 65536 * qb);
            if qv > qb + 1 {
                assert(65536 * qv >= 65536 * (qb + 2)) by (nonlinear_arith)
                    requires
                        qv >= qb + 2,
                ;
                assert(65536 * (qb + 2) == 65536 * qb + 131072);
                assert(false);
            }
        }
        assert(fp_round(v) >= 0) by {
            vstd::arithmetic::div_mod::lemma_div_pos_is_pos(v + 32768, 65536);
        }
    } else {
        let m = -v;
        lemma_div_in_range(m + 32768, 65536, bound + 32768);
        assert((m + 32768) / 65536 <= bound / 65536 + 1) by {
            vstd::arithmetic::div_mod::lemma_fundamental_div_mod(bound, 65536);
            vstd::arithmetic::div_mod::lemma_mod_division_less_than_divisor(bound, 65536);
            vstd::arithmetic::div_mod::lemma_fundamental_div_mod(m + 32768, 65536);
            vstd::arithmetic::div_mod::lemma_mod_division_less_than_divisor(m + 32768, 65536);
            let qb = bound / 65536;
            let qv = (m + 32768) / 65536;
            assert(65536 * qv <= m + 32768);
            assert(bound >= 65536 * qb);
            if qv > qb + 1 {
                assert(65536 * qv >= 65536 * (qb + 2)) by (nonlinear_arith)
                    requires
                        qv >= qb + 2,
                ;
                assert(65536 * (qb + 2) == 65536 * qb + 131072);
                assert(false);
            }
        }
        assert((m + 32768) / 65536 >= 0) by {
            vstd::arithmetic::div_mod::lemma_div_pos_is_pos(m + 32768, 65536);
        }
    }
}

/// Rounding a fixed-point value within half a unit of a lattice point
/// recovers that lattice point.
proof fn lemma_fp_round_near(m: int, e: int)
    requires
        -32767 <= e <= 32767,
    ensures
        fp_round(m * 65536 + e) == m,
{
    let v = m * 65536 + e;
    if v >= 0 {
        assert(v + 32768 == 65536 * m + (e + 32768));
        if m >= 0 {
            vstd::arithmetic::div_mod::lemma_fundamental_div_mod_converse_div(
                v + 32768,
                65536,
                m,
                e + 32768,
            );
        } else {
            assert(m * 65536 <= -65536);
            assert(false);
        }
    } else {
        assert(-v + 32768 == 65536 * (-m) + (32768 - e));
        if m <= 0 {
            vstd::arithmetic::div_mod::lemma_fundamental_div_mod_converse_div(
                -v + 32768,
                65536,
                -m,
                32768 - e,
            );
        } else {
            assert(m * 65536 >= 65536);
            assert(false);
        }
    }
}

/// Rounding fractional axial coordinates that sit within half a unit of a
/// lattice point (the whole error `e` on the r component) recovers that
/// lattice point exactly, whichever branch of the comparison chain runs.
pub proof fn lemma_round_near_lattice(q: int, r: int, e: int)
    requires
        -32767 <= e <= 32767,
    ensures
        round_pair(q * 65536, r * 65536 + e) == (q, r),
{
    let qf = q * 65536;
    let rf = r * 65536 + e;
    let sf = -qf - rf;
    lemma_fp_round_near(q, 0);
    lemma_fp_round_near(r, e);
    assert(sf == (-q - r) * 65536 + (-e));
    lemma_fp_round_near(-q - r, -e);
    let rq = fp_round(qf);
    let rr = fp_round(rf);
    let rs = fp_round(sf);
    assert(rq == q);
    assert(rr == r);
    assert(rs == -q - r);
    assert(qf - rq * 65536 == 0);
    assert(rf - rr * 65536 == e);
    assert(sf - rs * 65536 == -e);
}

/// On lattice points the rounding rule is the identity: for all integers
/// `q`, `r`, rounding the exact fixed-point coordinates of `(q, r)` returns
/// `(q, r)` unchanged.
pub proof fn lemma_round_lattice(q: int, r: int)
    ensures
        round_pair(q * 65536, r * 65536) == (q, r),
{
    lemma_round_near_lattice(q, r, 0);
}

/// Round trip: projecting a cell to pixel space and reading the cell back
/// from that pixel position recovers the cell, for coordinates near the
/// origin.
pub proof fn lemma_pixel_round_trip(c: HexId)
    requires
        -100000 <= c.q <= 100000,
        -100000 <= c.r <= 100000,
    ensures
        round_pair(frac_q(pixel_x(c)), frac_r(pixel_x(c), pixel_y(c))) == (c.q as int, c.r as int),
{
    let q = c.q as int;
    let r = c.r as int;
    let x = pixel_x(c);
    let y = pixel_y(c);

    // x / 50 recovers the unit projection exactly.
    assert(x == 50 * (q * 98304));
    vstd::arithmetic::div_mod::lemma_div_multiples_vanish(q * 98304, 50);
    assert(x / 50 == q * 98304);

    // frac_q(x) == q * 65536 exactly.
    assert(2 * (q * 98304) == 3 * (q * 65536));
    vstd::arithmetic::div_mod::lemma_div_multiples_vanish(q * 65536, 3);
    assert(frac_q(x) == q * 65536);

    // y / 50 recovers the unit projection exactly.
    assert(y == 50 * (q * 56756 + r * 113512));
    vstd::arithmetic::div_mod::lemma_div_multiples_vanish(q * 56756 + r * 113512, 50);
    assert(y / 50 == q * 56756 + r * 113512);

    // (x / 50) / 3 == q * 32768 exactly.
    assert(q * 98304 == 3 * (q * 32768));
    vstd::arithmetic::div_mod::lemma_div_multiples_vanish(q * 32768, 3);
    assert((x / 50) / 3 == q * 32768);

    // The sqrt(3)/3 multiplication: split off the per-unit rounding error.
    let t = (q * 56756 + r * 113512) * 37837;
    let e_num = q * (-6876) + r * (-13752);
    assert(t == 65536 * (q * 32768 + r * 65536) + e_num);
    let e = e_num / 65536;
    assert(t / 65536 == q * 32768 + r * 65536 + e) by {
        vstd::arithmetic::div_mod::lemma_hoist_over_denominator(
            e_num,
            q * 32768 + r * 65536,
            65536,
        );
    }
    assert(frac_r(x, y) == r * 65536 + e);

    // Bound the error: well under half a unit.
    assert(-2062800000 <= e_num <= 2062800000);
    lemma_div_in_range(e_num, 65536, 2062800000);
    assert(-32767 <= e <= 32767) by {
        vstd::arithmetic::div_mod::lemma_fundamental_div_mod(e_num, 65536);
        vstd::arithmetic::div_mod::lemma_mod_division_less_than_divisor(e_num, 65536);
        assert(e_num == 65536 * e + e_num % 65536);
        if e >= 31476 {
            assert(65536 * e >= 65536 * 31476);
            assert(false);
        }
        if e <= -31477 {
            assert(65536 * e <= 65536 * (-31477));
            assert(false);
        }
    }

    lemma_round_near_lattice(q, r, e);
}

} // verus!
