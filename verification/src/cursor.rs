use vstd::prelude::*;
use crate::cells::{HexId, MapDirection, dq, dr, dir_index, dir_of_index};

verus! {

/// Squared pixel distance between the point `(px, py)` (fixed point) and the
/// midpoint toward the neighbor of `id` in direction `d`: half the neighbor
/// cell's pixel position.
pub open spec fn mid_dist2(id: HexId, d: MapDirection, px: int, py: int) -> int {
    let nq = id.q + dq(d);
    let nr = id.r + dr(d);
    let mx = nq * 2457600;
    let my = (nq * 56756 + nr * 113512) * 25;
    (mx - px) * (mx - px) + (my - py) * (my - py)
}

/// The magnitude of a product is bounded by the product of the magnitudes.
proof fn lemma_mul_bound(a: int, b: int, bound: int)
    requires
        0 <= bound,
        -bound <= a <= bound,
        -bound <= b <= bound,
    ensures
        -(bound * bound) <= a * b <= bound * bound,
{
    assert(-(bound * bound) <= a * b <= bound * bound) by (nonlinear_arith)
        requires
            0 <= bound,
            -bound <= a <= bound,
            -bound <= b <= bound,
    ;
}

/// Squared pixel distance from the point to the midpoint toward the neighbor
/// of `id` in direction `d`.
fn mid_dist2_exec(id: HexId, d: MapDirection, px: i64, py: i64) -> (v: i128)
    requires
        -0x10_0000 <= id.q <= 0x10_0000,
        -0x10_0000 <= id.r <= 0x10_0000,
        -0x2000_0000_0000 <= px <= 0x2000_0000_0000,
        -0x2000_0000_0000 <= py <= 0x2000_0000_0000,
    ensures
        v == mid_dist2(id, d, px as int, py as int),
{
    let delta = d.direction();
    let nq: i64 = (id.q as i64) + (delta.q as i64);
    let nr: i64 = (id.r as i64) + (delta.r as i64);
    let mx: i64 = nq * 2457600;
    let my: i64 = (nq * 56756 + nr * 113512) * 25;
    let dx: i128 = (mx - px) as i128;
    let dy: i128 = (my - py) as i128;
    proof {
        lemma_mul_bound(dx as int, dx as int, 0x4000_0000_0000);
        lemma_mul_bound(dy as int, dy as int, 0x4000_0000_0000);
    }
    dx * dx + dy * dy
}

/// The neighbor direction whose midpoint lies nearest to the point
/// `(px, py)`: all six directions are tried in cyclic order starting from
/// `Down`, and a later direction replaces the candidate only when strictly
/// nearer, so ties keep the earliest direction.
pub fn closest_direction(id: HexId, px: i64, py: i64) -> (best: MapDirection)
    requires
        -0x10_0000 <= id.q <= 0x10_0000,
        -0x10_0000 <= id.r <= 0x10_0000,
        -0x2000_0000_0000 <= px <= 0x2000_0000_0000,
        -0x2000_0000_0000 <= py <= 0x2000_0000_0000,
    ensures
        forall|j: int|
            0 <= j < 6 ==> mid_dist2(id, best, px as int, py as int) <= mid_dist2(
                id,
                dir_of_index(j),
                px as int,
                py as int,
            ),
        forall|j: int|
            0 <= j < dir_index(best) ==> mid_dist2(id, dir_of_index(j), px as int, py as int)
                > mid_dist2(id, best, px as int, py as int),
{
    let mut best = MapDirection::Down;
    let mut best_dist = mid_dist2_exec(id, best, px, py);
    let mut i: u8 = 1;
    while i < 6
        invariant
            1 <= i <= 6,
            0 <= dir_index(best) < i,
            best_dist == mid_dist2(id, best, px as int, py as int),
            -0x10_0000 <= id.q <= 0x10_0000,
            -0x10_0000 <= id.r <= 0x10_0000,
            -0x2000_0000_0000 <= px <= 0x2000_0000_0000,
            -0x2000_0000_0000 <= py <= 0x2000_0000_0000,
            forall|j: int|
                0 <= j < i ==> best_dist <= mid_dist2(id, dir_of_index(j), px as int, py as int),
            forall|j: int|
                0 <= j < dir_index(best) ==> mid_dist2(id, dir_of_index(j), px as int, py as int)
                    > best_dist,
        decreases 6 - i,
    {
        let d = MapDirection::from_index(i);
        let dist = mid_dist2_exec(id, d, px, py);
        if dist < best_dist {
            best = d;
            best_dist = dist;
        }
        i = i + 1;
    }
    best
}

} // verus!
