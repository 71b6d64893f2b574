use vstd::prelude::*;
use crate::cells::{HexId, MapDirection, dq, dr, dir_index, dir_of_index};

verus! {

// Largest ring radius / disk range the iterators accept; keeps every produced
// coordinate comfortably inside `i32`.
pub const MAX_RANGE: u32 = 0x0800_0000;

/// Number of cells on the ring of radius `n`: `6 * n`, except that the ring
/// of radius 0 is the single center cell.
pub open spec fn ring_count(n: int) -> int {
    if n <= 0 {
        1
    } else {
        6 * n
    }
}

/// Axial q of the corner where side `j` (0..6) of the radius-`n` ring starts.
/// The walk starts at `(-n, n)` and each side is `n` steps in one direction
/// of the cyclic order.
pub open spec fn corner_q(n: int, j: int) -> int {
    if j == 0 {
        -n
    } else if j == 1 {
        -n
    } else if j == 2 {
        0
    } else if j == 3 {
        n
    } else if j == 4 {
        n
    } else if j == 5 {
        0
    } else {
        -n
    }
}

/// Axial r of the corner where side `j` (0..6) of the radius-`n` ring starts.
pub open spec fn corner_r(n: int, j: int) -> int {
    if j == 0 {
        n
    } else if j == 1 {
        0
    } else if j == 2 {
        -n
    } else if j == 3 {
        -n
    } else if j == 4 {
        0
    } else if j == 5 {
        n
    } else {
        n
    }
}

/// The `k`-th coordinate (as a mathematical pair) of the ring walk of radius
/// `n`: side `k / n`, step `k % n` along that side.
pub open spec fn ring_at(n: int, k: int) -> (int, int) {
    if n <= 0 {
        (0, 0)
    } else {
        let j = k / n;
        let t = k % n;
        let d = dir_of_index(j);
        (corner_q(n, j) + t * dq(d), corner_r(n, j) + t * dr(d))
    }
}

/// A mathematical coordinate pair as a cell (coordinates must fit in `i32`).
pub open spec fn hex_of(p: (int, int)) -> HexId {
    HexId { q: p.0 as i32, r: p.1 as i32 }
}

/// The cells of the ring of radius `n`, in walk order: starting at `(-n, n)`
/// and walking six sides of `n` steps each, advancing the side direction
/// through the cyclic order starting from `Down`.
pub open spec fn ring_seq(n: int) -> Seq<HexId> {
    Seq::new(ring_count(n) as nat, |k: int| hex_of(ring_at(n, k)))
}

/// The cells of rings of radius `a` through `b` inclusive, in increasing
/// radius order.
pub open spec fn rings_from(a: int, b: int) -> Seq<HexId>
    decreases b - a + 1,
{
    if a > b {
        Seq::empty()
    } else {
        ring_seq(a) + rings_from(a + 1, b)
    }
}

/// The cells of the spiral of radius `n`: rings 0 through `n` concatenated in
/// increasing radius order.
pub open spec fn spiral_seq(n: int) -> Seq<HexId> {
    rings_from(0, n)
}

/// Walking one step from ring position `k` in the direction of side `k / n`
/// reaches ring position `k + 1`.
proof fn lemma_ring_step(n: int, k: int)
    requires
        1 <= n,
        0 <= k,
        k + 1 < 6 * n,
    ensures
        ring_at(n, k + 1).0 == ring_at(n, k).0 + dq(dir_of_index(k / n)),
        ring_at(n, k + 1).1 == ring_at(n, k).1 + dr(dir_of_index(k / n)),
{
    let j = k / n;
    let t = k % n;
    vstd::arithmetic::div_mod::lemma_fundamental_div_mod(k, n);
    vstd::arithmetic::div_mod::lemma_mod_division_less_than_divisor(k, n);
    assert(k == n * j + t);
    assert(0 <= j < 6) by {
        if j < 0 {
            assert(n * j <= -n) by (nonlinear_arith)
                requires
                    1 <= n,
                    j <= -1,
            ;
            assert(false);
        }
        if j >= 6 {
            assert(n * j >= 6 * n) by (nonlinear_arith)
                requires
                    1 <= n,
                    j >= 6,
            ;
            assert(false);
        }
    }
    let d = dir_of_index(j);
    if t + 1 < n {
        vstd::arithmetic::div_mod::lemma_fundamental_div_mod_converse_div(k + 1, n, j, t + 1);
        vstd::arithmetic::div_mod::lemma_fundamental_div_mod_converse_mod(k + 1, n, j, t + 1);
        assert((k + 1) / n == j && (k + 1) % n == t + 1);
        assert((t + 1) * dq(d) == t * dq(d) + dq(d)) by (nonlinear_arith);
        assert((t + 1) * dr(d) == t * dr(d) + dr(d)) by (nonlinear_arith);
    } else {
        assert(t + 1 == n);
        assert(k + 1 == n * (j + 1) + 0) by {
            assert(n * (j + 1) == n * j + n) by (nonlinear_arith);
        }
        vstd::arithmetic::div_mod::lemma_fundamental_div_mod_converse_div(k + 1, n, j + 1, 0);
        vstd::arithmetic::div_mod::lemma_fundamental_div_mod_converse_mod(k + 1, n, j + 1, 0);
        assert((k + 1) / n == j + 1 && (k + 1) % n == 0);
        // The next corner is the previous corner plus n steps of the
        // previous side's direction.
        assert(corner_q(n, j + 1) == corner_q(n, j) + n * dq(dir_of_index(j)) && corner_r(n, j + 1)
            == corner_r(n, j) + n * dr(dir_of_index(j))) by {
            assert(n * 1 == n && n * 0 == 0 && n * -1 == -n);
        }
        assert(t * dq(d) + dq(d) == n * dq(d)) by (nonlinear_arith)
            requires
                t + 1 == n,
        ;
        assert(t * dr(d) + dr(d) == n * dr(d)) by (nonlinear_arith)
            requires
                t + 1 == n,
        ;
        assert(0int * dq(dir_of_index(j + 1)) == 0 && 0int * dr(dir_of_index(j + 1)) == 0) by (nonlinear_arith);
    }
}

/// Every coordinate of the ring walk of radius `n` stays within `n` of the
/// origin on both axes.
proof fn lemma_ring_at_bounds(n: int, k: int)
    requires
        0 <= n,
        0 <= k < ring_count(n),
    ensures
        -n <= ring_at(n, k).0 <= n,
        -n <= ring_at(n, k).1 <= n,
{
    if n > 0 {
        let j = k / n;
        let t = k % n;
        vstd::arithmetic::div_mod::lemma_fundamental_div_mod(k, n);
        vstd::arithmetic::div_mod::lemma_mod_division_less_than_divisor(k, n);
        assert(k == n * j + t);
        assert(0 <= j < 6) by {
            if j < 0 {
                assert(n * j <= -n) by (nonlinear_arith)
                    requires
                        1 <= n,
                        j <= -1,
                ;
                assert(false);
            }
            if j >= 6 {
                assert(n * j >= 6 * n) by (nonlinear_arith)
                    requires
                        1 <= n,
                        j >= 6,
                ;
                assert(false);
            }
        }
        assert(t * 1 == t && t * 0 == 0 && t * -1 == -t);
    }
}

/// Lazy walk of the single ring of cells at distance `len` from the origin:
/// starts at `(-len, len)` and walks six sides of `len` steps, turning
/// through the direction order after each side.  Forward-only; a fresh
/// iterator must be constructed to walk the ring again.
pub struct RingIter {
    cell: HexId,
    len: u32,
    direction: MapDirection,
    i: u32,
    done: bool,
}

impl RingIter {
    /// Radius of the ring this iterator walks.
    pub closed spec fn radius(&self) -> int {
        self.len as int
    }

    /// Walk position: how many cells have been produced already.
    pub closed spec fn pos(&self) -> int {
        dir_index(self.direction) * self.len + self.i
    }

    /// The iterator is a consistent state of the ring walk.
    pub closed spec fn wf(&self) -> bool {
        &&& self.len <= MAX_RANGE
        &&& !self.done ==> {
            &&& 0 <= self.pos() < ring_count(self.len as int)
            &&& self.cell.q == ring_at(self.len as int, self.pos()).0
            &&& self.cell.r == ring_at(self.len as int, self.pos()).1
            &&& (self.len > 0 ==> self.i < self.len)
            &&& (self.len == 0 ==> self.i == 0)
        }
    }

    /// The cells this iterator has yet to produce, in walk order.
    pub closed spec fn remaining(&self) -> Seq<HexId> {
        if self.done {
            Seq::empty()
        } else {
            ring_seq(self.len as int).skip(self.pos())
        }
    }

    /// A fresh walk of the ring of radius `ring`, about to produce
    /// `ring_seq(ring)`.
    pub fn new(ring: u32) -> (it: RingIter)
        requires
            ring <= MAX_RANGE,
        ensures
            it.wf(),
            it.radius() == ring,
            it.remaining() == ring_seq(ring as int),
    {
        let it = RingIter {
            cell: HexId::new(0i32 - (ring as i32), ring as i32),
            len: ring,
            direction: MapDirection::Down,
            i: 0,
            done: false,
        };
        proof {
            assert(it.pos() == 0);
            if ring > 0 {
                vstd::arithmetic::div_mod::lemma_fundamental_div_mod_converse_div(
                    0,
                    ring as int,
                    0,
                    0,
                );
                vstd::arithmetic::div_mod::lemma_fundamental_div_mod_converse_mod(
                    0,
                    ring as int,
                    0,
                    0,
                );
                assert(ring_at(ring as int, 0).0 == -(ring as int)) by {
                    assert(0int * dq(MapDirection::Down) == 0);
                }
                assert(ring_at(ring as int, 0).1 == ring as int) by {
                    assert(0int * dr(MapDirection::Down) == 0);
                }
            }
            assert(it.remaining() =~= ring_seq(ring as int));
        }
        it
    }

    /// Radius of the ring this iterator walks.
    pub fn ring(&self) -> (r: u32)
        ensures
            r == self.radius(),
    {
        self.len
    }

    /// The next cell of the ring walk, or `None` once all cells of the ring
    /// have been produced.
    pub fn next(&mut self) -> (out: Option<HexId>)
        requires
            old(self).wf(),
        ensures
            final(self).wf(),
            final(self).radius() == old(self).radius(),
            match out {
                Some(c) => old(self).remaining().len() > 0 && c == old(self).remaining()[0]
                    && final(self).remaining() == old(self).remaining().skip(1),
                None => old(self).remaining().len() == 0 && final(self).remaining().len() == 0,
            },
    {
        if self.done {
            return None;
        }
        let ghost n = self.len as int;
        let ghost k = self.pos();
        let ghost j = dir_index(self.direction);
        proof {
            lemma_ring_at_bounds(n, k);
            if self.len > 0 {
                vstd::arithmetic::div_mod::lemma_fundamental_div_mod_converse_div(
                    k,
                    n,
                    j,
                    self.i as int,
                );
                assert(k / n == j);
                assert(dir_of_index(j) == self.direction);
            }
            if k + 1 < ring_count(n) {
                lemma_ring_step(n, k);
                lemma_ring_at_bounds(n, k + 1);
            }
        }
        let out = self.cell;
        self.cell = self.cell.add(self.direction.direction());
        self.i = self.i + 1;
        if self.len == 0 {
            self.done = true;
        }
        if self.i == self.len {
            if self.direction == MapDirection::South {
                self.done = true;
            }
            self.direction = self.direction.next();
            self.i = 0;
        }
        proof {
            assert(out == ring_seq(n)[k]);
            assert((j + 1) * n == j * n + n) by (nonlinear_arith);
            if !self.done {
                if dir_index(self.direction) == j {
                    assert(self.pos() == k + 1);
                } else {
                    assert(dir_index(self.direction) == j + 1);
                    assert(self.pos() == (j + 1) * n);
                    assert(self.pos() == k + 1);
                    assert(j + 1 <= 5);
                    assert((j + 1) * n <= 5 * n) by (nonlinear_arith)
                        requires
                            j + 1 <= 5,
                            0 <= n,
                    ;
                }
                assert(self.pos() == k + 1 && k + 1 < ring_count(n));
                assert(self.remaining() =~= old(self).remaining().skip(1));
            } else {
                if n > 0 {
                    assert(j == 5 && old(self).i + 1 == old(self).len);
                    assert(k + 1 == 6 * n);
                }
                assert(k + 1 == ring_count(n));
                assert(old(self).remaining().len() == ring_count(n) - k);
                assert(self.remaining() =~= old(self).remaining().skip(1));
            }
        }
        Some(out)
    }
}

/// Lazy walk of the spiral of radius `target`: rings 0 through `target`, each
/// walked as `RingIter` walks it, in increasing radius order.  Forward-only.
pub struct SpiralIter {
    target: u32,
    ring: RingIter,
}

impl SpiralIter {
    /// The iterator is a consistent state of the spiral walk.
    pub closed spec fn wf(&self) -> bool {
        &&& self.target <= MAX_RANGE
        &&& self.ring.wf()
        &&& 0 <= self.ring.radius() <= self.target
    }

    /// The cells this iterator has yet to produce, in walk order.
    pub closed spec fn remaining(&self) -> Seq<HexId> {
        self.ring.remaining() + rings_from(self.ring.radius() + 1, self.target as int)
    }

    /// A fresh walk of the spiral of radius `size`, about to produce
    /// `spiral_seq(size)`.
    pub fn new(size: u32) -> (it: SpiralIter)
        requires
            size <= MAX_RANGE,
        ensures
            it.wf(),
            it.remaining() == spiral_seq(size as int),
    {
        let it = SpiralIter { target: size, ring: RingIter::new(0) };
        proof {
            assert(it.remaining() =~= spiral_seq(size as int));
        }
        it
    }

    /// The next cell of the spiral walk, or `None` once every ring up to the
    /// target radius has been walked.
    pub fn next(&mut self) -> (out: Option<HexId>)
        requires
            old(self).wf(),
        ensures
            final(self).wf(),
            match out {
                Some(c) => old(self).remaining().len() > 0 && c == old(self).remaining()[0]
                    && final(self).remaining() == old(self).remaining().skip(1),
                None => old(self).remaining().len() == 0 && final(self).remaining().len() == 0,
            },
    {
        let ghost pre = *self;
        let first = self.ring.next();
        match first {
            Some(c) => {
                proof {
                    assert(old(self).remaining()[0] == c);
                    assert(self.remaining() =~= old(self).remaining().skip(1));
                }
                Some(c)
            },
            None => {
                proof {
                    assert(old(self).remaining() =~= rings_from(
                        old(self).ring.radius() + 1,
                        old(self).target as int,
                    ));
                }
                let rad = self.ring.ring();
                if rad == self.target {
                    proof {
                        assert(old(self).remaining().len() == 0);
                        assert(self.remaining().len() == 0);
                    }
                    None
                } else {
                    self.ring = RingIter::new(rad + 1);
                    let out = self.ring.next();
                    proof {
                        let m = rad + 1;
                        assert(rings_from(m, old(self).target as int) == ring_seq(m) + rings_from(
                            m + 1,
                            old(self).target as int,
                        ));
                        assert(ring_seq(m).len() > 0);
                        assert(old(self).remaining()[0] == ring_seq(m)[0]);
                        assert(out == Some(ring_seq(m)[0]));
                        assert(self.remaining() =~= old(self).remaining().skip(1));
                    }
                    out
                }
            },
        }
    }
}

/// Start (inclusive) of the row of axial-`r` values that the filled disk of
/// radius `n` holds at column `q`: `max(-n, -q-n)`.
pub open spec fn row_lo(n: int, q: int) -> int {
    if -q - n >= -n {
        -q - n
    } else {
        -n
    }
}

/// End (inclusive) of the row of axial-`r` values that the filled disk of
/// radius `n` holds at column `q`: `min(n, -q+n)`.
pub open spec fn row_hi(n: int, q: int) -> int {
    if -q + n <= n {
        -q + n
    } else {
        n
    }
}

/// One column of the filled disk of radius `n`: the cells `(q, r)` for `r`
/// from `row_lo` to `row_hi`.
pub open spec fn row_seq(n: int, q: int) -> Seq<HexId> {
    Seq::new((row_hi(n, q) - row_lo(n, q) + 1) as nat, |i: int| hex_of((q, row_lo(n, q) + i)))
}

/// The columns `q` through `n` of the filled disk of radius `n`, in
/// increasing column order.
pub open spec fn rows_from(n: int, q: int) -> Seq<HexId>
    decreases n - q + 1,
{
    if q > n {
        Seq::empty()
    } else {
        row_seq(n, q) + rows_from(n, q + 1)
    }
}

/// The cells of the filled disk of radius `n`: every cell within cube
/// distance `n` of the origin, column by column (`q` from `-n` to `n`,
/// ascending), each column's `r` values ascending.
pub open spec fn range_seq(n: int) -> Seq<HexId> {
    rows_from(n, -n)
}

/// Lazy walk of the filled disk of radius `range`, column by column.
/// Forward-only; a fresh iterator must be constructed to walk it again.
pub struct FastFill {
    range: i32,
    q: i32,
    r: i32,
}

impl FastFill {
    /// The iterator is a consistent state of the column-by-column walk.
    pub closed spec fn wf(&self) -> bool {
        &&& 0 <= self.range <= MAX_RANGE
        &&& -self.range <= self.q <= self.range + 1
        &&& (self.q <= self.range ==> row_lo(self.range as int, self.q as int) <= self.r <= row_hi(
            self.range as int,
            self.q as int,
        ))
    }

    /// The cells this iterator has yet to produce, in walk order.
    pub closed spec fn remaining(&self) -> Seq<HexId> {
        if self.q > self.range {
            Seq::empty()
        } else {
            row_seq(self.range as int, self.q as int).skip(
                self.r - row_lo(self.range as int, self.q as int),
            ) + rows_from(self.range as int, self.q as int + 1)
        }
    }

    /// A fresh walk of the filled disk of radius `range`, about to produce
    /// `range_seq(range)`.
    pub fn new(range: u32) -> (it: FastFill)
        requires
            range <= MAX_RANGE,
        ensures
            it.wf(),
            it.remaining() == range_seq(range as int),
    {
        let it = FastFill { range: range as i32, q: 0i32 - (range as i32), r: 0 };
        proof {
            assert(it.remaining() =~= range_seq(range as int));
        }
        it
    }

    /// The next cell of the disk walk, or `None` once every cell of the disk
    /// has been produced.
    pub fn next(&mut self) -> (out: Option<HexId>)
        requires
            old(self).wf(),
        ensures
            final(self).wf(),
            match out {
                Some(c) => old(self).remaining().len() > 0 && c == old(self).remaining()[0]
                    && final(self).remaining() == old(self).remaining().skip(1),
                None => old(self).remaining().len() == 0 && final(self).remaining().len() == 0,
            },
    {
        if self.q > self.range {
            return None;
        }
        let out = HexId::new(self.q, self.r);
        let ghost n = self.range as int;
        let ghost q0 = self.q as int;
        let ghost off = self.r - row_lo(n, q0);
        proof {
            assert(old(self).remaining()[0] == row_seq(n, q0).skip(off)[0]);
            assert(row_seq(n, q0).skip(off)[0] == row_seq(n, q0)[off]);
            assert(out == old(self).remaining()[0]);
        }
        // End of the current column: min(range, -q+range).
        let neg_q_plus = self.range - self.q;
        let hi = if neg_q_plus <= self.range {
            neg_q_plus
        } else {
            self.range
        };
        if self.r < hi {
            self.r = self.r + 1;
            proof {
                assert(self.remaining() =~= old(self).remaining().skip(1));
            }
        } else {
            self.q = self.q + 1;
            if self.q <= self.range {
                // Start of the next column: max(-range, -q-range).
                let neg_q_minus = 0i32 - self.q - self.range;
                let lo = if neg_q_minus >= 0i32 - self.range {
                    neg_q_minus
                } else {
                    0i32 - self.range
                };
                self.r = lo;
                proof {
                    assert(row_seq(n, q0).skip(off).len() == 1);
                    assert(self.remaining() =~= rows_from(n, q0 + 1));
                    assert(self.remaining() =~= old(self).remaining().skip(1));
                }
            } else {
                proof {
                    assert(row_seq(n, q0).skip(off).len() == 1);
                    assert(rows_from(n, q0 + 1).len() == 0);
                    assert(self.remaining() =~= old(self).remaining().skip(1));
                }
            }
        }
        Some(out)
    }
}

/// Common face of the three cell walks: a walk is constructed for a radius
/// and then produces its cells one at a time, forward only.
pub trait Ranged: Sized {
    /// The cells the walk has yet to produce, in walk order.
    spec fn iter_rem(&self) -> Seq<HexId>;

    /// The full sequence a fresh walk of parameter `range` produces.
    spec fn iter_full(range: u32) -> Seq<HexId>;

    /// The walk is in a consistent state.
    spec fn iter_wf(&self) -> bool;

    /// A fresh walk of the given radius.
    fn in_range(range: u32) -> (it: Self)
        requires
            range <= MAX_RANGE,
        ensures
            it.iter_wf(),
            it.iter_rem() == Self::iter_full(range),
    ;

    /// The next cell of the walk, or `None` once it is exhausted.
    fn next(&mut self) -> (out: Option<HexId>)
        requires
            old(self).iter_wf(),
        ensures
            final(self).iter_wf(),
            match out {
                Some(c) => old(self).iter_rem().len() > 0 && c == old(self).iter_rem()[0]
                    && final(self).iter_rem() == old(self).iter_rem().skip(1),
                None => old(self).iter_rem().len() == 0 && final(self).iter_rem().len() == 0,
            },
    ;
}

impl Ranged for RingIter {
    open spec fn iter_rem(&self) -> Seq<HexId> {
        self.remaining()
    }

    open spec fn iter_full(range: u32) -> Seq<HexId> {
        ring_seq(range as int)
    }

    open spec fn iter_wf(&self) -> bool {
        self.wf()
    }

    fn in_range(range: u32) -> (it: Self) {
        RingIter::new(range)
    }

    fn next(&mut self) -> (out: Option<HexId>) {
        RingIter::next(self)
    }
}

impl Ranged for SpiralIter {
    open spec fn iter_rem(&self) -> Seq<HexId> {
        self.remaining()
    }

    open spec fn iter_full(range: u32) -> Seq<HexId> {
        spiral_seq(range as int)
    }

    open spec fn iter_wf(&self) -> bool {
        self.wf()
    }

    fn in_range(range: u32) -> (it: Self) {
        SpiralIter::new(range)
    }

    fn next(&mut self) -> (out: Option<HexId>) {
        SpiralIter::next(self)
    }
}

impl Ranged for FastFill {
    open spec fn iter_rem(&self) -> Seq<HexId> {
        self.remaining()
    }

    open spec fn iter_full(range: u32) -> Seq<HexId> {
        range_seq(range as int)
    }

    open spec fn iter_wf(&self) -> bool {
        self.wf()
    }

    fn in_range(range: u32) -> (it: Self) {
        FastFill::new(range)
    }

    fn next(&mut self) -> (out: Option<HexId>) {
        FastFill::next(self)
    }
}

/// Both coordinates of `c` translated by `o` stay within `i32`.
pub open spec fn offset_in_range(c: HexId, o: HexId) -> bool {
    &&& i32::MIN <= c.q + o.q <= i32::MAX
    &&& i32::MIN <= c.r + o.r <= i32::MAX
}

/// A wrapped walk with every produced cell translated by a fixed base
/// coordinate; purely a transform of the wrapped walk.
pub struct Offset<T> {
    iter: T,
    offset: HexId,
}

impl<T: Ranged> Offset<T> {
    /// The adapter is in a consistent state.
    pub closed spec fn wf(&self) -> bool {
        self.iter.iter_wf()
    }

    /// The base coordinate added to every produced cell.
    pub closed spec fn base(&self) -> HexId {
        self.offset
    }

    /// The untranslated cells the wrapped walk has yet to produce.
    pub closed spec fn inner_rem(&self) -> Seq<HexId> {
        self.iter.iter_rem()
    }

    /// The cells this adapter has yet to produce: the wrapped walk's cells,
    /// each translated by the base coordinate.
    pub closed spec fn remaining(&self) -> Seq<HexId> {
        self.iter.iter_rem().map_values(
            |c: HexId| hex_of((c.q + self.offset.q, c.r + self.offset.r)),
        )
    }

    /// The next translated cell, or `None` once the wrapped walk is
    /// exhausted.
    pub fn next(&mut self) -> (out: Option<HexId>)
        requires
            old(self).wf(),
            old(self).remaining().len() > 0 ==> offset_in_range(
                old(self).inner_rem()[0],
                old(self).base(),
            ),
        ensures
            final(self).wf(),
            final(self).base() == old(self).base(),
            match out {
                Some(c) => old(self).remaining().len() > 0 && c == old(self).remaining()[0]
                    && final(self).remaining() == old(self).remaining().skip(1),
                None => old(self).remaining().len() == 0 && final(self).remaining().len() == 0,
            },
    {
        let n = self.iter.next();
        match n {
            Some(c) => {
                let out = c.add(self.offset);
                proof {
                    assert(out == old(self).remaining()[0]);
                    assert(self.remaining() =~= old(self).remaining().skip(1));
                }
                Some(out)
            },
            None => None,
        }
    }
}

/// Wrapping any cell walk so that every produced cell is translated by a
/// fixed base coordinate.
pub trait WithOffset: Ranged {
    /// This walk, with every produced cell translated by `offset`.
    fn with_offset(self, offset: HexId) -> (it: Offset<Self>)
        requires
            self.iter_wf(),
        ensures
            it.wf(),
            it.base() == offset,
            it.remaining() == self.iter_rem().map_values(
                |c: HexId| hex_of((c.q + offset.q, c.r + offset.r)),
            ),
    ;
}

impl<T: Ranged> WithOffset for T {
    fn with_offset(self, offset: HexId) -> (it: Offset<T>) {
        Offset { iter: self, offset }
    }
}

/// The ring of radius `n` holds `6 * n` cells for `n >= 1`, and exactly the
/// one center cell for `n == 0`.
pub proof fn lemma_ring_len(n: int)
    requires
        0 <= n,
    ensures
        n >= 1 ==> ring_seq(n).len() == 6 * n,
        n == 0 ==> ring_seq(n).len() == 1,
{
}

/// Number of cells in columns `q` through `n` of the filled disk of radius
/// `n`: each column holds `2n + 1 - |q|` cells.
spec fn count_from(n: int, q: int) -> int
    decreases n - q + 1,
{
    if q > n {
        0
    } else if q >= 0 {
        2 * n + 1 - q + count_from(n, q + 1)
    } else {
        2 * n + 1 + q + count_from(n, q + 1)
    }
}

proof fn lemma_rows_from_len(n: int, q: int)
    requires
        0 <= n,
        -n <= q <= n + 1,
    ensures
        rows_from(n, q).len() == count_from(n, q),
    decreases n - q + 1,
{
    if q <= n {
        lemma_rows_from_len(n, q + 1);
    }
}

proof fn lemma_count_from_pos(n: int, q: int)
    requires
        0 <= q <= n + 1,
    ensures
        2 * count_from(n, q) == (n - q + 1) * (3 * n + 2 - q),
    decreases n - q + 1,
{
    if q > n {
        assert((n - q + 1) * (3 * n + 2 - q) == 0) by (nonlinear_arith)
            requires
                n - q + 1 == 0,
        ;
    } else {
        lemma_count_from_pos(n, q + 1);
        assert((n - q + 1) * (3 * n + 2 - q) == (n - q) * (3 * n + 1 - q) + 4 * n + 2 - 2 * q)
            by (nonlinear_arith);
    }
}

proof fn lemma_count_from_neg(n: int, q: int)
    requires
        0 <= n,
        -n <= q <= 0,
    ensures
        2 * count_from(n, q) == 2 * count_from(n, 0) + (-q) * (4 * n + 2) - (-q) * (-q + 1),
    decreases -q,
{
    if q == 0 {
        assert(0int * (4 * n + 2) == 0 && 0int * 1 == 0) by (nonlinear_arith);
    } else {
        lemma_count_from_neg(n, q + 1);
        assert((-q) * (4 * n + 2) == (-q - 1) * (4 * n + 2) + 4 * n + 2) by (nonlinear_arith);
        assert((-q) * (-q + 1) == (-q - 1) * (-q) + 2 * (-q)) by (nonlinear_arith);
    }
}

/// The filled disk of radius `n` holds exactly `3n^2 + 3n + 1` cells.
pub proof fn lemma_range_len(n: int)
    requires
        0 <= n,
    ensures
        range_seq(n).len() == 3 * n * n + 3 * n + 1,
{
    lemma_rows_from_len(n, -n);
    lemma_count_from_neg(n, -n);
    lemma_count_from_pos(n, 0);
    assert(2 * count_from(n, -n) == 2 * (3 * n * n + 3 * n + 1)) by (nonlinear_arith)
        requires
            2 * count_from(n, 0) == (n + 1) * (3 * n + 2),
            2 * count_from(n, -n) == 2 * count_from(n, 0) + n * (4 * n + 2) - n * (n + 1),
    ;
}

proof fn lemma_rings_from_len(a: int, b: int)
    requires
        1 <= a <= b + 1,
    ensures
        rings_from(a, b).len() == 3 * (b * (b + 1) - a * (a - 1)),
    decreases b - a + 1,
{
    if a > b {
        assert(b * (b + 1) - a * (a - 1) == 0) by (nonlinear_arith)
            requires
                a == b + 1,
        ;
    } else {
        lemma_rings_from_len(a + 1, b);
        assert(6 * a + 3 * (b * (b + 1) - (a + 1) * a) == 3 * (b * (b + 1) - a * (a - 1)))
            by (nonlinear_arith);
    }
}

/// The spiral of radius `n` produces exactly as many cells as the filled
/// disk of radius `n`: `3n^2 + 3n + 1`.
pub proof fn lemma_spiral_len(n: int)
    requires
        0 <= n,
    ensures
        spiral_seq(n).len() == 3 * n * n + 3 * n + 1,
{
    if n == 0 {
        assert(rings_from(1, 0) =~= Seq::<HexId>::empty());
        assert(spiral_seq(0).len() == 1);
    } else {
        lemma_rings_from_len(1, n);
        assert(spiral_seq(n).len() == 1 + 3 * (n * (n + 1) - 1 * 0));
        assert(1 + 3 * (n * (n + 1)) == 3 * n * n + 3 * n + 1) by (nonlinear_arith);
    }
}

/// Magnitude of an integer.
pub open spec fn int_abs(v: int) -> int {
    if v >= 0 {
        v
    } else {
        -v
    }
}

/// Cube distance of the axial coordinate pair `(q, r)` from the origin: the
/// largest magnitude among the three cube components `q`, `r`, `s = -q-r`.
pub open spec fn pair_dist(q: int, r: int) -> int {
    let a = int_abs(q);
    let b = int_abs(r);
    let s = int_abs(q + r);
    if a >= b && a >= s {
        a
    } else if b >= s {
        b
    } else {
        s
    }
}

/// Cube distance of a cell from the origin.
pub open spec fn hex_dist(c: HexId) -> int {
    pair_dist(c.q as int, c.r as int)
}

proof fn lemma_ring_decompose(n: int, k: int)
    requires
        1 <= n,
        0 <= k < 6 * n,
    ensures
        0 <= k / n < 6,
        0 <= k % n < n,
        k == n * (k / n) + k % n,
{
    vstd::arithmetic::div_mod::lemma_fundamental_div_mod(k, n);
    vstd::arithmetic::div_mod::lemma_mod_division_less_than_divisor(k, n);
    let j = k / n;
    if j < 0 {
        assert(n * j <= -n) by (nonlinear_arith)
            requires
                1 <= n,
                j <= -1,
        ;
        assert(false);
    }
    if j >= 6 {
        assert(n * j >= 6 * n) by (nonlinear_arith)
            requires
                1 <= n,
                j >= 6,
        ;
        assert(false);
    }
}

/// Every cell of the ring walk of radius `n` lies at cube distance exactly
/// `n` from the origin.
proof fn lemma_ring_at_dist(n: int, k: int)
    requires
        1 <= n,
        0 <= k < 6 * n,
    ensures
        pair_dist(ring_at(n, k).0, ring_at(n, k).1) == n,
{
    lemma_ring_decompose(n, k);
    let j = k / n;
    let t = k % n;
    assert(t * 1 == t && t * 0 == 0 && t * (-1) == -t) by (nonlinear_arith);
}

/// Index at which the ring walk of radius `n` reaches the cell `(q, r)`
/// (meaningful only for cells at cube distance exactly `n`).
pub open spec fn ring_index_of(n: int, q: int, r: int) -> int {
    if r == -n && 0 <= q && q <= n - 1 {
        2 * n + q
    } else if q == n && -n <= r && r <= -1 {
        3 * n + (n + r)
    } else if q + r == n && 1 <= q && q <= n {
        4 * n + (n - q)
    } else if r == n && -n + 1 <= q && q <= 0 {
        5 * n + (-q)
    } else if q == -n && 1 <= r && r <= n {
        n - r
    } else {
        n + (q + n)
    }
}

/// Every cell at cube distance exactly `n >= 1` from the origin appears in
/// the ring walk of radius `n`, at index `ring_index_of`.
proof fn lemma_ring_at_index_of(n: int, q: int, r: int)
    requires
        1 <= n,
        pair_dist(q, r) == n,
    ensures
        0 <= ring_index_of(n, q, r) < 6 * n,
        ring_at(n, ring_index_of(n, q, r)).0 == q,
        ring_at(n, ring_index_of(n, q, r)).1 == r,
{
    let k = ring_index_of(n, q, r);
    if r == -n && 0 <= q && q <= n - 1 {
        vstd::arithmetic::div_mod::lemma_fundamental_div_mod_converse_div(k, n, 2, q);
        vstd::arithmetic::div_mod::lemma_fundamental_div_mod_converse_mod(k, n, 2, q);
        assert(q * 1 == q && q * 0 == 0) by (nonlinear_arith);
    } else if q == n && -n <= r && r <= -1 {
        vstd::arithmetic::div_mod::lemma_fundamental_div_mod_converse_div(k, n, 3, n + r);
        vstd::arithmetic::div_mod::lemma_fundamental_div_mod_converse_mod(k, n, 3, n + r);
        assert((n + r) * 1 == n + r && (n + r) * 0 == 0) by (nonlinear_arith);
    } else if q + r == n && 1 <= q && q <= n {
        vstd::arithmetic::div_mod::lemma_fundamental_div_mod_converse_div(k, n, 4, n - q);
        vstd::arithmetic::div_mod::lemma_fundamental_div_mod_converse_mod(k, n, 4, n - q);
        assert((n - q) * 1 == n - q && (n - q) * (-1) == -(n - q)) by (nonlinear_arith);
    } else if r == n && -n + 1 <= q && q <= 0 {
        vstd::arithmetic::div_mod::lemma_fundamental_div_mod_converse_div(k, n, 5, -q);
        vstd::arithmetic::div_mod::lemma_fundamental_div_mod_converse_mod(k, n, 5, -q);
        assert((-q) * 0 == 0 && (-q) * (-1) == q) by (nonlinear_arith);
    } else if q == -n && 1 <= r && r <= n {
        vstd::arithmetic::div_mod::lemma_fundamental_div_mod_converse_div(k, n, 0, n - r);
        vstd::arithmetic::div_mod::lemma_fundamental_div_mod_converse_mod(k, n, 0, n - r);
        assert((n - r) * 0 == 0 && (n - r) * (-1) == -(n - r)) by (nonlinear_arith);
    } else {
        // Remaining case of a distance-n cell: q + r == -n with q in [-n, -1].
        assert(q + r == -n && -n <= q && q <= -1);
        vstd::arithmetic::div_mod::lemma_fundamental_div_mod_converse_div(k, n, 1, q + n);
        vstd::arithmetic::div_mod::lemma_fundamental_div_mod_converse_mod(k, n, 1, q + n);
        assert((q + n) * 1 == q + n && (q + n) * (-1) == -(q + n)) by (nonlinear_arith);
    }
}

/// A cell appears in `ring_seq(n)` exactly when its cube distance from the
/// origin is `n` (radii within the iterator bound).
pub proof fn lemma_ring_seq_contains(n: int, c: HexId)
    requires
        0 <= n <= MAX_RANGE,
    ensures
        ring_seq(n).contains(c) <==> hex_dist(c) == n,
{
    if n == 0 {
        assert(ring_seq(0)[0] == hex_of((0, 0)));
        if hex_dist(c) == 0 {
            assert(c == ring_seq(0)[0]);
            assert(ring_seq(0).contains(c));
        }
    } else {
        if ring_seq(n).contains(c) {
            let k = choose|k: int| 0 <= k < ring_seq(n).len() && ring_seq(n)[k] == c;
            lemma_ring_at_dist(n, k);
            lemma_ring_at_bounds(n, k);
            assert(c == hex_of(ring_at(n, k)));
            assert(c.q as int == ring_at(n, k).0 && c.r as int == ring_at(n, k).1);
        }
        if hex_dist(c) == n {
            lemma_ring_at_index_of(n, c.q as int, c.r as int);
            let k = ring_index_of(n, c.q as int, c.r as int);
            assert(ring_seq(n)[k] == hex_of(ring_at(n, k)));
            assert(ring_seq(n)[k] == c);
            assert(ring_seq(n).contains(c));
        }
    }
}

/// A cell appears in the column walk `rows_from(n, q0)` exactly when its
/// column is at least `q0` and it lies within the disk of radius `n`.
proof fn lemma_rows_from_contains(n: int, q0: int, c: HexId)
    requires
        0 <= n <= MAX_RANGE,
        -n <= q0 <= n + 1,
    ensures
        rows_from(n, q0).contains(c) <==> {
            &&& q0 <= c.q <= n
            &&& row_lo(n, c.q as int) <= c.r <= row_hi(n, c.q as int)
        },
    decreases n - q0 + 1,
{
    if q0 <= n {
        lemma_rows_from_contains(n, q0 + 1, c);
        let row = row_seq(n, q0);
        let rest = rows_from(n, q0 + 1);
        assert(rows_from(n, q0) == row + rest);
        if rows_from(n, q0).contains(c) {
            let k = choose|k: int|
                0 <= k < rows_from(n, q0).len() && rows_from(n, q0)[k] == c;
            if k < row.len() {
                assert(c == row[k]);
                assert(c == hex_of((q0, row_lo(n, q0) + k)));
            } else {
                assert(c == rest[k - row.len()]);
                assert(rest.contains(c));
            }
        }
        if q0 <= c.q <= n && row_lo(n, c.q as int) <= c.r <= row_hi(n, c.q as int) {
            if c.q == q0 {
                let i = c.r - row_lo(n, q0);
                assert(row[i] == hex_of((q0, row_lo(n, q0) + i)));
                assert(row[i] == c);
                assert((row + rest)[i] == c);
                assert(rows_from(n, q0).contains(c));
            } else {
                assert(rest.contains(c));
                let k = choose|k: int| 0 <= k < rest.len() && rest[k] == c;
                assert((row + rest)[row.len() + k] == c);
                assert(rows_from(n, q0).contains(c));
            }
        }
    }
}

/// A cell appears in the filled disk of radius `n` exactly when its cube
/// distance from the origin is at most `n`.
pub proof fn lemma_range_seq_contains(n: int, c: HexId)
    requires
        0 <= n <= MAX_RANGE,
    ensures
        range_seq(n).contains(c) <==> hex_dist(c) <= n,
{
    lemma_rows_from_contains(n, -n, c);
}

/// A cell appears in the concatenated rings `a` through `b` exactly when its
/// cube distance from the origin lies in `[a, b]`.
proof fn lemma_rings_from_contains(a: int, b: int, c: HexId)
    requires
        0 <= a,
        b <= MAX_RANGE,
    ensures
        rings_from(a, b).contains(c) <==> (a <= hex_dist(c) <= b),
    decreases b - a + 1,
{
    if a > b {
    } else {
        lemma_rings_from_contains(a + 1, b, c);
        lemma_ring_seq_contains(a, c);
        let ring = ring_seq(a);
        let rest = rings_from(a + 1, b);
        assert(rings_from(a, b) == ring + rest);
        if rings_from(a, b).contains(c) {
            let k = choose|k: int|
                0 <= k < rings_from(a, b).len() && rings_from(a, b)[k] == c;
            if k < ring.len() {
                assert(ring[k] == c);
                assert(ring.contains(c));
            } else {
                assert(rest[k - ring.len()] == c);
                assert(rest.contains(c));
            }
        }
        if a <= hex_dist(c) <= b {
            if hex_dist(c) == a {
                let k = choose|k: int| 0 <= k < ring.len() && ring[k] == c;
                assert((ring + rest)[k] == c);
                assert(rings_from(a, b).contains(c));
            } else {
                let k = choose|k: int| 0 <= k < rest.len() && rest[k] == c;
                assert((ring + rest)[ring.len() + k] == c);
                assert(rings_from(a, b).contains(c));
            }
        }
    }
}

/// A cell appears in the spiral of radius `n` exactly when its cube distance
/// from the origin is at most `n`.
pub proof fn lemma_spiral_seq_contains(n: int, c: HexId)
    requires
        0 <= n <= MAX_RANGE,
    ensures
        spiral_seq(n).contains(c) <==> hex_dist(c) <= n,
{
    lemma_rings_from_contains(0, n, c);
}

/// The spiral of radius `n` and the filled disk of radius `n` enumerate the
/// same set of cells (in different orders): both hold exactly the cells at
/// cube distance at most `n` from the origin.
pub proof fn lemma_spiral_range_same_set(n: int)
    requires
        0 <= n <= MAX_RANGE,
    ensures
        spiral_seq(n).to_set() == range_seq(n).to_set(),
{
    assert forall|c: HexId| spiral_seq(n).to_set().contains(c)
        <==> range_seq(n).to_set().contains(c) by {
        lemma_spiral_seq_contains(n, c);
        lemma_range_seq_contains(n, c);
    }
    assert(spiral_seq(n).to_set() =~= range_seq(n).to_set());
}

} // verus!
