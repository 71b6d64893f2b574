use vstd::prelude::*;

verus! {

/// Axial coordinate of a hexagonal cell.
///
/// A cell is identified by the two signed axial coordinates `(q, r)`; the
/// third cube coordinate is implied as `s = -q - r`, so that `q + r + s == 0`
/// always holds and `s` is never stored.
#[derive(PartialEq, Eq, Structural, Hash, Debug, Clone, Copy, Default)]
pub struct HexId {
    pub q: i32,
    pub r: i32,
}

impl HexId {
    pub fn new(q: i32, r: i32) -> (c: HexId)
        ensures
            c.q == q,
            c.r == r,
    {
        HexId { q, r }
    }

    pub fn q(&self) -> (q: i32)
        ensures
            q == self.q,
    {
        self.q
    }

    pub fn r(&self) -> (r: i32)
        ensures
            r == self.r,
    {
        self.r
    }

    /// The implied third cube coordinate, `s = -q - r`.
    pub fn s(&self) -> (s: i32)
        requires
            i32::MIN <= -(self.q as int) - (self.r as int) <= i32::MAX,
        ensures
            s == -(self.q as int) - (self.r as int),
            self.q + self.r + s == 0,
    {
        ((-(self.q as i64)) - (self.r as i64)) as i32
    }

    /// Component-wise sum of two coordinates.
    pub fn add(self, rhs: HexId) -> (c: HexId)
        requires
            i32::MIN <= self.q + rhs.q <= i32::MAX,
            i32::MIN <= self.r + rhs.r <= i32::MAX,
        ensures
            c.q == self.q + rhs.q,
            c.r == self.r + rhs.r,
    {
        HexId::new(self.q + rhs.q, self.r + rhs.r)
    }

    /// The neighboring cell one step in the given direction.
    pub fn add_direction(self, rhs: MapDirection) -> (c: HexId)
        requires
            i32::MIN + 1 <= self.q <= i32::MAX - 1,
            i32::MIN + 1 <= self.r <= i32::MAX - 1,
        ensures
            c.q == self.q + dq(rhs),
            c.r == self.r + dr(rhs),
    {
        self.add(rhs.direction())
    }
}

/// The six hex neighbor directions, in their fixed cyclic order.
///
/// The declaration order is the cyclic order that `next` walks, and the order
/// in which ring sides are traversed.
#[derive(PartialEq, Eq, Structural, Hash, Debug, Clone, Copy)]
pub enum MapDirection {
    Down,
    East,
    North,
    Up,
    West,
    South,
}

/// Axial `q` delta of one step in direction `d`.
pub open spec fn dq(d: MapDirection) -> int {
    match d {
        MapDirection::Down => 0,
        MapDirection::East => 1,
        MapDirection::North => 1,
        MapDirection::Up => 0,
        MapDirection::West => -1,
        MapDirection::South => -1,
    }
}

/// Axial `r` delta of one step in direction `d`.
pub open spec fn dr(d: MapDirection) -> int {
    match d {
        MapDirection::Down => -1,
        MapDirection::East => -1,
        MapDirection::North => 0,
        MapDirection::Up => 1,
        MapDirection::West => 1,
        MapDirection::South => 0,
    }
}

/// Position of `d` in the cyclic order, counting from `Down`.
pub open spec fn dir_index(d: MapDirection) -> int {
    match d {
        MapDirection::Down => 0,
        MapDirection::East => 1,
        MapDirection::North => 2,
        MapDirection::Up => 3,
        MapDirection::West => 4,
        MapDirection::South => 5,
    }
}

/// The direction at position `i` of the cyclic order (inverse of `dir_index`).
pub open spec fn dir_of_index(i: int) -> MapDirection {
    if i == 0 {
        MapDirection::Down
    } else if i == 1 {
        MapDirection::East
    } else if i == 2 {
        MapDirection::North
    } else if i == 3 {
        MapDirection::Up
    } else if i == 4 {
        MapDirection::West
    } else {
        MapDirection::South
    }
}

impl MapDirection {
    /// The constant coordinate delta of one step in this direction.
    pub fn direction(&self) -> (c: HexId)
        ensures
            c.q == dq(*self),
            c.r == dr(*self),
    {
        match self {
            MapDirection::Down => HexId::new(0, -1),
            MapDirection::East => HexId::new(1, -1),
            MapDirection::North => HexId::new(1, 0),
            MapDirection::Up => HexId::new(0, 1),
            MapDirection::West => HexId::new(-1, 1),
            MapDirection::South => HexId::new(-1, 0),
        }
    }

    /// The next direction in cyclic order, with wraparound.
    pub fn next(&self) -> (d: MapDirection)
        ensures
            d == spec_next(*self),
            dir_index(d) == (dir_index(*self) + 1) % 6,
    {
        match self {
            MapDirection::Down => MapDirection::East,
            MapDirection::East => MapDirection::North,
            MapDirection::North => MapDirection::Up,
            MapDirection::Up => MapDirection::West,
            MapDirection::West => MapDirection::South,
            MapDirection::South => MapDirection::Down,
        }
    }

    /// Display angle of this direction, counted in multiples of pi/3 radians
    /// (so `Down` is -3, i.e. -pi, and `Up` is 0).
    pub fn angle(&self) -> (a: i32)
        ensures
            a == dir_index(*self) - 3,
    {
        match self {
            MapDirection::Down => -3,
            MapDirection::East => -2,
            MapDirection::North => -1,
            MapDirection::Up => 0,
            MapDirection::West => 1,
            MapDirection::South => 2,
        }
    }

    /// Position of this direction in the cyclic order, counting from `Down`.
    pub fn index(&self) -> (i: u8)
        ensures
            i == dir_index(*self),
    {
        match self {
            MapDirection::Down => 0,
            MapDirection::East => 1,
            MapDirection::North => 2,
            MapDirection::Up => 3,
            MapDirection::West => 4,
            MapDirection::South => 5,
        }
    }

    /// The direction at position `i` of the cyclic order.
    pub fn from_index(i: u8) -> (d: MapDirection)
        requires
            i < 6,
        ensures
            d == dir_of_index(i as int),
            dir_index(d) == i,
    {
        if i == 0 {
            MapDirection::Down
        } else if i == 1 {
            MapDirection::East
        } else if i == 2 {
            MapDirection::North
        } else if i == 3 {
            MapDirection::Up
        } else if i == 4 {
            MapDirection::West
        } else {
            MapDirection::South
        }
    }
}

/// The successor of a direction in the cyclic order.
pub open spec fn spec_next(d: MapDirection) -> MapDirection {
    match d {
        MapDirection::Down => MapDirection::East,
        MapDirection::East => MapDirection::North,
        MapDirection::North => MapDirection::Up,
        MapDirection::Up => MapDirection::West,
        MapDirection::West => MapDirection::South,
        MapDirection::South => MapDirection::Down,
    }
}

/// Law: advancing a direction six times returns the starting direction, for
/// every starting direction; and the six direction deltas are pairwise
/// distinct unit hex steps.
pub proof fn lemma_next_cycles(d: MapDirection)
    ensures
        spec_next(spec_next(spec_next(spec_next(spec_next(spec_next(d)))))) == d,
        forall|a: MapDirection, b: MapDirection| dir_index(a) == dir_index(b) ==> a == b,
        forall|a: MapDirection, b: MapDirection| a != b ==> !(dq(a) == dq(b) && dr(a) == dr(b)),
{
    assert(forall|a: MapDirection, b: MapDirection| dir_index(a) == dir_index(b) ==> a == b);
    assert(forall|a: MapDirection, b: MapDirection| a != b ==> !(dq(a) == dq(b) && dr(a) == dr(
        b,
    )));
}

/// The terrain tag attached to a hex cell, carried through a layer transition
/// to pick the voxel chunk's fill policy.
#[derive(PartialEq, Eq, Structural, Debug, Hash, Clone, Copy)]
pub enum HexagonType {
    Empty,
    Stone,
    Coal,
}

} // verus!
