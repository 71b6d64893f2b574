use vstd::prelude::*;
use crate::cells::{HexId, MapDirection, HexagonType};
use crate::rng::{rng_from_u64, gen_ratio};

verus! {

/// Side length of one voxel chunk.
pub const CHUNK_SIDE: i32 = 16;

/// Kind of one voxel block.
#[derive(PartialEq, Eq, Structural, Debug, Hash, Clone, Copy)]
pub enum BlockType {
    Air,
    Stone,
    Coal,
}

/// Whether a block kind occupies space: air does not, stone and coal do.
pub open spec fn spec_is_solid(b: BlockType) -> bool {
    match b {
        BlockType::Air => false,
        BlockType::Stone => true,
        BlockType::Coal => true,
    }
}

/// Texture asset path of a block kind.
pub open spec fn spec_texture_path(b: BlockType) -> Seq<char> {
    match b {
        BlockType::Air => ""@,
        BlockType::Stone => "images/voxels/stone.png"@,
        BlockType::Coal => "images/voxels/coal.png"@,
    }
}

impl BlockType {
    /// Whether this block occupies space.
    pub fn is_solid(&self) -> (b: bool)
        ensures
            b == spec_is_solid(*self),
    {
        match self {
            BlockType::Air => false,
            BlockType::Stone => true,
            BlockType::Coal => true,
        }
    }

    /// Texture asset path of this block kind.
    pub fn texture_path(&self) -> (s: &'static str)
        ensures
            s@ == spec_texture_path(*self),
    {
        match self {
            BlockType::Air => "",
            BlockType::Stone => "images/voxels/stone.png",
            BlockType::Coal => "images/voxels/coal.png",
        }
    }
}

/// Fill policy of a voxel chunk, selected by the terrain tag of the hex cell
/// the chunk belongs to.
#[derive(PartialEq, Eq, Structural, Debug, Hash, Clone, Copy)]
pub enum WorldType {
    Empty,
    Stone,
    Coal,
}

/// The fill policy a hex cell's terrain tag selects.
pub open spec fn spec_world_of(h: HexagonType) -> WorldType {
    match h {
        HexagonType::Empty => WorldType::Empty,
        HexagonType::Stone => WorldType::Stone,
        HexagonType::Coal => WorldType::Coal,
    }
}

impl WorldType {
    /// Fill policy from its numeric tag.  An out-of-range tag is a
    /// programming-contract violation between producer and consumer of a
    /// transition event, so it is excluded rather than handled.
    pub fn from_u8(id: u8) -> (w: WorldType)
        requires
            id <= 2,
        ensures
            id == 0 ==> w == WorldType::Empty,
            id == 1 ==> w == WorldType::Stone,
            id == 2 ==> w == WorldType::Coal,
    {
        if id == 0 {
            WorldType::Empty
        } else if id == 1 {
            WorldType::Stone
        } else {
            WorldType::Coal
        }
    }

    /// Fill policy carried by a hex cell's terrain tag.
    pub fn from_hexagon(h: HexagonType) -> (w: WorldType)
        ensures
            w == spec_world_of(h),
    {
        match h {
            HexagonType::Empty => WorldType::Empty,
            HexagonType::Stone => WorldType::Stone,
            HexagonType::Coal => WorldType::Coal,
        }
    }

    /// Sample the block kind of one cell at height `y`.  The pseudo-random
    /// draws decide the outcome, so the contract states only what holds of
    /// every draw: an empty world is all air; a stone world yields stone or
    /// air, with stone guaranteed on the floor row `y == 0`; a coal world
    /// never yields air on the floor row.
    pub fn sample(&self, rng: &mut rand::rngs::StdRng, y: i32) -> (b: BlockType)
        ensures
            *self == WorldType::Empty ==> b == BlockType::Air,
            *self == WorldType::Stone ==> (b == BlockType::Stone || b == BlockType::Air),
            *self == WorldType::Stone && y == 0 ==> b == BlockType::Stone,
            *self == WorldType::Coal && y == 0 ==> b != BlockType::Air,
    {
        match self {
            WorldType::Empty => BlockType::Air,
            WorldType::Stone => {
                if gen_ratio(rng, 6, 10) || y == 0 {
                    BlockType::Stone
                } else {
                    BlockType::Air
                }
            },
            WorldType::Coal => {
                if gen_ratio(rng, 3, 10) && y != 0 {
                    BlockType::Air
                } else if gen_ratio(rng, 25, 100) {
                    BlockType::Coal
                } else {
                    BlockType::Stone
                }
            },
        }
    }
}

/// The deterministic 64-bit seed of the chunk at hex coordinate `id`: the
/// two axial coordinates, cast to unsigned 32 bits, packed high and low.
pub open spec fn spec_chunk_seed(id: HexId) -> u64 {
    (((id.q as u32) as u64) << 32) | ((id.r as u32) as u64)
}

/// The deterministic seed of the chunk at hex coordinate `id`.
pub fn chunk_seed(id: HexId) -> (s: u64)
    ensures
        s == spec_chunk_seed(id),
{
    (((id.q as u32) as u64) << 32) | ((id.r as u32) as u64)
}

/// Solidity grid of the active voxel chunk: one boolean per cell of a
/// 16 x 16 x 16 cube, linear layout `x + z*16 + y*256`.  Queries outside the
/// cube return "not solid" rather than failing.
pub struct Solid {
    cells: Vec<bool>,
}

impl Solid {
    /// The grid holds exactly one flag per cell of the cube.
    pub closed spec fn wf(&self) -> bool {
        self.cells.len() == 4096
    }

    /// Solidity of the cell at `(x, y, z)`: the stored flag inside the cube,
    /// "not solid" outside it.
    pub closed spec fn cell(&self, x: int, y: int, z: int) -> bool {
        if 0 <= x < 16 && 0 <= y < 16 && 0 <= z < 16 {
            self.cells@[x + z * 16 + y * 256]
        } else {
            false
        }
    }

    /// A fresh grid with every cell not solid.
    pub fn new() -> (s: Solid)
        ensures
            s.wf(),
            forall|x: int, y: int, z: int| !s.cell(x, y, z),
    {
        Solid { cells: vec![false; 4096] }
    }

    fn set(&mut self, x: i32, y: i32, z: i32, val: bool)
        requires
            old(self).wf(),
            0 <= x < 16,
            0 <= y < 16,
            0 <= z < 16,
        ensures
            final(self).wf(),
            final(self).cell(x as int, y as int, z as int) == val,
            forall|a: int, b: int, c: int|
                !(a == x && b == y && c == z) ==> final(self).cell(a, b, c) == old(self).cell(
                    a,
                    b,
                    c,
                ),
    {
        let idx: usize = (x + z * 16 + y * 256) as usize;
        self.cells[idx] = val;
        proof {
            // The linear layout is injective on the cube: unequal triples
            // give unequal indices.
            assert forall|a: int, b: int, c: int|
                0 <= a < 16 && 0 <= b < 16 && 0 <= c < 16 && !(a == x && b == y && c
                    == z) implies #[trigger] (a + c * 16 + b * 256) != idx as int by {
                if a + c * 16 + b * 256 == idx as int {
                    assert(256 * (b - y) == (x - a) + 16 * ((z as int) - c));
                    assert(b == y);
                    assert(c == z);
                    assert(a == x);
                }
            }
        }
    }

    fn clear(&mut self)
        ensures
            final(self).wf(),
            forall|x: int, y: int, z: int| !final(self).cell(x, y, z),
    {
        self.cells = vec![false; 4096];
    }

    /// Solidity query, fail-open: any coordinate outside `[0, 16)` on any
    /// axis is reported not solid.
    pub fn get(&self, x: i32, y: i32, z: i32) -> (b: bool)
        requires
            self.wf(),
        ensures
            b == self.cell(x as int, y as int, z as int),
    {
        if x < 0 || x >= CHUNK_SIDE || y < 0 || y >= CHUNK_SIDE || z < 0 || z >= CHUNK_SIDE {
            false
        } else {
            self.cells[(x + z * 16 + y * 256) as usize]
        }
    }

    /// Clear the grid, then repopulate it for the chunk at hex coordinate
    /// `id` under the given fill policy, sampling each cell from a generator
    /// seeded by the chunk coordinate, in the fixed order x outer, y middle,
    /// z inner.  The draws decide individual cells, so the contract states
    /// what holds of every outcome: an empty world leaves every cell not
    /// solid, and a stone world guarantees a solid floor row.
    pub fn fill(&mut self, id: HexId, world: WorldType)
        requires
            old(self).wf(),
        ensures
            final(self).wf(),
            world == WorldType::Empty ==> forall|x: int, y: int, z: int|
                !final(self).cell(x, y, z),
            world == WorldType::Stone ==> forall|x: int, z: int|
                0 <= x < 16 && 0 <= z < 16 ==> final(self).cell(x, 0, z),
    {
        self.clear();
        if matches!(world, WorldType::Empty) {
            return ;
        }
        let mut rng = rng_from_u64(chunk_seed(id));
        for x in 0..16i32
            invariant
                self.wf(),
                world == WorldType::Stone ==> forall|a: int, c: int|
                    0 <= a < x && 0 <= c < 16 ==> self.cell(a, 0, c),
        {
            for y in 0..16i32
                invariant
                    self.wf(),
                    0 <= x < 16,
                    world == WorldType::Stone ==> forall|a: int, c: int|
                        0 <= a < x && 0 <= c < 16 ==> self.cell(a, 0, c),
                    world == WorldType::Stone && y >= 1 ==> forall|c: int|
                        0 <= c < 16 ==> self.cell(x as int, 0, c),
            {
                for z in 0..16i32
                    invariant
                        self.wf(),
                        0 <= x < 16,
                        0 <= y < 16,
                        world == WorldType::Stone ==> forall|a: int, c: int|
                            0 <= a < x && 0 <= c < 16 ==> self.cell(a, 0, c),
                        world == WorldType::Stone && y >= 1 ==> forall|c: int|
                            0 <= c < 16 ==> self.cell(x as int, 0, c),
                        world == WorldType::Stone && y == 0 ==> forall|c: int|
                            0 <= c < z ==> self.cell(x as int, 0, c),
                {
                    let block = world.sample(&mut rng, y);
                    self.set(x, y, z, block.is_solid());
                }
            }
        }
    }
}

impl Solid {
    /// Whether gravity displaces an entity whose feet stand in cell
    /// `(x, y, z)` this tick: it falls exactly when the cell directly below
    /// is not solid.
    pub fn falls(&self, x: i32, y: i32, z: i32) -> (b: bool)
        requires
            self.wf(),
            y > i32::MIN,
        ensures
            b == !self.cell(x as int, y as int - 1, z as int),
    {
        !self.get(x, y - 1, z)
    }
}

/// Law: a solidity query at any coordinate outside `[0, 16)` on any axis
/// reports "not solid", whatever the grid holds.
pub proof fn lemma_out_of_range_not_solid(s: Solid, x: int, y: int, z: int)
    requires
        !(0 <= x < 16 && 0 <= y < 16 && 0 <= z < 16),
    ensures
        !s.cell(x, y, z),
{
}

impl Default for Solid {
    /// A fresh grid with every cell not solid.
    fn default() -> (s: Solid)
        ensures
            s.wf(),
            forall|x: int, y: int, z: int| !s.cell(x, y, z),
    {
        Solid::new()
    }
}

/// The fixed in-chunk entry position for a player arriving through the given
/// hex edge: on the face of the 16-cube corresponding to that edge, centered
/// on the face.
pub open spec fn spec_pos_from_enter(d: MapDirection) -> (int, int, int) {
    match d {
        MapDirection::Down => (8, 0, 8),
        MapDirection::East => (16, 8, 8),
        MapDirection::North => (8, 8, 16),
        MapDirection::Up => (8, 16, 8),
        MapDirection::West => (0, 8, 8),
        MapDirection::South => (8, 8, 0),
    }
}

/// The fixed in-chunk entry position for the given arrival direction.
pub fn pos_from_enter(direction: &MapDirection) -> (p: (i32, i32, i32))
    ensures
        (p.0 as int, p.1 as int, p.2 as int) == spec_pos_from_enter(*direction),
{
    match direction {
        MapDirection::Down => (8, 0, 8),
        MapDirection::East => (16, 8, 8),
        MapDirection::North => (8, 8, 16),
        MapDirection::Up => (8, 16, 8),
        MapDirection::West => (0, 8, 8),
        MapDirection::South => (8, 8, 0),
    }
}

/// Which hex edge a position outside the chunk's bounds (a 2-unit margin
/// around the 16-cube) has crossed, or `None` while the position is inside.
/// The axes are tested in the fixed order y low, y high, x low, x high,
/// z low, z high.
pub open spec fn spec_exit_direction(x: int, y: int, z: int) -> Option<MapDirection> {
    if y < -2 {
        Some(MapDirection::Up)
    } else if y > 18 {
        Some(MapDirection::Down)
    } else if x < -2 {
        Some(MapDirection::West)
    } else if x > 18 {
        Some(MapDirection::East)
    } else if z < -2 {
        Some(MapDirection::South)
    } else if z > 18 {
        Some(MapDirection::North)
    } else {
        None
    }
}

/// Which hex edge the position `(x, y, z)` has crossed out of the chunk's
/// bounds, or `None` while it is inside.
pub fn exit_direction(x: i64, y: i64, z: i64) -> (d: Option<MapDirection>)
    ensures
        d == spec_exit_direction(x as int, y as int, z as int),
{
    if y < -2 {
        Some(MapDirection::Up)
    } else if y > 18 {
        Some(MapDirection::Down)
    } else if x < -2 {
        Some(MapDirection::West)
    } else if x > 18 {
        Some(MapDirection::East)
    } else if z < -2 {
        Some(MapDirection::South)
    } else if z > 18 {
        Some(MapDirection::North)
    } else {
        None
    }
}

} // verus!
