use vstd::prelude::*;
use crate::cells::{HexId, MapDirection, HexagonType, dq, dr};
use crate::voxel::{
    Solid, WorldType, spec_world_of, spec_pos_from_enter, pos_from_enter, exit_direction,
    spec_exit_direction,
};
use crate::iterators::{SpiralIter, spiral_seq};
use crate::rng::{rng_from_seed, gen_ratio, gen_index};

verus! {

/// The game's top-level screens.  Only `HexMap` and `VoxelWorld` carry core
/// logic; the others are presentation-only states that map to the menu
/// layer.
#[derive(PartialEq, Eq, Structural, Debug, Hash, Clone, Copy)]
pub enum Screen {
    Splash,
    Loading,
    Title,
    Credits,
    HexMap,
    VoxelWorld,
}

/// The mutually exclusive top-level gameplay layers.
#[derive(PartialEq, Eq, Structural, Debug, Hash, Clone, Copy)]
pub enum GameState {
    Menu,
    Hexagon,
    Voxel,
}

/// The gameplay layer a screen maps to.
pub open spec fn spec_gamestate_of(s: Screen) -> GameState {
    match s {
        Screen::HexMap => GameState::Hexagon,
        Screen::VoxelWorld => GameState::Voxel,
        _ => GameState::Menu,
    }
}

/// The gameplay layer the given screen maps to: the hex map and voxel world
/// screens map to their layers, every other screen to the menu layer.
pub fn update_gamestate(screen: &Screen) -> (g: GameState)
    ensures
        g == spec_gamestate_of(*screen),
{
    match screen {
        Screen::HexMap => GameState::Hexagon,
        Screen::VoxelWorld => GameState::Voxel,
        _ => GameState::Menu,
    }
}

/// A layer transition event: enter the hex layer arriving from an exit
/// direction, or enter the voxel layer of a hex cell arriving from an exit
/// direction, carrying the cell's terrain tag.
#[derive(PartialEq, Eq, Structural, Debug, Clone, Copy)]
pub enum ChangeLayer {
    ToHex { id: HexId, direction: MapDirection },
    ToVoxel { id: HexId, direction: MapDirection, hex_type: HexagonType },
}

/// The currently selected hexagon: its coordinate and the facing direction
/// of the cursor on it.
#[derive(PartialEq, Eq, Structural, Debug, Clone, Copy)]
pub struct HexSelect {
    pub hex_id: HexId,
    pub direction: MapDirection,
}

/// The terrain tag recorded for `id` in a list of cells: the tag of the
/// first entry with that coordinate, or `Empty` when none has it.
pub open spec fn spec_hex_type_at(hexes: Seq<(HexId, HexagonType)>, id: HexId) -> HexagonType
    decreases hexes.len(),
{
    if hexes.len() == 0 {
        HexagonType::Empty
    } else if hexes[0].0 == id {
        hexes[0].1
    } else {
        spec_hex_type_at(hexes.drop_first(), id)
    }
}

/// The transition event emitted when the player confirms the cursor's
/// selection: enter the voxel layer of the selected cell, carrying the
/// terrain tag recorded for that cell (the first match in the cell list;
/// `Empty` when the cell is not listed).
pub fn go_to_voxel(cursor: &HexSelect, hexes: &Vec<(HexId, HexagonType)>) -> (e: ChangeLayer)
    ensures
        e == (ChangeLayer::ToVoxel {
            id: cursor.hex_id,
            direction: cursor.direction,
            hex_type: spec_hex_type_at(hexes@, cursor.hex_id),
        }),
{
    let mut hex_type = HexagonType::Empty;
    let mut i: usize = 0;
    proof {
        assert(hexes@.skip(0) =~= hexes@);
    }
    loop
        invariant_except_break
            0 <= i <= hexes@.len(),
            spec_hex_type_at(hexes@, cursor.hex_id) == spec_hex_type_at(
                hexes@.skip(i as int),
                cursor.hex_id,
            ),
            hex_type == HexagonType::Empty,
        ensures
            hex_type == spec_hex_type_at(hexes@, cursor.hex_id),
        decreases hexes@.len() - i,
    {
        if i >= hexes.len() {
            proof {
                assert(hexes@.skip(i as int).len() == 0);
            }
            break ;
        }
        let entry = hexes[i];
        if entry.0 == cursor.hex_id {
            hex_type = entry.1;
            proof {
                assert(hexes@.skip(i as int)[0] == entry);
            }
            break ;
        }
        proof {
            assert(hexes@.skip(i as int).drop_first() =~= hexes@.skip(i as int + 1));
            assert(hexes@.skip(i as int)[0] == entry);
        }
        i = i + 1;
    }
    ChangeLayer::ToVoxel { id: cursor.hex_id, direction: cursor.direction, hex_type }
}

/// The overworld grid spawned when the hex layer is entered: the spiral of
/// radius 10 around the origin, each cell tagged `Empty` with probability
/// 9/10 and otherwise with a uniformly drawn tag, from a generator with a
/// fixed seed.  The draws pick individual tags, so the contract pins down the
/// coordinates (the spiral walk, in order) and the grid's size.
pub fn spawn_test_grid() -> (grid: Vec<(HexId, HexagonType)>)
    ensures
        grid@.len() == spiral_seq(10).len(),
        forall|i: int| 0 <= i < grid@.len() ==> (#[trigger] grid@[i]).0 == spiral_seq(10)[i],
{
    let seed: [u8; 32] = [
        0, 1, 2, 3, 4, 5, 6, 7, 8, 9, 10, 11, 12, 13, 14, 15, 16, 17, 18, 19, 20, 21, 22, 23, 24,
        25, 26, 27, 28, 29, 30, 31,
    ];
    let mut rng = rng_from_seed(seed);
    let mut it = SpiralIter::new(10);
    let mut grid: Vec<(HexId, HexagonType)> = Vec::new();
    proof {
        assert(spiral_seq(10).skip(0) =~= spiral_seq(10));
    }
    loop
        invariant_except_break
            it.wf(),
            it.remaining() == spiral_seq(10).skip(grid@.len() as int),
            grid@.len() <= spiral_seq(10).len(),
            forall|i: int| 0 <= i < grid@.len() ==> (#[trigger] grid@[i]).0 == spiral_seq(10)[i],
        ensures
            grid@.len() == spiral_seq(10).len(),
            forall|i: int| 0 <= i < grid@.len() ==> (#[trigger] grid@[i]).0 == spiral_seq(10)[i],
        decreases it.remaining().len(),
    {
        let next = it.next();
        match next {
            None => {
                break ;
            },
            Some(c) => {
                let hex_type = if gen_ratio(&mut rng, 1, 10) {
                    let k = gen_index(&mut rng, 3);
                    if k == 0 {
                        HexagonType::Empty
                    } else if k == 1 {
                        HexagonType::Stone
                    } else {
                        HexagonType::Coal
                    }
                } else {
                    HexagonType::Empty
                };
                proof {
                    assert(spiral_seq(10).skip(grid@.len() as int)[0] == spiral_seq(10)[grid@.len() as int]);
                }
                grid.push((c, hex_type));
                proof {
                    assert(spiral_seq(10).skip(grid@.len() as int - 1).skip(1) =~= spiral_seq(
                        10,
                    ).skip(grid@.len() as int));
                }
            },
        }
    }
    grid
}

/// The layer state after a batch of transition events: each event switches
/// the state, so the last event of the batch decides; an empty batch leaves
/// the state unchanged.
pub open spec fn spec_next_state(current: GameState, events: Seq<ChangeLayer>) -> GameState {
    if events.len() == 0 {
        current
    } else {
        match events.last() {
            ChangeLayer::ToHex { .. } => GameState::Hexagon,
            ChangeLayer::ToVoxel { .. } => GameState::Voxel,
        }
    }
}

/// The layer state after processing a batch of transition events in order.
pub fn change_layer(current: GameState, events: &Vec<ChangeLayer>) -> (next: GameState)
    ensures
        next == spec_next_state(current, events@),
{
    let mut next = current;
    let mut i: usize = 0;
    while i < events.len()
        invariant
            0 <= i <= events@.len(),
            next == spec_next_state(current, events@.take(i as int)),
        decreases events@.len() - i,
    {
        match events[i] {
            ChangeLayer::ToHex { .. } => {
                next = GameState::Hexagon;
            },
            ChangeLayer::ToVoxel { .. } => {
                next = GameState::Voxel;
            },
        }
        proof {
            assert(events@.take(i as int + 1).last() == events@[i as int]);
        }
        i = i + 1;
    }
    proof {
        assert(events@.take(events@.len() as int) =~= events@);
    }
    next
}

/// The fixed pixel-space entry point of the hex layer for a player arriving
/// from exit direction `d`: the pixel position of the neighboring cell one
/// step in that direction, i.e. just inside the map edge that was crossed.
pub open spec fn spec_hex_entry(d: MapDirection) -> (int, int) {
    (dq(d) * 4915200, (dq(d) * 56756 + dr(d) * 113512) * 50)
}

/// The fixed pixel-space entry point of the hex layer for arrival direction
/// `d`.
pub fn hex_entry_point(d: &MapDirection) -> (p: (i64, i64))
    ensures
        (p.0 as int, p.1 as int) == spec_hex_entry(*d),
{
    let delta = d.direction();
    delta.xyz()
}

/// The layer-transition state machine together with the state it owns: the
/// current layer, the hex-layer entry pixel of the last hex transition, the
/// chunk parameters of the last voxel transition, the player's discretized
/// in-chunk position, and the active chunk's solidity grid.
pub struct LayerMachine {
    pub state: GameState,
    pub hex_entry: (i64, i64),
    pub chunk_id: HexId,
    pub chunk_world: WorldType,
    pub player: (i64, i64, i64),
    pub solid: Solid,
}

/// The chunk parameters (coordinate and fill policy) after one tick's batch
/// of events: those of the last voxel transition of the batch, unchanged
/// when the batch ends with no voxel transition.
pub open spec fn spec_chunk_after(
    pre_id: HexId,
    pre_world: WorldType,
    events: Seq<ChangeLayer>,
) -> (HexId, WorldType) {
    if events.len() > 0 {
        match events.last() {
            ChangeLayer::ToVoxel { id, direction, hex_type } => (id, spec_world_of(hex_type)),
            ChangeLayer::ToHex { .. } => (pre_id, pre_world),
        }
    } else {
        (pre_id, pre_world)
    }
}

impl LayerMachine {
    /// The machine's grid is a well-formed chunk grid.
    pub open spec fn wf(&self) -> bool {
        self.solid.wf()
    }

    /// A fresh machine: in the menu layer, with an empty chunk grid.
    pub fn new() -> (m: LayerMachine)
        ensures
            m.wf(),
            m.state == GameState::Menu,
            forall|x: int, y: int, z: int| !m.solid.cell(x, y, z),
    {
        LayerMachine {
            state: GameState::Menu,
            hex_entry: (0, 0),
            chunk_id: HexId::new(0, 0),
            chunk_world: WorldType::Empty,
            player: (0, 0, 0),
            solid: Solid::new(),
        }
    }

    /// Apply one tick's batch of transition events.  Only the most recent
    /// event is honored (last-wins; earlier events of the batch are dropped):
    /// a hex transition enters the hex layer at the fixed entry pixel of its
    /// direction and discards the chunk grid; a voxel transition enters the
    /// voxel layer, re-seeds and fills the chunk for its cell and terrain,
    /// and places the player at the fixed entry point of its direction.
    pub fn step(&mut self, events: &Vec<ChangeLayer>)
        requires
            old(self).wf(),
        ensures
            final(self).wf(),
            final(self).state == spec_next_state(old(self).state, events@),
            (final(self).chunk_id, final(self).chunk_world) == spec_chunk_after(
                old(self).chunk_id,
                old(self).chunk_world,
                events@,
            ),
            events@.len() == 0 ==> final(self).hex_entry == old(self).hex_entry
                && final(self).player == old(self).player
                && final(self).solid == old(self).solid,
            events@.len() > 0 ==> match events@.last() {
                ChangeLayer::ToHex { id, direction } => {
                    &&& (final(self).hex_entry.0 as int, final(self).hex_entry.1 as int)
                        == spec_hex_entry(direction)
                    &&& final(self).player == old(self).player
                    &&& forall|x: int, y: int, z: int| !final(self).solid.cell(x, y, z)
                },
                ChangeLayer::ToVoxel { id, direction, hex_type } => {
                    &&& final(self).hex_entry == old(self).hex_entry
                    &&& (final(self).player.0 as int, final(self).player.1 as int,
                    final(self).player.2 as int) == spec_pos_from_enter(direction)
                    &&& (spec_world_of(hex_type) == WorldType::Empty ==> forall|
                        x: int,
                        y: int,
                        z: int,
                    | !final(self).solid.cell(x, y, z))
                    &&& (spec_world_of(hex_type) == WorldType::Stone ==> forall|x: int, z: int|
                        0 <= x < 16 && 0 <= z < 16 ==> final(self).solid.cell(x, 0, z))
                },
            },
    {
        if events.len() == 0 {
            return ;
        }
        let last = events[events.len() - 1];
        match last {
            ChangeLayer::ToHex { id: _, direction } => {
                self.state = GameState::Hexagon;
                self.hex_entry = hex_entry_point(&direction);
                self.solid = Solid::new();
            },
            ChangeLayer::ToVoxel { id, direction, hex_type } => {
                self.state = GameState::Voxel;
                self.chunk_id = id;
                self.chunk_world = WorldType::from_hexagon(hex_type);
                self.solid.fill(id, self.chunk_world);
                let p = pos_from_enter(&direction);
                self.player = (p.0 as i64, p.1 as i64, p.2 as i64);
            },
        }
    }

    /// The transition event the voxel layer emits when the player's position
    /// has left the chunk's bounds: back to the chunk's own hex cell,
    /// arriving from the edge matching the face that was crossed.  `None`
    /// while the player is inside the bounds or the voxel layer is not
    /// active.
    pub fn exit_event(&self) -> (e: Option<ChangeLayer>)
        ensures
            e == (if self.state == GameState::Voxel {
                match spec_exit_direction(
                    self.player.0 as int,
                    self.player.1 as int,
                    self.player.2 as int,
                ) {
                    Some(d) => Some(ChangeLayer::ToHex { id: self.chunk_id, direction: d }),
                    None => None,
                }
            } else {
                None
            }),
    {
        if !matches!(self.state, GameState::Voxel) {
            return None;
        }
        match exit_direction(self.player.0, self.player.1, self.player.2) {
            Some(d) => Some(ChangeLayer::ToHex { id: self.chunk_id, direction: d }),
            None => None,
        }
    }
}

/// Law: when two voxel transitions are queued in the same tick, only the
/// second (last) one's payload determines the resulting chunk; the first is
/// dropped.
pub proof fn lemma_to_voxel_last_wins(
    pre_id: HexId,
    pre_world: WorldType,
    e1: ChangeLayer,
    e2: ChangeLayer,
)
    requires
        e1 matches ChangeLayer::ToVoxel { .. },
        e2 matches ChangeLayer::ToVoxel { .. },
    ensures
        spec_chunk_after(pre_id, pre_world, seq![e1, e2]) == spec_chunk_after(
            pre_id,
            pre_world,
            seq![e2],
        ),
        spec_next_state(GameState::Menu, seq![e1, e2]) == spec_next_state(
            GameState::Menu,
            seq![e2],
        ),
{
    assert(seq![e1, e2].last() == e2);
    assert(seq![e2].last() == e2);
}

} // verus!
