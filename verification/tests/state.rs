use hexworld::cells::{HexId, HexagonType, MapDirection};
use hexworld::state::{
    change_layer, go_to_voxel, hex_entry_point, spawn_test_grid, update_gamestate, ChangeLayer,
    GameState, HexSelect, LayerMachine, Screen,
};

#[test]
fn screens_map_to_layers() {
    assert_eq!(update_gamestate(&Screen::Splash), GameState::Menu);
    assert_eq!(update_gamestate(&Screen::Loading), GameState::Menu);
    assert_eq!(update_gamestate(&Screen::Title), GameState::Menu);
    assert_eq!(update_gamestate(&Screen::Credits), GameState::Menu);
    assert_eq!(update_gamestate(&Screen::HexMap), GameState::Hexagon);
    assert_eq!(update_gamestate(&Screen::VoxelWorld), GameState::Voxel);
}

#[test]
fn change_layer_last_event_decides() {
    let events = vec![
        ChangeLayer::ToVoxel {
            id: HexId::new(1, 1),
            direction: MapDirection::Down,
            hex_type: HexagonType::Stone,
        },
        ChangeLayer::ToHex { id: HexId::new(0, 0), direction: MapDirection::Up },
    ];
    assert_eq!(change_layer(GameState::Menu, &events), GameState::Hexagon);
    assert_eq!(change_layer(GameState::Voxel, &vec![]), GameState::Voxel);
}

#[test]
fn go_to_voxel_reads_first_matching_cell() {
    let hexes = vec![
        (HexId::new(1, 0), HexagonType::Coal),
        (HexId::new(0, 0), HexagonType::Stone),
        (HexId::new(0, 0), HexagonType::Coal),
    ];
    let cursor = HexSelect { hex_id: HexId::new(0, 0), direction: MapDirection::North };
    let e = go_to_voxel(&cursor, &hexes);
    assert_eq!(
        e,
        ChangeLayer::ToVoxel {
            id: HexId::new(0, 0),
            direction: MapDirection::North,
            hex_type: HexagonType::Stone,
        }
    );
    // A cell that is not listed counts as empty terrain.
    let lost = HexSelect { hex_id: HexId::new(9, 9), direction: MapDirection::Down };
    let e2 = go_to_voxel(&lost, &hexes);
    assert_eq!(
        e2,
        ChangeLayer::ToVoxel {
            id: HexId::new(9, 9),
            direction: MapDirection::Down,
            hex_type: HexagonType::Empty,
        }
    );
}

#[test]
fn two_to_voxel_events_last_wins() {
    let e1 = ChangeLayer::ToVoxel {
        id: HexId::new(5, 5),
        direction: MapDirection::Down,
        hex_type: HexagonType::Coal,
    };
    let e2 = ChangeLayer::ToVoxel {
        id: HexId::new(-2, 3),
        direction: MapDirection::Up,
        hex_type: HexagonType::Stone,
    };
    let mut both = LayerMachine::new();
    both.step(&vec![e1, e2]);
    let mut only_last = LayerMachine::new();
    only_last.step(&vec![e2]);
    assert_eq!(both.state, GameState::Voxel);
    assert_eq!(both.chunk_id, only_last.chunk_id);
    assert_eq!(both.chunk_world, only_last.chunk_world);
    assert_eq!(both.player, only_last.player);
    // The chunk fill is seeded by the chosen coordinate, so the grids of the
    // two machines agree cell by cell: only the second payload mattered.
    for x in 0..16 {
        for y in 0..16 {
            for z in 0..16 {
                assert_eq!(both.solid.get(x, y, z), only_last.solid.get(x, y, z));
            }
        }
    }
}

#[test]
fn end_to_end_menu_to_hex_to_voxel_and_back() {
    let mut m = LayerMachine::new();
    assert_eq!(m.state, GameState::Menu);

    // Enter the hex layer arriving from direction Up.
    m.step(&vec![ChangeLayer::ToHex { id: HexId::new(0, 0), direction: MapDirection::Up }]);
    assert_eq!(m.state, GameState::Hexagon);
    assert_eq!(m.hex_entry, hex_entry_point(&MapDirection::Up));
    assert_eq!(m.hex_entry, (0, 5675600));

    // Enter the voxel layer of cell (0, 0) with stone terrain, arriving from
    // direction Down.
    m.step(&vec![ChangeLayer::ToVoxel {
        id: HexId::new(0, 0),
        direction: MapDirection::Down,
        hex_type: HexagonType::Stone,
    }]);
    assert_eq!(m.state, GameState::Voxel);
    assert_eq!(m.player, (8, 0, 8));
    for x in 0..16 {
        for z in 0..16 {
            assert!(m.solid.get(x, 0, z));
        }
    }
    assert_eq!(m.exit_event(), None);

    // The player falls below the chunk: the next tick emits a transition back
    // to the chunk's own hex cell.
    m.player = (8, -3, 8);
    let e = m.exit_event();
    assert_eq!(
        e,
        Some(ChangeLayer::ToHex { id: HexId::new(0, 0), direction: MapDirection::Up })
    );
    m.step(&vec![e.unwrap()]);
    assert_eq!(m.state, GameState::Hexagon);
}

#[test]
fn empty_batch_changes_nothing() {
    let mut m = LayerMachine::new();
    m.step(&vec![ChangeLayer::ToVoxel {
        id: HexId::new(4, 4),
        direction: MapDirection::West,
        hex_type: HexagonType::Stone,
    }]);
    let state = m.state;
    let player = m.player;
    m.step(&vec![]);
    assert_eq!(m.state, state);
    assert_eq!(m.player, player);
}

#[test]
fn test_grid_follows_the_spiral() {
    let grid = spawn_test_grid();
    assert_eq!(grid.len(), 331);
    assert_eq!(grid[0].0, HexId::new(0, 0));
    assert_eq!(grid[1].0, HexId::new(-1, 1));
    // Every coordinate lies within the spiral's radius.
    for (c, _) in &grid {
        let dist = c.q().abs().max(c.r().abs()).max((c.q() + c.r()).abs());
        assert!(dist <= 10);
    }
    // The tag draws happen: about a tenth of 331 cells come out non-empty,
    // so an all-empty grid means the draws were never made.
    assert!(grid.iter().any(|(_, t)| *t != HexagonType::Empty));
    assert!(grid.iter().any(|(_, t)| *t == HexagonType::Empty));
}

#[test]
fn hex_entry_points_per_direction() {
    // The entry pixel is the neighbor cell's pixel position: just inside the
    // edge that was crossed.
    assert_eq!(hex_entry_point(&MapDirection::Down), (0, -5675600));
    assert_eq!(hex_entry_point(&MapDirection::Up), (0, 5675600));
    assert_eq!(hex_entry_point(&MapDirection::North), (4915200, 2837800));
    assert_eq!(hex_entry_point(&MapDirection::South), (-4915200, -2837800));
}
