use hexworld::cells::{HexId, MapDirection};
use hexworld::voxel::{exit_direction, pos_from_enter, BlockType, Solid, WorldType};

#[test]
fn get_outside_bounds_is_not_solid() {
    let mut s = Solid::new();
    s.fill(HexId::new(0, 0), WorldType::Stone);
    assert_eq!(s.get(-1, 0, 0), false);
    assert_eq!(s.get(16, 0, 0), false);
    assert_eq!(s.get(0, -1, 0), false);
    assert_eq!(s.get(0, 16, 0), false);
    assert_eq!(s.get(0, 0, -1), false);
    assert_eq!(s.get(0, 0, 16), false);
    assert_eq!(s.get(i32::MIN, 0, 0), false);
    assert_eq!(s.get(0, i32::MAX, 0), false);
}

#[test]
fn fill_empty_leaves_every_cell_false() {
    let mut s = Solid::new();
    s.fill(HexId::new(0, 0), WorldType::Stone);
    s.fill(HexId::new(3, -4), WorldType::Empty);
    for x in 0..16 {
        for y in 0..16 {
            for z in 0..16 {
                assert!(!s.get(x, y, z));
            }
        }
    }
}

#[test]
fn fill_stone_guarantees_solid_floor() {
    let mut s = Solid::new();
    s.fill(HexId::new(7, -3), WorldType::Stone);
    for x in 0..16 {
        for z in 0..16 {
            assert!(s.get(x, 0, z));
        }
    }
}

#[test]
fn fill_coal_floor_is_solid_under_the_stated_rule() {
    // The coal sampling rule makes a floor cell air only when the air draw
    // succeeds and y != 0, so the floor row always comes out solid even
    // though no floor guarantee is stated for coal terrain.
    let mut s = Solid::new();
    s.fill(HexId::new(1, 1), WorldType::Coal);
    for x in 0..16 {
        for z in 0..16 {
            assert!(s.get(x, 0, z));
        }
    }
}

#[test]
fn fill_stone_has_air_and_solid_above_floor() {
    // Above the floor, stone terrain is drawn cell by cell; with 3840 draws
    // at probability 0.6 both outcomes occur.
    let mut s = Solid::new();
    s.fill(HexId::new(0, 0), WorldType::Stone);
    let mut any_air = false;
    let mut any_solid = false;
    for x in 0..16 {
        for y in 1..16 {
            for z in 0..16 {
                if s.get(x, y, z) {
                    any_solid = true;
                } else {
                    any_air = true;
                }
            }
        }
    }
    assert!(any_air);
    assert!(any_solid);
}

#[test]
fn fill_is_deterministic_per_coordinate() {
    let mut a = Solid::new();
    let mut b = Solid::new();
    a.fill(HexId::new(2, -9), WorldType::Coal);
    b.fill(HexId::new(2, -9), WorldType::Coal);
    for x in 0..16 {
        for y in 0..16 {
            for z in 0..16 {
                assert_eq!(a.get(x, y, z), b.get(x, y, z));
            }
        }
    }
}

#[test]
fn gravity_falls_only_above_air() {
    let mut s = Solid::new();
    s.fill(HexId::new(0, 0), WorldType::Stone);
    // Standing on the guaranteed floor row: no fall.
    assert!(!s.falls(5, 1, 5));
    // Below the chunk everything is air: fall.
    assert!(s.falls(5, -5, 5));
    // An empty chunk gives way everywhere.
    s.fill(HexId::new(0, 0), WorldType::Empty);
    assert!(s.falls(5, 1, 5));
}

#[test]
fn block_solidity_by_kind() {
    assert!(!BlockType::Air.is_solid());
    assert!(BlockType::Stone.is_solid());
    assert!(BlockType::Coal.is_solid());
}

#[test]
fn block_texture_paths() {
    assert_eq!(BlockType::Air.texture_path(), "");
    assert_eq!(BlockType::Stone.texture_path(), "images/voxels/stone.png");
    assert_eq!(BlockType::Coal.texture_path(), "images/voxels/coal.png");
}

#[test]
fn world_type_from_tags() {
    assert_eq!(WorldType::from_u8(0), WorldType::Empty);
    assert_eq!(WorldType::from_u8(1), WorldType::Stone);
    assert_eq!(WorldType::from_u8(2), WorldType::Coal);
}

#[test]
fn entry_positions_per_direction() {
    assert_eq!(pos_from_enter(&MapDirection::Down), (8, 0, 8));
    assert_eq!(pos_from_enter(&MapDirection::East), (16, 8, 8));
    assert_eq!(pos_from_enter(&MapDirection::North), (8, 8, 16));
    assert_eq!(pos_from_enter(&MapDirection::Up), (8, 16, 8));
    assert_eq!(pos_from_enter(&MapDirection::West), (0, 8, 8));
    assert_eq!(pos_from_enter(&MapDirection::South), (8, 8, 0));
}

#[test]
fn exit_directions_per_face() {
    assert_eq!(exit_direction(8, 8, 8), None);
    assert_eq!(exit_direction(8, -3, 8), Some(MapDirection::Up));
    assert_eq!(exit_direction(8, 19, 8), Some(MapDirection::Down));
    assert_eq!(exit_direction(-3, 8, 8), Some(MapDirection::West));
    assert_eq!(exit_direction(19, 8, 8), Some(MapDirection::East));
    assert_eq!(exit_direction(8, 8, -3), Some(MapDirection::South));
    assert_eq!(exit_direction(8, 8, 19), Some(MapDirection::North));
    // The 2-unit margin itself is still inside.
    assert_eq!(exit_direction(-2, 18, -2), None);
}
