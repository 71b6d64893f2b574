use hexworld::cells::{HexId, MapDirection};
use hexworld::cursor::closest_direction;

#[test]
fn closest_direction_finds_each_neighbor_midpoint() {
    let id = HexId::new(0, 0);
    let all = [
        MapDirection::Down,
        MapDirection::East,
        MapDirection::North,
        MapDirection::Up,
        MapDirection::West,
        MapDirection::South,
    ];
    for d in all {
        // Half the neighbor's pixel position is the midpoint the search
        // measures against; standing exactly there selects that direction.
        let neighbor = HexId::new(0, 0).add(d.direction());
        let (nx, ny) = neighbor.xyz();
        assert_eq!(closest_direction(id, nx / 2, ny / 2), d);
    }
}

#[test]
fn closest_direction_ties_keep_the_first() {
    // The point (2457600, 0) is exactly equidistant from the East midpoint
    // (2457600, -1418900) and the North midpoint (2457600, 1418900); the
    // strictly-less comparison keeps the earlier direction, East.
    assert_eq!(closest_direction(HexId::new(0, 0), 2457600, 0), MapDirection::East);
}

#[test]
fn closest_direction_away_from_origin() {
    let id = HexId::new(3, -2);
    let target = id.add(MapDirection::West.direction());
    let (tx, ty) = target.xyz();
    assert_eq!(closest_direction(id, tx / 2, ty / 2), MapDirection::West);
}
