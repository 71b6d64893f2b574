use hexworld::cells::{HexId, MapDirection};

#[test]
fn next_six_times_is_identity() {
    let all = [
        MapDirection::Down,
        MapDirection::East,
        MapDirection::North,
        MapDirection::Up,
        MapDirection::West,
        MapDirection::South,
    ];
    for d in all {
        let mut cur = d;
        for _ in 0..6 {
            cur = cur.next();
        }
        assert_eq!(cur, d);
    }
}

#[test]
fn direction_deltas_match_table() {
    assert_eq!(MapDirection::Down.direction(), HexId::new(0, -1));
    assert_eq!(MapDirection::East.direction(), HexId::new(1, -1));
    assert_eq!(MapDirection::North.direction(), HexId::new(1, 0));
    assert_eq!(MapDirection::Up.direction(), HexId::new(0, 1));
    assert_eq!(MapDirection::West.direction(), HexId::new(-1, 1));
    assert_eq!(MapDirection::South.direction(), HexId::new(-1, 0));
}

#[test]
fn direction_deltas_are_distinct() {
    let all = [
        MapDirection::Down,
        MapDirection::East,
        MapDirection::North,
        MapDirection::Up,
        MapDirection::West,
        MapDirection::South,
    ];
    for i in 0..6 {
        for j in 0..6 {
            if i != j {
                assert_ne!(all[i].direction(), all[j].direction());
            }
        }
    }
}

#[test]
fn angles_in_pi_thirds() {
    assert_eq!(MapDirection::Down.angle(), -3);
    assert_eq!(MapDirection::East.angle(), -2);
    assert_eq!(MapDirection::North.angle(), -1);
    assert_eq!(MapDirection::Up.angle(), 0);
    assert_eq!(MapDirection::West.angle(), 1);
    assert_eq!(MapDirection::South.angle(), 2);
}

#[test]
fn index_round_trips() {
    for i in 0..6u8 {
        assert_eq!(MapDirection::from_index(i).index(), i);
    }
}

#[test]
fn coordinate_arithmetic() {
    let a = HexId::new(3, -5);
    assert_eq!(a.q(), 3);
    assert_eq!(a.r(), -5);
    assert_eq!(a.s(), 2);
    assert_eq!(a.q() + a.r() + a.s(), 0);
    let b = a.add(HexId::new(-1, 2));
    assert_eq!(b, HexId::new(2, -3));
    let c = a.add_direction(MapDirection::East);
    assert_eq!(c, HexId::new(4, -6));
}
