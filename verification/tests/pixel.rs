use hexworld::cells::HexId;
use hexworld::pixel::FP_ONE;

#[test]
fn round_is_identity_on_lattice_points() {
    for q in -20i64..=20 {
        for r in -20i64..=20 {
            let c = HexId::round(q * FP_ONE, r * FP_ONE);
            assert_eq!(c, HexId::new(q as i32, r as i32));
        }
    }
}

#[test]
fn round_snaps_small_errors() {
    // A third of a pixel of error on the r component still rounds back.
    let e = FP_ONE / 3;
    let c = HexId::round(4 * FP_ONE, -2 * FP_ONE + e);
    assert_eq!(c, HexId::new(4, -2));
    let c2 = HexId::round(4 * FP_ONE, -2 * FP_ONE - e);
    assert_eq!(c2, HexId::new(4, -2));
}

#[test]
fn pixel_round_trip_near_origin() {
    for q in -25i32..=25 {
        for r in -25i32..=25 {
            let c = HexId::new(q, r);
            let (x, y) = c.xyz();
            assert_eq!(HexId::from_xyz(x, y), c);
        }
    }
}

#[test]
fn pixel_positions_scale_with_spacing() {
    let c = HexId::new(1, 0);
    let (x, y) = c.xyz();
    // q * 1.5 * 50 pixels, in fixed point.
    assert_eq!(x, 75 * FP_ONE);
    // q * sqrt(3)/2 * 50 pixels, in fixed point.
    assert_eq!(y, 56756 * 50);
    let origin = HexId::new(0, 0);
    assert_eq!(origin.xyz(), (0, 0));
}

#[test]
fn unit_projection_values() {
    let c = HexId::new(2, -1);
    assert_eq!(c.x(), 2 * 98304);
    assert_eq!(c.y(), 2 * 56756 - 113512);
}
