use std::collections::HashSet;

use hexworld::cells::HexId;
use hexworld::iterators::{FastFill, Offset, Ranged, RingIter, SpiralIter, WithOffset};

fn count<T: Ranged>(mut it: T) -> usize {
    let mut n = 0;
    while it.next().is_some() {
        n += 1;
    }
    n
}

fn collect<T: Ranged>(mut it: T) -> Vec<HexId> {
    let mut v = Vec::new();
    while let Some(c) = it.next() {
        v.push(c);
    }
    v
}

#[test]
fn range_test() {
    let range_0 = count(FastFill::new(0));
    assert_eq!(range_0, 1);
    let range_1 = count(FastFill::new(1));
    assert_eq!(range_1, 7);
    let range_2 = count(FastFill::new(2));
    assert_eq!(range_2, 19);
    let range_3 = count(FastFill::new(3));
    assert_eq!(range_3, 37);

    let ring_1 = count(RingIter::new(1));
    assert_eq!(ring_1, 6);
    let ring_2 = count(RingIter::new(2));
    assert_eq!(ring_2, 12);
    let ring_3 = count(RingIter::new(3));
    assert_eq!(ring_3, 18);

    let all_in_3: HashSet<HexId> = collect(SpiralIter::new(3)).into_iter().collect();
    let fill_3: HashSet<HexId> = collect(FastFill::new(3)).into_iter().collect();
    assert_eq!(all_in_3, fill_3);
}

#[test]
fn range_counts_up_to_five() {
    for n in 0..=5u32 {
        let expected = (3 * n * n + 3 * n + 1) as usize;
        assert_eq!(count(FastFill::new(n)), expected);
        assert_eq!(count(SpiralIter::new(n)), expected);
    }
}

#[test]
fn ring_counts_up_to_five() {
    assert_eq!(count(RingIter::new(0)), 1);
    for n in 1..=5u32 {
        assert_eq!(count(RingIter::new(n)), (6 * n) as usize);
    }
}

#[test]
fn spiral_set_equals_range_set_up_to_five() {
    for n in 0..=5u32 {
        let spiral: HashSet<HexId> = collect(SpiralIter::new(n)).into_iter().collect();
        let range: HashSet<HexId> = collect(FastFill::new(n)).into_iter().collect();
        assert_eq!(spiral, range);
    }
}

#[test]
fn ring_walk_order() {
    // Ring 1 starts at (-1, 1) and walks the six directions in order,
    // one step per side.
    let cells = collect(RingIter::new(1));
    assert_eq!(
        cells,
        vec![
            HexId::new(-1, 1),
            HexId::new(-1, 0),
            HexId::new(0, -1),
            HexId::new(1, -1),
            HexId::new(1, 0),
            HexId::new(0, 1),
        ]
    );
}

#[test]
fn ring_zero_is_origin() {
    assert_eq!(collect(RingIter::new(0)), vec![HexId::new(0, 0)]);
}

#[test]
fn range_order_is_column_by_column() {
    let cells = collect(FastFill::new(1));
    assert_eq!(
        cells,
        vec![
            HexId::new(-1, 0),
            HexId::new(-1, 1),
            HexId::new(0, -1),
            HexId::new(0, 0),
            HexId::new(0, 1),
            HexId::new(1, -1),
            HexId::new(1, 0),
        ]
    );
}

#[test]
fn spiral_order_is_ring_by_ring() {
    let cells = collect(SpiralIter::new(1));
    assert_eq!(cells[0], HexId::new(0, 0));
    assert_eq!(cells[1], HexId::new(-1, 1));
    assert_eq!(cells.len(), 7);
}

#[test]
fn offset_translates_every_cell() {
    let base = HexId::new(5, -7);
    let plain = collect(RingIter::new(2));
    let mut shifted: Offset<RingIter> = RingIter::new(2).with_offset(base);
    let mut n = 0;
    while let Some(c) = shifted.next() {
        assert_eq!(c, plain[n].add(base));
        n += 1;
    }
    assert_eq!(n, plain.len());
}

#[test]
fn in_range_matches_new() {
    assert_eq!(collect(RingIter::in_range(2)), collect(RingIter::new(2)));
    assert_eq!(collect(SpiralIter::in_range(2)), collect(SpiralIter::new(2)));
    assert_eq!(collect(FastFill::in_range(2)), collect(FastFill::new(2)));
}
