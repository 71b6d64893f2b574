use hexworld::inventory::Inventory;
use hexworld::voxel::BlockType;

#[test]
fn new_inventory_is_empty() {
    let inv = Inventory::new(4);
    assert_eq!(inv.slots.len(), 4);
    for slot in &inv.slots {
        assert!(slot.resource_type.is_none());
        assert_eq!(slot.quantity, 0);
    }
    assert_eq!(Inventory::new(0).slots.len(), 0);
}

#[test]
fn add_resource_uses_first_free_or_matching_slot() {
    let mut inv = Inventory::new(3);
    inv.add_resource(BlockType::Stone, 5);
    assert_eq!(inv.slots[0].resource_type, Some(BlockType::Stone));
    assert_eq!(inv.slots[0].quantity, 5);

    // The same kind stacks into the existing slot.
    inv.add_resource(BlockType::Stone, 2);
    assert_eq!(inv.slots[0].quantity, 7);

    // Another kind takes the next free slot.
    inv.add_resource(BlockType::Coal, 3);
    assert_eq!(inv.slots[1].resource_type, Some(BlockType::Coal));
    assert_eq!(inv.slots[1].quantity, 3);
}

#[test]
fn add_resource_into_full_inventory_changes_nothing() {
    let mut inv = Inventory::new(1);
    inv.add_resource(BlockType::Stone, 5);
    inv.add_resource(BlockType::Coal, 3);
    assert_eq!(inv.slots[0].resource_type, Some(BlockType::Stone));
    assert_eq!(inv.slots[0].quantity, 5);
    assert_eq!(inv.get_total_resource(BlockType::Coal), 0);
}

#[test]
fn totals_sum_across_slots() {
    let mut inv = Inventory::new(3);
    inv.add_resource(BlockType::Stone, 5);
    inv.add_resource(BlockType::Coal, 3);
    // More stone stacks into the existing stone slot.
    inv.add_resource(BlockType::Stone, 4);
    assert_eq!(inv.get_total_resource(BlockType::Stone), 9);
    assert_eq!(inv.get_total_resource(BlockType::Coal), 3);
    assert_eq!(inv.get_total_resource(BlockType::Air), 0);
}

#[test]
fn check_and_deduct_succeeds_when_covered() {
    let mut inv = Inventory::new(3);
    inv.add_resource(BlockType::Stone, 10);
    inv.add_resource(BlockType::Coal, 4);
    let ok = inv.check_and_deduct_resources(&vec![(BlockType::Stone, 7), (BlockType::Coal, 4)]);
    assert!(ok);
    assert_eq!(inv.get_total_resource(BlockType::Stone), 3);
    assert_eq!(inv.get_total_resource(BlockType::Coal), 0);
    // The coal slot drained to zero was freed.
    assert!(inv.slots.iter().all(|s| s.resource_type != Some(BlockType::Coal)));
}

#[test]
fn check_and_deduct_fails_without_deducting() {
    let mut inv = Inventory::new(3);
    inv.add_resource(BlockType::Stone, 10);
    let ok = inv.check_and_deduct_resources(&vec![(BlockType::Stone, 7), (BlockType::Coal, 1)]);
    assert!(!ok);
    assert_eq!(inv.get_total_resource(BlockType::Stone), 10);
}

#[test]
fn deduction_spans_multiple_slots() {
    let mut inv = Inventory::new(3);
    // Two stone slots: 6 in the first, 4 in the second.
    inv.add_resource(BlockType::Stone, 6);
    inv.add_resource(BlockType::Coal, 1);
    inv.slots[2].resource_type = Some(BlockType::Stone);
    inv.slots[2].quantity = 4;
    let ok = inv.check_and_deduct_resources(&vec![(BlockType::Stone, 8)]);
    assert!(ok);
    assert_eq!(inv.get_total_resource(BlockType::Stone), 2);
    // The first slot was drained and freed; the rest came from the second.
    assert!(inv.slots[0].resource_type.is_none());
    assert_eq!(inv.slots[2].quantity, 2);
    assert_eq!(inv.get_total_resource(BlockType::Coal), 1);
}
