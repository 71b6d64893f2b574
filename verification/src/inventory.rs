use vstd::prelude::*;
use crate::voxel::BlockType;

verus! {

/// One inventory slot: an optional resource kind and the held quantity.
#[derive(Debug, Clone, Copy)]
pub struct InventorySlot {
    pub resource_type: Option<BlockType>,
    pub quantity: u32,
}

/// Total quantity of resource `t` held across a sequence of slots.
pub open spec fn spec_total(slots: Seq<InventorySlot>, t: BlockType) -> int
    decreases slots.len(),
{
    if slots.len() == 0 {
        0
    } else {
        (if slots[0].resource_type == Some(t) {
            slots[0].quantity as int
        } else {
            0
        }) + spec_total(slots.drop_first(), t)
    }
}

/// Index of the first slot that already holds resource `t` or is free.
pub open spec fn spec_find_slot(slots: Seq<InventorySlot>, t: BlockType) -> Option<int>
    decreases slots.len(),
{
    if slots.len() == 0 {
        None
    } else if slots[0].resource_type == Some(t) || slots[0].resource_type is None {
        Some(0)
    } else {
        match spec_find_slot(slots.drop_first(), t) {
            Some(k) => Some(k + 1),
            None => None,
        }
    }
}

/// No two requirements name the same resource kind.
pub open spec fn distinct_types(reqs: Seq<(BlockType, u32)>) -> bool {
    forall|i: int, j: int| 0 <= i < j < reqs.len() ==> reqs[i].0 != reqs[j].0
}

/// A total over slots is never negative.
proof fn lemma_total_nonneg(slots: Seq<InventorySlot>, t: BlockType)
    ensures
        spec_total(slots, t) >= 0,
    decreases slots.len(),
{
    if slots.len() > 0 {
        lemma_total_nonneg(slots.drop_first(), t);
    }
}

/// Splitting a total at position `i`: the suffix total from `i` is the
/// contribution of slot `i` plus the suffix total from `i + 1`.
proof fn lemma_total_skip(slots: Seq<InventorySlot>, i: int, t: BlockType)
    requires
        0 <= i < slots.len(),
    ensures
        spec_total(slots.skip(i), t) == (if slots[i].resource_type == Some(t) {
            slots[i].quantity as int
        } else {
            0
        }) + spec_total(slots.skip(i + 1), t),
{
    assert(slots.skip(i).drop_first() =~= slots.skip(i + 1));
    assert(slots.skip(i)[0] == slots[i]);
}

/// Replacing slot `k` changes a total by exactly the difference of the old
/// and new contributions of that slot.
proof fn lemma_total_update(slots: Seq<InventorySlot>, k: int, v: InventorySlot, t: BlockType)
    requires
        0 <= k < slots.len(),
    ensures
        spec_total(slots.update(k, v), t) == spec_total(slots, t) - (if slots[k].resource_type
            == Some(t) {
            slots[k].quantity as int
        } else {
            0
        }) + (if v.resource_type == Some(t) {
            v.quantity as int
        } else {
            0
        }),
    decreases slots.len(),
{
    if k == 0 {
        assert(slots.update(0, v).drop_first() =~= slots.drop_first());
    } else {
        assert(slots.update(k, v).drop_first() =~= slots.drop_first().update(k - 1, v));
        lemma_total_update(slots.drop_first(), k - 1, v, t);
    }
}

/// The slot inventory of the voxel-world player: a fixed number of slots,
/// each holding a quantity of one resource kind.
pub struct Inventory {
    pub slots: Vec<InventorySlot>,
}

impl Inventory {
    /// A fresh inventory of `size` free slots.
    pub fn new(size: usize) -> (inv: Inventory)
        ensures
            inv.slots@.len() == size,
            forall|i: int|
                0 <= i < size ==> inv.slots@[i].resource_type is None && inv.slots@[i].quantity
                    == 0,
    {
        Inventory { slots: vec![InventorySlot { resource_type: None, quantity: 0 }; size] }
    }

    /// Add `quantity` of a resource into the first slot that already holds
    /// that resource or is free; when every slot holds another resource, the
    /// inventory is full and stays unchanged.
    pub fn add_resource(&mut self, resource_type: BlockType, quantity: u32)
        requires
            forall|i: int|
                0 <= i < old(self).slots@.len() ==> old(self).slots@[i].quantity + quantity
                    <= u32::MAX,
        ensures
            match spec_find_slot(old(self).slots@, resource_type) {
                Some(k) => final(self).slots@ == old(self).slots@.update(
                    k,
                    (InventorySlot {
                        resource_type: Some(resource_type),
                        quantity: (old(self).slots@[k].quantity + quantity) as u32,
                    }),
                ),
                None => final(self).slots@ == old(self).slots@,
            },
    {
        let ghost orig = self.slots@;
        let mut i: usize = 0;
        proof {
            assert(orig.skip(0) =~= orig);
        }
        loop
            invariant_except_break
                0 <= i <= orig.len(),
                orig == old(self).slots@,
                self.slots@ == orig,
                forall|j: int|
                    0 <= j < orig.len() ==> #[trigger] orig[j].quantity + quantity <= u32::MAX,
                match spec_find_slot(orig.skip(i as int), resource_type) {
                    Some(k) => spec_find_slot(orig, resource_type) == Some(k + i),
                    None => spec_find_slot(orig, resource_type) is None,
                },
            ensures
                match spec_find_slot(orig, resource_type) {
                    Some(k) => self.slots@ == orig.update(
                        k,
                        (InventorySlot {
                            resource_type: Some(resource_type),
                            quantity: (orig[k].quantity + quantity) as u32,
                        }),
                    ),
                    None => self.slots@ == orig,
                },
            decreases orig.len() - i,
        {
            if i >= self.slots.len() {
                proof {
                    assert(orig.skip(i as int).len() == 0);
                }
                break ;
            }
            let slot = self.slots[i];
            let matches_kind = match slot.resource_type {
                Some(k) => {
                    let eq = match (k, resource_type) {
                        (BlockType::Air, BlockType::Air) => true,
                        (BlockType::Stone, BlockType::Stone) => true,
                        (BlockType::Coal, BlockType::Coal) => true,
                        _ => false,
                    };
                    eq
                },
                None => true,
            };
            proof {
                assert(orig.skip(i as int)[0] == slot);
            }
            if matches_kind {
                let updated = InventorySlot {
                    resource_type: Some(resource_type),
                    quantity: slot.quantity + quantity,
                };
                self.slots[i] = updated;
                proof {
                    assert(self.slots@ =~= orig.update(i as int, updated));
                }
                break ;
            }
            proof {
                assert(orig.skip(i as int).drop_first() =~= orig.skip(i as int + 1));
            }
            i = i + 1;
        }
    }

    /// Total quantity of a resource held across all slots.
    pub fn get_total_resource(&self, resource_type: BlockType) -> (total: u32)
        requires
            spec_total(self.slots@, resource_type) <= u32::MAX,
        ensures
            total == spec_total(self.slots@, resource_type),
    {
        let ghost all = self.slots@;
        let mut total: u32 = 0;
        let mut i: usize = 0;
        proof {
            assert(all.skip(0) =~= all);
            lemma_total_nonneg(all, resource_type);
        }
        while i < self.slots.len()
            invariant
                0 <= i <= all.len(),
                self.slots@ == all,
                spec_total(all, resource_type) <= u32::MAX,
                total + spec_total(all.skip(i as int), resource_type) == spec_total(
                    all,
                    resource_type,
                ),
                total <= spec_total(all, resource_type),
            decreases all.len() - i,
        {
            let slot = self.slots[i];
            proof {
                lemma_total_skip(all, i as int, resource_type);
                lemma_total_nonneg(all.skip(i as int + 1), resource_type);
            }
            let held = match slot.resource_type {
                Some(k) => {
                    let eq = match (k, resource_type) {
                        (BlockType::Air, BlockType::Air) => true,
                        (BlockType::Stone, BlockType::Stone) => true,
                        (BlockType::Coal, BlockType::Coal) => true,
                        _ => false,
                    };
                    if eq {
                        slot.quantity
                    } else {
                        0
                    }
                },
                None => 0,
            };
            total = total + held;
            i = i + 1;
        }
        proof {
            assert(all.skip(all.len() as int).len() == 0);
        }
        total
    }

    /// Remove up to `amount` of resource `t`, walking the slots in order and
    /// draining each matching slot until the amount is covered; a slot
    /// drained to zero is freed.  When less than `amount` is held, everything
    /// held is removed.
    fn deduct(&mut self, t: BlockType, amount: u32)
        ensures
            final(self).slots@.len() == old(self).slots@.len(),
            spec_total(final(self).slots@, t) == (if spec_total(old(self).slots@, t) >= amount {
                spec_total(old(self).slots@, t) - amount
            } else {
                0
            }),
            forall|u: BlockType|
                u != t ==> spec_total(final(self).slots@, u) == spec_total(old(self).slots@, u),
    {
        let ghost orig = self.slots@;
        let ghost t0 = spec_total(orig, t);
        let mut remaining = amount;
        let mut i: usize = 0;
        proof {
            assert(orig.skip(0) =~= orig);
            lemma_total_nonneg(orig, t);
        }
        loop
            invariant_except_break
                0 <= i <= orig.len(),
                self.slots@.len() == orig.len(),
                0 <= remaining <= amount,
                self.slots@.skip(i as int) == orig.skip(i as int),
                spec_total(self.slots@, t) == spec_total(self.slots@.skip(i as int), t),
                amount - remaining + spec_total(self.slots@, t) == t0,
                forall|u: BlockType| u != t ==> spec_total(self.slots@, u) == spec_total(orig, u),
            ensures
                self.slots@.len() == orig.len(),
                spec_total(self.slots@, t) == (if t0 >= amount {
                    t0 - amount
                } else {
                    0
                }),
                forall|u: BlockType| u != t ==> spec_total(self.slots@, u) == spec_total(orig, u),
            decreases orig.len() - i,
        {
            if i >= self.slots.len() {
                proof {
                    assert(self.slots@.skip(i as int).len() == 0);
                }
                break ;
            }
            let slot = self.slots[i];
            let is_t = match slot.resource_type {
                Some(k) => {
                    let eq = match (k, t) {
                        (BlockType::Air, BlockType::Air) => true,
                        (BlockType::Stone, BlockType::Stone) => true,
                        (BlockType::Coal, BlockType::Coal) => true,
                        _ => false,
                    };
                    eq
                },
                None => false,
            };
            proof {
                lemma_total_skip(self.slots@, i as int, t);
                lemma_total_nonneg(self.slots@.skip(i as int + 1), t);
            }
            if is_t {
                if slot.quantity >= remaining {
                    let updated = InventorySlot {
                        resource_type: if slot.quantity == remaining {
                            None
                        } else {
                            Some(t)
                        },
                        quantity: slot.quantity - remaining,
                    };
                    let ghost pre = self.slots@;
                    self.slots[i] = updated;
                    proof {
                        assert(self.slots@ == pre.update(i as int, updated));
                        lemma_total_update(pre, i as int, updated, t);
                        assert forall|u: BlockType| u != t implies spec_total(self.slots@, u)
                            == spec_total(orig, u) by {
                            lemma_total_update(pre, i as int, updated, u);
                        }
                        lemma_total_nonneg(pre, t);
                    }
                    break ;
                } else {
                    let drained = slot.quantity;
                    let updated = InventorySlot { resource_type: None, quantity: 0 };
                    let ghost pre = self.slots@;
                    self.slots[i] = updated;
                    remaining = remaining - drained;
                    proof {
                        assert(self.slots@ == pre.update(i as int, updated));
                        lemma_total_update(pre, i as int, updated, t);
                        assert forall|u: BlockType| u != t implies spec_total(self.slots@, u)
                            == spec_total(orig, u) by {
                            lemma_total_update(pre, i as int, updated, u);
                        }
                        assert(self.slots@.skip(i as int + 1) =~= pre.skip(i as int + 1));
                        assert forall|m: int|
                            0 <= m < pre.skip(i as int + 1).len() implies #[trigger] pre.skip(
                            i as int + 1,
                        )[m] == orig.skip(i as int + 1)[m] by {
                            assert(pre.skip(i as int)[m + 1] == orig.skip(i as int)[m + 1]);
                        }
                        assert(pre.skip(i as int + 1) =~= orig.skip(i as int + 1));
                        lemma_total_skip(self.slots@, i as int, t);
                        assert(self.slots@.skip(i as int)[0] == updated);
                    }
                    i = i + 1;
                }
            } else {
                proof {
                    assert forall|m: int|
                        0 <= m < self.slots@.skip(i as int + 1).len() implies #[trigger] self.slots@.skip(
                        i as int + 1,
                    )[m] == orig.skip(i as int + 1)[m] by {
                        assert(self.slots@.skip(i as int)[m + 1] == orig.skip(i as int)[m + 1]);
                    }
                    assert(self.slots@.skip(i as int + 1) =~= orig.skip(i as int + 1));
                }
                i = i + 1;
            }
        }
    }

    /// Check whether the inventory holds every required amount; when it
    /// does, deduct them (walking the slots greedily for each requirement in
    /// order) and return true, else leave the inventory unchanged and return
    /// false.  When the required kinds are pairwise distinct, each total
    /// drops by exactly the required amount; kinds not required are never
    /// touched.
    pub fn check_and_deduct_resources(&mut self, requirements: &Vec<(BlockType, u32)>) -> (ok:
        bool)
        requires
            forall|u: BlockType| spec_total(old(self).slots@, u) <= u32::MAX,
        ensures
            ok == (forall|i: int|
                0 <= i < requirements@.len() ==> spec_total(old(self).slots@, requirements@[i].0)
                    >= requirements@[i].1),
            !ok ==> final(self).slots@ == old(self).slots@,
            ok && distinct_types(requirements@) ==> forall|i: int|
                0 <= i < requirements@.len() ==> spec_total(
                    final(self).slots@,
                    #[trigger] requirements@[i].0,
                ) == spec_total(old(self).slots@, requirements@[i].0) - requirements@[i].1,
            forall|u: BlockType|
                (forall|i: int| 0 <= i < requirements@.len() ==> requirements@[i].0 != u)
                    ==> spec_total(final(self).slots@, u) == spec_total(old(self).slots@, u),
    {
        let ghost orig = self.slots@;
        // First pass: check that every requirement is covered.
        let mut i: usize = 0;
        while i < requirements.len()
            invariant
                0 <= i <= requirements@.len(),
                self.slots@ == orig,
                forall|u: BlockType| spec_total(orig, u) <= u32::MAX,
                forall|j: int|
                    0 <= j < i ==> spec_total(orig, #[trigger] requirements@[j].0)
                        >= requirements@[j].1,
            decreases requirements@.len() - i,
        {
            let req = requirements[i];
            proof {
                lemma_total_nonneg(orig, req.0);
            }
            if self.get_total_resource(req.0) < req.1 {
                return false;
            }
            i = i + 1;
        }
        // Second pass: deduct each requirement in order.
        let mut j: usize = 0;
        while j < requirements.len()
            invariant
                0 <= j <= requirements@.len(),
                self.slots@.len() == orig.len(),
                forall|k: int|
                    0 <= k < requirements@.len() ==> spec_total(orig, #[trigger] requirements@[k].0)
                        >= requirements@[k].1,
                forall|u: BlockType|
                    (forall|k: int| 0 <= k < j ==> requirements@[k].0 != u) ==> spec_total(
                        self.slots@,
                        u,
                    ) == spec_total(orig, u),
                distinct_types(requirements@) ==> forall|k: int|
                    0 <= k < j ==> spec_total(self.slots@, #[trigger] requirements@[k].0)
                        == spec_total(orig, requirements@[k].0) - requirements@[k].1,
            decreases requirements@.len() - j,
        {
            let req = requirements[j];
            let ghost before = self.slots@;
            self.deduct(req.0, req.1);
            proof {
                if distinct_types(requirements@) {
                    assert(spec_total(before, req.0) == spec_total(orig, req.0));
                    assert(spec_total(before, req.0) >= req.1);
                }
            }
            j = j + 1;
        }
        true
    }
}

} // verus!
