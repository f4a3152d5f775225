//! Patching entries of function tables, and putting them back.

use vstd::prelude::*;

verus! {

/// Bytes of a table entry.
pub const ENTRY_BYTES: u64 = 8;

/// Bytes of a memory page.
pub const PAGE_BYTES: u64 = 4096;

/// Address of the page that holds entry `index` of the table at `table`.
pub fn slot_page(table: u64, index: u64) -> (page: u64)
    requires
        table + index * ENTRY_BYTES <= u64::MAX,
    ensures
        page % PAGE_BYTES == 0,
        page <= table + index * ENTRY_BYTES < page + PAGE_BYTES,
{
    let slot: u64 = table + index * ENTRY_BYTES;
    slot - slot % PAGE_BYTES
}

/// Overwrites an entry of a table with `hook`; returns what it held.
pub fn patch_vtable_slot(table: &mut Vec<u64>, index: usize, hook: u64) -> (original: u64)
    requires
        index < old(table)@.len(),
    ensures
        original == old(table)@[index as int],
        final(table)@ == old(table)@.update(index as int, hook),
{
    let original: u64 = table[index];
    table.set(index, hook);
    original
}

/// Puts an entry back; zero is no entry and leaves the table alone.
pub fn restore_vtable(table: &mut Vec<u64>, index: usize, original: u64)
    requires
        index < old(table)@.len(),
    ensures
        final(table)@ == if original != 0 {
            old(table)@.update(index as int, original)
        } else {
            old(table)@
        },
{
    if original != 0 {
        table.set(index, original);
    }
}

/// Restoring what patching returned gives the table back, entry for entry.
pub proof fn law_restore_undoes_patch(table: Seq<u64>, index: int, hook: u64)
    requires
        0 <= index < table.len(),
        table[index] != 0,
    ensures
        table.update(index, hook).update(index, table[index]) == table,
{
    assert(table.update(index, hook).update(index, table[index]) =~= table);
}

/// A patched entry: its table, its index and what it held.
#[derive(Debug, Clone, Copy, PartialEq, Eq, Structural)]
pub struct SavedSlot {
    pub table: u64,
    pub index: u64,
    pub original: u64,
}

impl SavedSlot {
    /// There is something to put back.
    pub open spec fn is_set(self) -> bool {
        self.table != 0 && self.original != 0
    }
}

/// The entries of `slots` that have to be put back, in order.
pub open spec fn to_restore(slots: Seq<SavedSlot>) -> Seq<SavedSlot>
    decreases slots.len(),
{
    if slots.len() == 0 {
        Seq::empty()
    } else if slots.last().is_set() {
        to_restore(slots.drop_last()).push(slots.last())
    } else {
        to_restore(slots.drop_last())
    }
}

/// The entries that were patched in one place.
#[derive(Debug)]
pub struct PatchedSlots {
    pub slots: Vec<SavedSlot>,
}

impl PatchedSlots {
    pub fn new() -> (p: PatchedSlots)
        ensures
            p.slots@ == Seq::<SavedSlot>::empty(),
    {
        PatchedSlots { slots: Vec::new() }
    }

    /// Something was patched.
    pub fn is_installed(&self) -> (b: bool)
        ensures
            b == (self.slots@.len() > 0 && self.slots@[0].original != 0),
    {
        self.slots.len() > 0 && self.slots[0].original != 0
    }

    /// Remembers a patched entry.
    pub fn save(&mut self, slot: SavedSlot)
        ensures
            final(self).slots@ == old(self).slots@.push(slot),
    {
        self.slots.push(slot);
    }

    /// The entries to put back. Their tables are forgotten, so a second call has
    /// nothing to put back.
    pub fn uninstall(&mut self) -> (writes: Vec<SavedSlot>)
        ensures
            writes@ == to_restore(old(self).slots@),
            final(self).slots@.len() == old(self).slots@.len(),
            forall|i: int|
                0 <= i < old(self).slots@.len() ==> final(self).slots@[i] == (SavedSlot {
                    table: 0,
                    ..old(self).slots@[i]
                }),
            to_restore(final(self).slots@) == Seq::<SavedSlot>::empty(),
    {
        let ghost before = self.slots@;
        let mut writes: Vec<SavedSlot> = Vec::new();
        let mut i: usize = 0;
        assert(before.take(0) =~= Seq::empty());
        while i < self.slots.len()
            invariant
                i <= self.slots@.len() == before.len(),
                writes@ == to_restore(before.take(i as int)),
                forall|j: int|
                    0 <= j < i ==> self.slots@[j] == (SavedSlot { table: 0, ..before[j] }),
                forall|j: int| i <= j < before.len() ==> self.slots@[j] == before[j],
            decreases before.len() - i,
        {
            let slot = self.slots[i];
            assert(before.take(i + 1).drop_last() =~= before.take(i as int));
            if slot.table != 0 && slot.original != 0 {
                writes.push(slot);
            }
            self.slots.set(
                i,
                SavedSlot { table: 0, index: slot.index, original: slot.original },
            );
            i = i + 1;
        }
        assert(before.take(i as int) =~= before);
        proof {
            lemma_nothing_left(self.slots@);
        }
        writes
    }
}

proof fn lemma_nothing_left(slots: Seq<SavedSlot>)
    requires
        forall|i: int| 0 <= i < slots.len() ==> (#[trigger] slots[i]).table == 0,
    ensures
        to_restore(slots) == Seq::<SavedSlot>::empty(),
    decreases slots.len(),
{
    if slots.len() > 0 {
        assert forall|i: int| 0 <= i < slots.drop_last().len() implies (
        #[trigger] slots.drop_last()[i]).table == 0 by {
            assert(slots.drop_last()[i] == slots[i]);
        }
        lemma_nothing_left(slots.drop_last());
    }
}

} // verus!
