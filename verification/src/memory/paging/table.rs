//! Page tables: 512 entries each, reached through the recursive mapping.

use vstd::prelude::*;
use crate::memory::paging::entry::Entry;
use crate::memory::paging::{HUGE_PAGE, PRESENT};

verus! {

/// The virtual address of the level 4 table: the address whose four table
/// indices all name the recursive entry 511.
pub const P4_TABLE_ADDRESS: u64 = 0xffff_ffff_ffff_f000;

/// The index of the level 4 entry that points back at the level 4 table.
pub const RECURSIVE_INDEX: usize = 511;

/// The virtual address at which the recursive mapping shows the table that
/// a walk reaches through the level 4 entries `a`, `b`, `c`, `d` in turn.
pub open spec fn table_address(a: int, b: int, c: int, d: int) -> int {
    0xffff_0000_0000_0000 + a * 0x80_0000_0000 + b * 0x4000_0000 + c * 0x20_0000 + d * 0x1000
}

/// Whether the bits `value` of an entry point at a table of the next level:
/// the entry is present and maps no huge page.
pub open spec fn is_table_link(value: u64) -> bool {
    value & PRESENT == PRESENT && value & HUGE_PAGE == 0
}

/// The address of the table below the entry `index` of the table at
/// `address`, as the recursive mapping shows it.
pub open spec fn spec_next_table_address(address: u64, index: usize) -> u64 {
    (address << 9) | ((index as u64) << 12)
}

/// The level of a page table; level 4 is the root.
#[derive(Debug, Clone, Copy, PartialEq, Eq, Structural)]
pub enum TableLevel {
    Level4,
    Level3,
    Level2,
    Level1,
}

impl TableLevel {
    /// The level below, for any level but the last.
    pub fn next_level(self) -> (res: Option<TableLevel>)
        ensures
            res == match self {
                TableLevel::Level4 => Some(TableLevel::Level3),
                TableLevel::Level3 => Some(TableLevel::Level2),
                TableLevel::Level2 => Some(TableLevel::Level1),
                TableLevel::Level1 => None::<TableLevel>,
            },
    {
        match self {
            TableLevel::Level4 => Some(TableLevel::Level3),
            TableLevel::Level3 => Some(TableLevel::Level2),
            TableLevel::Level2 => Some(TableLevel::Level1),
            TableLevel::Level1 => None,
        }
    }
}

/// A page table: 512 entries, and the virtual address at which it is seen.
#[derive(Debug)]
pub struct Table {
    address: u64,
    entries: Vec<Entry>,
}

impl View for Table {
    type V = Seq<Entry>;

    closed spec fn view(&self) -> Seq<Entry> {
        self.entries@
    }
}

impl Table {
    /// The virtual address of the table.
    pub closed spec fn address(&self) -> u64 {
        self.address
    }

    /// A table has exactly 512 entries.
    pub open spec fn wf(&self) -> bool {
        self@.len() == 512
    }

    /// A table of unused entries, seen at `address`.
    pub fn new(address: u64) -> (table: Table)
        ensures
            table.wf(),
            table.address() == address,
            forall|i: int| 0 <= i < 512 ==> (#[trigger] table@[i])@ == 0,
    {
        let mut entries: Vec<Entry> = Vec::new();
        let mut i: usize = 0;
        while i < 512
            invariant
                i <= 512,
                entries.len() == i,
                forall|j: int| 0 <= j < i ==> (#[trigger] entries@[j])@ == 0,
            decreases 512 - i,
        {
            entries.push(Entry::new());
            i += 1;
        }
        Table { address, entries }
    }

    /// Clears every entry.
    pub fn zero(&mut self)
        requires
            old(self).wf(),
        ensures
            final(self).wf(),
            final(self).address() == old(self).address(),
            forall|i: int| 0 <= i < 512 ==> (#[trigger] final(self)@[i])@ == 0,
    {
        let mut i: usize = 0;
        while i < 512
            invariant
                i <= 512,
                self.entries.len() == 512,
                self.address == old(self).address,
                forall|j: int| 0 <= j < i ==> (#[trigger] self.entries@[j])@ == 0,
            decreases 512 - i,
        {
            self.entries[i].set_unused();
            i += 1;
        }
    }

    /// The entry at `index`.
    pub fn entry(&self, index: usize) -> (entry: Entry)
        requires
            self.wf(),
            index < 512,
        ensures
            entry == self@[index as int],
    {
        self.entries[index]
    }

    /// Replaces the entry at `index`.
    pub fn set_entry(&mut self, index: usize, entry: Entry)
        requires
            old(self).wf(),
            index < 512,
        ensures
            final(self).wf(),
            final(self).address() == old(self).address(),
            final(self)@ == old(self)@.update(index as int, entry),
    {
        self.entries[index] = entry;
    }

    /// The virtual address of the table that the entry at `index` points at,
    /// if that entry is present and maps no huge page.
    pub fn next_table_address(&self, index: usize) -> (res: Option<u64>)
        requires
            self.wf(),
            index < 512,
        ensures
            res == if is_table_link(self@[index as int]@) {
                Some(spec_next_table_address(self.address(), index))
            } else {
                None::<u64>
            },
    {
        let flags = self.entries[index].flags().bits();
        assert(flags == self@[index as int]@ & crate::memory::paging::ALL_FLAGS);
        let ghost value: u64 = self.entries@[index as int]@;
        assert(is_table_link(value) <==> (flags & PRESENT == PRESENT && flags & HUGE_PAGE == 0))
            by (bit_vector)
            requires
                flags == value & 0x8000_0000_0000_01ffu64,
        ;
        if flags & PRESENT == PRESENT && flags & HUGE_PAGE == 0 {
            Some((self.address << 9) | ((index as u64) << 12))
        } else {
            None
        }
    }
}

/// Following an entry of a table on a walk from the level 4 table leads to
/// the address that the recursive mapping gives the next table.
pub proof fn lemma_next_table_address(c: usize, d: usize, index: usize)
    requires
        c < 512,
        d < 512,
        index < 512,
    ensures
        table_address(511, 511, c as int, d as int) <= u64::MAX,
        spec_next_table_address(table_address(511, 511, c as int, d as int) as u64, index)
            == table_address(511, c as int, d as int, index as int),
{
    let cc = c as u64;
    let dd = d as u64;
    let ii = index as u64;
    let address: u64 = (0xffff_ffff_c000_0000 + cc * 0x20_0000 + dd * 0x1000) as u64;
    let next: u64 = (0xffff_ff80_0000_0000 + cc * 0x4000_0000 + dd * 0x20_0000 + ii * 0x1000) as u64;
    assert((address << 9) | (ii << 12) == next) by (bit_vector)
        requires
            cc < 512,
            dd < 512,
            ii < 512,
            address == 0xffff_ffff_c000_0000u64 + cc * 0x20_0000u64 + dd * 0x1000u64,
            next == 0xffff_ff80_0000_0000u64 + cc * 0x4000_0000u64 + dd * 0x20_0000u64 + ii * 0x1000u64,
    ;
}

} // verus!
