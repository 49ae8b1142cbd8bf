//! Walking and changing a hierarchy of page tables.

use vstd::prelude::*;
use std::collections::HashMap;
use crate::memory::frame_allocator::{Frame, FrameAllocator};
use crate::memory::paging::entry::{spec_entry_value, spec_pointed_frame, lemma_set_then_read, Entry};
use crate::memory::paging::page::{is_canonical, Page};
use crate::memory::paging::shape::{
    entry_kind, leaf_kind, shape_after_map_to, shape_after_unmap, shape_make_table, shape_map_all,
    shape_in_use, shape_map_result, shape_map_to_result, shape_missing, Shape,
};
use crate::memory::paging::table::{
    is_table_link, lemma_next_table_address, spec_next_table_address, table_address, Table,
    TableLevel, P4_TABLE_ADDRESS,
};
use crate::memory::paging::{EntryFlags, ALL_FLAGS, HUGE_PAGE, PRESENT, WRITABLE};
use crate::memory::PAGE_SIZE;

verus! {

broadcast use vstd::std_specs::hash::group_hash_axioms;

/// Why a page could not be mapped.
#[derive(Debug, Clone, Copy, PartialEq, Eq, Structural)]
pub enum MapError {
    /// A table was missing and the allocator had no frame for it.
    FrameAllocationFailed,
    /// An entry above the page maps a huge page.
    ParentEntryHugePage,
    /// The page's own entry is in use. Told by the functions that look
    /// before they map; `map_to` itself is not to be called on such a page.
    PageAlreadyMapped,
}

/// Why a page could not be unmapped.
#[derive(Debug, Clone, Copy, PartialEq, Eq, Structural)]
pub enum UnmapError {
    /// A table above the page is missing, or an entry above it maps a huge page.
    PageNotMapped,
}

/// What the processor's translation cache has to forget after a change.
#[derive(Debug, Clone, Copy, PartialEq, Eq, Structural)]
pub enum TlbFlush {
    /// The translation of the page at this virtual address.
    Page(u64),
    /// Every translation.
    All,
}

/// The address of the level 3 table on the walk to `page`.
pub open spec fn p3_address(page: Page) -> u64 {
    table_address(511, 511, 511, page.spec_p4_index() as int) as u64
}

/// The address of the level 2 table on the walk to `page`.
pub open spec fn p2_address(page: Page) -> u64 {
    table_address(511, 511, page.spec_p4_index() as int, page.spec_p3_index() as int) as u64
}

/// The address of the level 1 table on the walk to `page`.
pub open spec fn p1_address(page: Page) -> u64 {
    table_address(
        511,
        page.spec_p4_index() as int,
        page.spec_p3_index() as int,
        page.spec_p2_index() as int,
    ) as u64
}

/// The address at which the recursive mapping shows the table of the level
/// `level` on the walk to `page`.
pub open spec fn spec_table_address_of(page: Page, level: TableLevel) -> u64 {
    match level {
        TableLevel::Level4 => P4_TABLE_ADDRESS,
        TableLevel::Level3 => p3_address(page),
        TableLevel::Level2 => p2_address(page),
        TableLevel::Level1 => p1_address(page),
    }
}

/// The address at which the recursive mapping shows the table of the level
/// `level` on the walk to `page`: the page's indices of the levels above,
/// behind as many times the recursive index as it takes to make four.
pub fn table_address_of(page: Page, level: TableLevel) -> (address: u64)
    ensures
        address == spec_table_address_of(page, level),
{
    let i4 = page.p4_index() as u64;
    let i3 = page.p3_index() as u64;
    let i2 = page.p2_index() as u64;
    match level {
        TableLevel::Level4 => P4_TABLE_ADDRESS,
        TableLevel::Level3 => 0xffff_ffff_ffe0_0000 + i4 * 0x1000,
        TableLevel::Level2 => 0xffff_ffff_c000_0000 + i4 * 0x20_0000 + i3 * 0x1000,
        TableLevel::Level1 => 0xffff_ff80_0000_0000 + i4 * 0x4000_0000 + i3 * 0x20_0000 + i2 * 0x1000,
    }
}

/// A hierarchy of page tables as it is seen through the recursive mapping:
/// each table is found at the virtual address that the mapping gives it.
pub struct Mapper {
    tables: HashMap<u64, Table>,
}

impl Mapper {
    /// The bits of the entry `index` of the table at `address`. A table that
    /// was never written holds unused entries.
    pub closed spec fn entry_value(&self, address: u64, index: int) -> u64 {
        if self.tables@.contains_key(address) && 0 <= index < 512 {
            self.tables@[address]@[index]@
        } else {
            0
        }
    }

    /// Every table that is held has 512 entries and knows its address.
    pub closed spec fn tables_wf(&self) -> bool {
        forall|address: u64| #[trigger]
            self.tables@.contains_key(address) ==> self.tables@[address].wf()
                && self.tables@[address].address() == address
    }

    /// The tables are well formed, and the level 4 table's recursive entry
    /// points at a table.
    pub open spec fn wf(&self) -> bool {
        &&& self.tables_wf()
        &&& is_table_link(self.entry_value(P4_TABLE_ADDRESS, 511))
    }

    /// Whether the walk to `page` finds a level 3 table.
    pub open spec fn has_p3(&self, page: Page) -> bool {
        is_table_link(self.entry_value(P4_TABLE_ADDRESS, page.spec_p4_index() as int))
    }

    /// Whether the walk to `page` finds a level 2 table.
    pub open spec fn has_p2(&self, page: Page) -> bool {
        self.has_p3(page) && is_table_link(
            self.entry_value(p3_address(page), page.spec_p3_index() as int),
        )
    }

    /// Whether the walk to `page` finds a level 1 table.
    pub open spec fn has_p1(&self, page: Page) -> bool {
        self.has_p2(page) && is_table_link(
            self.entry_value(p2_address(page), page.spec_p2_index() as int),
        )
    }

    /// The bits of the level 1 entry of `page`, where the walk gets that far.
    pub open spec fn leaf_value(&self, page: Page) -> u64 {
        self.entry_value(p1_address(page), page.spec_p1_index() as int)
    }

    /// The bits of the level 1 entry that the walk to `page` ends at: those
    /// of an unused entry where the walk finds no level 1 table.
    pub open spec fn leaf(&self, page: Page) -> u64 {
        if self.has_p1(page) {
            self.leaf_value(page)
        } else {
            0
        }
    }

    /// The frame that `page` is mapped to: the frame that its level 1 entry
    /// points at.
    pub open spec fn translation(&self, page: Page) -> Option<Frame> {
        if self.leaf(page) == 0 {
            None
        } else {
            spec_pointed_frame(self.leaf(page))
        }
    }

    /// The flags of the level 1 entry that the walk to `page` ends at.
    pub open spec fn leaf_flags(&self, page: Page) -> u64 {
        self.leaf(page) & ALL_FLAGS
    }

    /// Whether the level 1 entry of `page` holds anything: `map_to` maps no
    /// such page.
    pub open spec fn spec_is_in_use(&self, page: Page) -> bool {
        self.leaf(page) != 0
    }

    /// The kind of every entry: what decides whether pages can be mapped.
    pub open spec fn shape(&self) -> Shape {
        |address: u64, index: int| entry_kind(self.entry_value(address, index))
    }

    /// The recursive entry of the level 4 table.
    pub open spec fn recursive_entry(&self) -> u64 {
        self.entry_value(P4_TABLE_ADDRESS, 511)
    }

    /// A hierarchy that holds nothing but its level 4 table in `p4_frame`,
    /// whose recursive entry points at that frame.
    pub fn new(p4_frame: Frame) -> (mapper: Mapper)
        requires
            p4_frame.is_addressable(),
        ensures
            mapper.wf(),
            mapper.recursive_entry() == spec_entry_value(p4_frame, PRESENT | WRITABLE),
            forall|address: u64, index: int|
                !(address == P4_TABLE_ADDRESS && index == 511) ==> #[trigger] mapper.entry_value(
                    address,
                    index,
                ) == 0,
    {
        let mut p4 = Table::new(P4_TABLE_ADDRESS);
        let mut entry = Entry::new();
        entry.set(p4_frame, EntryFlags::from_bits_truncate(PRESENT | WRITABLE));
        p4.set_entry(511, entry);
        let mut tables: HashMap<u64, Table> = HashMap::new();
        tables.insert(P4_TABLE_ADDRESS, p4);
        proof {
            lemma_flag_facts();
            lemma_set_then_read(p4_frame, WRITABLE);
        }
        Mapper { tables }
    }

    /// The entry `index` of the table at `address`.
    pub fn entry(&self, address: u64, index: usize) -> (entry: Entry)
        requires
            self.wf(),
            index < 512,
        ensures
            entry@ == self.entry_value(address, index as int),
    {
        match self.tables.get(&address) {
            Some(table) => table.entry(index),
            None => Entry::new(),
        }
    }

    /// The address of the table below the entry `index` of the table at
    /// `address`, if that entry points at a table.
    pub fn next_table(&self, address: u64, index: usize) -> (res: Option<u64>)
        requires
            self.wf(),
            index < 512,
        ensures
            res == if is_table_link(self.entry_value(address, index as int)) {
                Some(spec_next_table_address(address, index))
            } else {
                None::<u64>
            },
    {
        proof {
            lemma_flag_facts();
        }
        match self.tables.get(&address) {
            Some(table) => table.next_table_address(index),
            None => None,
        }
    }

    /// Replaces the entry `index` of the table at `address`.
    fn set_entry(&mut self, address: u64, index: usize, entry: Entry)
        requires
            old(self).wf(),
            index < 512,
            (address == P4_TABLE_ADDRESS && index == 511) ==> is_table_link(entry@),
        ensures
            final(self).wf(),
            final(self).entry_value(address, index as int) == entry@,
            forall|a: u64, i: int|
                (a != address || i != index) ==> #[trigger] final(self).entry_value(a, i) == old(self).entry_value(a, i),
    {
        let mut table = match self.tables.remove(&address) {
            Some(table) => table,
            None => Table::new(address),
        };
        table.set_entry(index, entry);
        self.tables.insert(address, table);
    }

    /// Clears every entry of the table at `address`, which is not the level 4
    /// table.
    fn zero_table(&mut self, address: u64)
        requires
            old(self).wf(),
            address != P4_TABLE_ADDRESS,
        ensures
            final(self).wf(),
            forall|i: int| #[trigger] final(self).entry_value(address, i) == 0,
            forall|a: u64, i: int|
                a != address ==> #[trigger] final(self).entry_value(a, i) == old(self).entry_value(
                    a,
                    i,
                ),
    {
        let mut table = match self.tables.remove(&address) {
            Some(table) => table,
            None => Table::new(address),
        };
        table.zero();
        self.tables.insert(address, table);
    }
}

/// What holds of the flag bits of an unused entry and of the flags that a
/// table link is written with.
pub proof fn lemma_flag_facts()
    ensures
        !is_table_link(0),
        spec_pointed_frame(0) is None,
        0u64 & HUGE_PAGE == 0,
        WRITABLE & ALL_FLAGS == WRITABLE,
        WRITABLE | PRESENT == PRESENT | WRITABLE,
        (PRESENT | WRITABLE) & ALL_FLAGS == PRESENT | WRITABLE,
        forall|value: u64| value & ALL_FLAGS == PRESENT | WRITABLE ==> #[trigger] is_table_link(value),
        forall|value: u64| #[trigger] (value & PRESENT) == PRESENT ==> value != 0,
{
    assert forall|value: u64| #[trigger] (value & PRESENT) == PRESENT implies value != 0 by {
        assert(value & 1 == 1 ==> value != 0) by (bit_vector);
    }
    assert(0u64 & 1 == 0 && 0u64 & 0x80 == 0 && 2u64 & 0x8000_0000_0000_01ff == 2 && 2u64 | 1 == 1
        | 2u64 && (1 | 2u64) & 0x8000_0000_0000_01ff == 1 | 2u64) by (bit_vector);
    assert forall|value: u64| value & ALL_FLAGS == PRESENT | WRITABLE implies #[trigger] is_table_link(
        value,
    ) by {
        assert(value & 0x8000_0000_0000_01ff == 1 | 2u64 ==> value & 1 == 1 && value & 0x80 == 0)
            by (bit_vector);
    }
}


impl Mapper {
    /// How many tables are missing on the walk to `page`: as many as
    /// `map_to` has to create.
    pub open spec fn missing_tables(&self, page: Page) -> nat {
        if !self.has_p3(page) {
            3
        } else if !self.has_p2(page) {
            2
        } else if !self.has_p1(page) {
            1
        } else {
            0
        }
    }

    /// The bits of the first entry on the walk to `page` that points at no
    /// table, where there is one.
    pub open spec fn blocking_entry(&self, page: Page) -> u64 {
        if !self.has_p3(page) {
            self.entry_value(P4_TABLE_ADDRESS, page.spec_p4_index() as int)
        } else if !self.has_p2(page) {
            self.entry_value(p3_address(page), page.spec_p3_index() as int)
        } else {
            self.entry_value(p2_address(page), page.spec_p2_index() as int)
        }
    }

    /// What `map_to` answers for `page` when the allocator can still hand out
    /// `frames` frames.
    pub open spec fn map_to_result(&self, page: Page, frames: nat) -> Result<(), MapError> {
        if self.missing_tables(page) == 0 {
            if self.leaf_value(page) == 0 {
                Ok(())
            } else {
                Err(MapError::PageAlreadyMapped)
            }
        } else if self.blocking_entry(page) & HUGE_PAGE != 0 {
            Err(MapError::ParentEntryHugePage)
        } else if frames >= self.missing_tables(page) {
            Ok(())
        } else {
            Err(MapError::FrameAllocationFailed)
        }
    }

    /// Whether every page outside the recursive window, but those with the
    /// table indices of `page`, has the level 1 entry in `other` that it has
    /// here: the same frame with the same flags, or none.
    pub open spec fn same_translations_except(&self, other: Mapper, page: Page) -> bool {
        forall|q: Page|
            q.spec_p4_index() != 511 && !q.same_indices(page) ==> #[trigger] self.leaf(q)
                == other.leaf(q)
    }

    /// Whether every page outside the recursive window has the level 1 entry
    /// in `other` that it has here: the same frame with the same flags, or
    /// none.
    pub open spec fn same_translations(&self, other: Mapper) -> bool {
        forall|q: Page| q.spec_p4_index() != 511 ==> #[trigger] self.leaf(q) == other.leaf(q)
    }

    /// Huge pages are not translated.
    pub fn handle_huge_pages(&self, page: Page) -> (res: Option<Frame>)
        ensures
            res is None,
    {
        None
    }

    /// The frame that `page` is mapped to, if it is mapped.
    pub fn translate_page(&self, page: Page) -> (res: Option<Frame>)
        requires
            self.wf(),
        ensures
            res == self.translation(page),
    {
        let i4 = page.p4_index();
        let i3 = page.p3_index();
        let i2 = page.p2_index();
        proof {
            lemma_flag_facts();
            lemma_next_table_address(511, 511, i4);
            lemma_next_table_address(511, i4, i3);
            lemma_next_table_address(i4, i3, i2);
        }
        let p3 = match self.next_table(P4_TABLE_ADDRESS, i4) {
            Some(p3) => p3,
            None => { return self.handle_huge_pages(page); },
        };
        let p2 = match self.next_table(p3, i3) {
            Some(p2) => p2,
            None => { return self.handle_huge_pages(page); },
        };
        let p1 = match self.next_table(p2, i2) {
            Some(p1) => p1,
            None => { return self.handle_huge_pages(page); },
        };
        match self.entry(p1, page.p1_index()).pointed_frame() {
            Some(frame) => Some(frame),
            None => self.handle_huge_pages(page),
        }
    }

    /// The physical address that the canonical virtual address
    /// `virtual_address` is mapped to, if its page is mapped.
    pub fn translate(&self, virtual_address: u64) -> (res: Option<u64>)
        requires
            self.wf(),
            is_canonical(virtual_address),
        ensures
            res == match self.translation(Page { number: virtual_address / PAGE_SIZE }) {
                Some(frame) => Some((frame.number * PAGE_SIZE + virtual_address % PAGE_SIZE) as u64),
                None => None::<u64>,
            },
    {
        let offset = virtual_address % PAGE_SIZE;
        match self.translate_page(Page::containing_address(virtual_address)) {
            Some(frame) => Some(frame.start_address() + offset),
            None => None,
        }
    }
}


impl Mapper {
    /// Whether every entry of `other` holds what it holds here.
    pub open spec fn same_entries(&self, other: Mapper) -> bool {
        forall|a: u64, i: int| #[trigger] self.entry_value(a, i) == other.entry_value(a, i)
    }

    /// The address of the table below the entry `index` of the table at
    /// `address`; where the entry points at no table, a frame is taken from
    /// `allocator` and a table of unused entries is made in it. The table at
    /// `address` is one on a walk from the level 4 table: `c` and `d` are the
    /// last two indices of that walk.
    fn next_table_create<A: FrameAllocator>(
        &mut self,
        address: u64,
        index: usize,
        allocator: &mut A,
        Ghost(c): Ghost<int>,
        Ghost(d): Ghost<int>,
    ) -> (res: Result<u64, MapError>)
        requires
            old(self).wf(),
            old(allocator).wf(),
            index < 512,
            0 <= c < 512,
            0 <= d < 512,
            address == table_address(511, 511, c, d),
        ensures
            final(self).wf(),
            final(allocator).wf(),
            table_step(*old(self), *final(self), address, index as int, table_address(511, c, d, index as int) as u64),
            res is Ok ==> final(self).shape() == shape_make_table(
                old(self).shape(),
                address,
                index as int,
                table_address(511, c, d, index as int) as u64,
            ),
            is_table_link(old(self).entry_value(address, index as int)) ==> res == Ok::<u64, MapError>(
                table_address(511, c, d, index as int) as u64,
            ) && final(self).same_entries(*old(self)) && final(allocator).remaining() == old(allocator).remaining(),
            !is_table_link(old(self).entry_value(address, index as int)) ==> {
                let value = old(self).entry_value(address, index as int);
                let next = table_address(511, c, d, index as int) as u64;
                if value & HUGE_PAGE != 0 {
                    &&& res == Err::<u64, MapError>(MapError::ParentEntryHugePage)
                    &&& final(self).same_entries(*old(self))
                    &&& final(allocator).remaining() == old(allocator).remaining()
                } else if old(allocator).remaining() == 0 {
                    &&& res == Err::<u64, MapError>(MapError::FrameAllocationFailed)
                    &&& final(self).same_entries(*old(self))
                    &&& final(allocator).remaining() == 0
                } else {
                    &&& res == Ok::<u64, MapError>(next)
                    &&& final(allocator).remaining() == old(allocator).remaining() - 1
                    &&& is_table_link(final(self).entry_value(address, index as int))
                    &&& next != address
                    &&& forall|i: int| #[trigger] final(self).entry_value(next, i) == 0
                    &&& forall|a: u64, i: int|
                        a != next && (a != address || i != index) ==> #[trigger] final(self).entry_value(a, i) == old(self).entry_value(a, i)
                }
            },
    {
        proof {
            lemma_flag_facts();
            lemma_next_table_address(c as usize, d as usize, index);
        }
        let ghost before = *self;
        match self.next_table(address, index) {
            Some(next) => {
                proof {
                    lemma_step_shape(before, *self, address, index as int, next);
                }
                Ok(next)
            },
            None => {
                let entry = self.entry(address, index);
                let flags = entry.flags().bits();
                let ghost value = entry@;
                assert(flags & HUGE_PAGE == 0 <==> value & HUGE_PAGE == 0) by (bit_vector)
                    requires
                        flags == value & 0x8000_0000_0000_01ffu64,
                ;
                if flags & HUGE_PAGE != 0 {
                    return Err(MapError::ParentEntryHugePage);
                }
                match allocator.allocate_frame() {
                    None => Err(MapError::FrameAllocationFailed),
                    Some(frame) => {
                        let mut link = Entry::new();
                        link.set(frame, EntryFlags::from_bits_truncate(PRESENT | WRITABLE));
                        proof {
                            lemma_set_then_read(frame, WRITABLE);
                        }
                        self.set_entry(address, index, link);
                        let next = (address << 9) | ((index as u64) << 12);
                        self.zero_table(next);
                        proof {
                            lemma_step_shape(before, *self, address, index as int, next);
                        }
                        Ok(next)
                    },
                }
            },
        }
    }

    /// Whether the level 1 entry of `page` holds anything.
    pub fn is_in_use(&self, page: Page) -> (res: bool)
        requires
            self.wf(),
        ensures
            res == self.spec_is_in_use(page),
    {
        match self.navigate_to_p1_table_mut(page) {
            None => false,
            Some(p1) => !self.entry(p1, page.p1_index()).is_unused(),
        }
    }

    /// Maps `page`, whose level 1 entry is unused, to `frame` with the flags
    /// `flags` and the present flag. Tables that are missing on the walk to
    /// the page are made in frames of `allocator`. Nothing is mapped where
    /// an entry above the page maps a huge page or where the allocator runs
    /// out of frames. To map a page whose entry is in use is an error of the
    /// caller.
    pub fn map_to<A: FrameAllocator>(
        &mut self,
        page: Page,
        frame: Frame,
        flags: EntryFlags,
        allocator: &mut A,
    ) -> (res: Result<(), MapError>)
        requires
            old(self).wf(),
            old(allocator).wf(),
            frame.is_addressable(),
            !old(self).spec_is_in_use(page),
        ensures
            final(self).wf(),
            final(allocator).wf(),
            res != Err::<(), MapError>(MapError::PageAlreadyMapped),
            res is Ok ==> final(self).leaf(page) == spec_entry_value(frame, flags@ | PRESENT),
            res is Ok ==> final(self).leaf_flags(page) == flags@ | PRESENT,
            res == old(self).map_to_result(page, old(allocator).remaining()),
            res == shape_map_to_result(old(self).shape(), page, old(allocator).remaining()),
            old(self).missing_tables(page) == shape_missing(old(self).shape(), page),
            res is Ok ==> final(self).shape() == shape_after_map_to(
                old(self).shape(),
                page,
                leaf_kind(flags@),
            ),
            res is Ok ==> old(self).translation(page) is None,
            res is Ok ==> final(self).translation(page) == Some(frame),
            res is Ok ==> final(self).leaf_value(page) == spec_entry_value(frame, flags@ | PRESENT),
            res is Ok ==> final(allocator).remaining() == old(allocator).remaining() - old(self).missing_tables(page),
            res is Err && res != Err::<(), MapError>(MapError::FrameAllocationFailed) ==> final(self).same_entries(*old(self)) && final(allocator).remaining() == old(allocator).remaining(),
            res == Err::<(), MapError>(MapError::FrameAllocationFailed) ==> final(allocator).remaining() == 0,
            page.spec_p4_index() != 511 ==> final(self).same_translations_except(*old(self), page),
            page.spec_p4_index() != 511 && res is Err ==> final(self).same_translations(*old(self)),
            final(self).recursive_entry() == old(self).recursive_entry(),
    {
        let i4 = page.p4_index();
        let i3 = page.p3_index();
        let i2 = page.p2_index();
        let i1 = page.p1_index();
        proof {
            lemma_flag_facts();
        }
        let ghost s0 = *self;
        proof {
            lemma_shape_result(s0, page, allocator.remaining());
        }
        let made_p3 = self.next_table_create(P4_TABLE_ADDRESS, i4, allocator, Ghost(511), Ghost(511));
        let ghost s1 = *self;
        proof {
            if page.spec_p4_index() != 511 {
                lemma_step_p3(s0, s1, page);
            }
        }
        let p3 = match made_p3 {
            Ok(p3) => p3,
            Err(e) => { return Err(e); },
        };
        let made_p2 = self.next_table_create(p3, i3, allocator, Ghost(511), Ghost(i4 as int));
        let ghost s2 = *self;
        proof {
            if page.spec_p4_index() != 511 {
                lemma_step_p2(s1, s2, page);
            }
        }
        let p2 = match made_p2 {
            Ok(p2) => p2,
            Err(e) => { return Err(e); },
        };
        let made_p1 = self.next_table_create(p2, i2, allocator, Ghost(i4 as int), Ghost(i3 as int));
        let ghost s3 = *self;
        proof {
            if page.spec_p4_index() != 511 {
                lemma_step_p1(s2, s3, page);
            }
        }
        let p1 = match made_p1 {
            Ok(p1) => p1,
            Err(e) => { return Err(e); },
        };
        let mut leaf = Entry::new();
        let bits = flags.bits();
        leaf.set(frame, flags.union(EntryFlags::from_bits_truncate(PRESENT)));
        proof {
            lemma_set_then_read(frame, bits);
            assert(PRESENT & ALL_FLAGS == PRESENT) by (bit_vector);
        }
        self.set_entry(p1, i1, leaf);
        proof {
            if page.spec_p4_index() != 511 {
                lemma_step_leaf(s3, *self, page);
            }
            lemma_leaf_kind(leaf@, bits);
            assert(self.shape() =~= shape_after_map_to(s0.shape(), page, leaf_kind(bits)));
        }
        Ok(())
    }
}

/// A step that makes a table, or finds it made, changes the shape as
/// `shape_make_table` says.
proof fn lemma_step_shape(before: Mapper, after: Mapper, address: u64, index: int, next: u64)
    requires
        (is_table_link(before.entry_value(address, index)) && after.same_entries(before)) || table_made(
            before,
            after,
            address,
            index,
            next,
        ),
    ensures
        after.shape() == shape_make_table(before.shape(), address, index, next),
{
    lemma_flag_facts();
    assert(after.shape() =~= shape_make_table(before.shape(), address, index, next));
}

/// What mapping a page answers is decided by the shape alone.
pub proof fn lemma_shape_result(mapper: Mapper, page: Page, frames: nat)
    ensures
        mapper.map_to_result(page, frames) == shape_map_to_result(mapper.shape(), page, frames),
        mapper.missing_tables(page) == shape_missing(mapper.shape(), page),
        mapper.has_p1(page) == (shape_missing(mapper.shape(), page) == 0),
        mapper.spec_is_in_use(page) == shape_in_use(mapper.shape(), page),
        mapper.spec_is_in_use(page) == (mapper.map_to_result(page, frames) == Err::<(), MapError>(
            MapError::PageAlreadyMapped,
        )),
{
    lemma_flag_facts();
}

/// The entry of a mapped page is present: whether it looks like a link or
/// like a huge page is up to the huge page flag.
proof fn lemma_leaf_kind(value: u64, flags: u64)
    requires
        value & ALL_FLAGS == flags | PRESENT,
    ensures
        entry_kind(value) == leaf_kind(flags),
{
    assert(value & 0x8000_0000_0000_01ff == flags | 1 ==> value & 1 == 1 && (value & 0x80 == 0 <==> flags
        & 0x80 == 0)) by (bit_vector);
}

/// Whether `after` is `before` with a table of unused entries made at `next`
/// below the entry `index` of the table at `address`, which pointed at no
/// table before.
pub open spec fn table_made(before: Mapper, after: Mapper, address: u64, index: int, next: u64) -> bool {
    &&& !is_table_link(before.entry_value(address, index))
    &&& is_table_link(after.entry_value(address, index))
    &&& next != address
    &&& forall|i: int| #[trigger] after.entry_value(next, i) == 0
    &&& forall|a: u64, i: int|
        a != next && (a != address || i != index) ==> #[trigger] after.entry_value(a, i)
            == before.entry_value(a, i)
}

/// Whether `after` is `before`, unchanged or with a table made at `next`.
pub open spec fn table_step(before: Mapper, after: Mapper, address: u64, index: int, next: u64) -> bool {
    after.same_entries(before) || table_made(before, after, address, index, next)
}

/// Making the level 3 table of a page changes no translation.
proof fn lemma_step_p3(before: Mapper, after: Mapper, page: Page)
    requires
        page.spec_p4_index() != 511,
        table_step(before, after, P4_TABLE_ADDRESS, page.spec_p4_index() as int, p3_address(page)),
    ensures
        after.same_translations(before),
{
    lemma_flag_facts();
    assert forall|q: Page| q.spec_p4_index() != 511 implies #[trigger] after.leaf(q)
        == before.leaf(q) by {
        if !after.same_entries(before) {
            if q.spec_p4_index() == page.spec_p4_index() {
                assert(after.entry_value(p3_address(page), q.spec_p3_index() as int) == 0);
            }
        }
    }
}

/// Making the level 2 table of a page changes no translation.
proof fn lemma_step_p2(before: Mapper, after: Mapper, page: Page)
    requires
        page.spec_p4_index() != 511,
        table_step(before, after, p3_address(page), page.spec_p3_index() as int, p2_address(page)),
    ensures
        after.same_translations(before),
{
    lemma_flag_facts();
    assert forall|q: Page| q.spec_p4_index() != 511 implies #[trigger] after.leaf(q)
        == before.leaf(q) by {
        if !after.same_entries(before) {
            if q.spec_p4_index() == page.spec_p4_index() && q.spec_p3_index() == page.spec_p3_index() {
                assert(after.entry_value(p2_address(page), q.spec_p2_index() as int) == 0);
            }
        }
    }
}

/// Making the level 1 table of a page changes no translation.
proof fn lemma_step_p1(before: Mapper, after: Mapper, page: Page)
    requires
        page.spec_p4_index() != 511,
        table_step(before, after, p2_address(page), page.spec_p2_index() as int, p1_address(page)),
    ensures
        after.same_translations(before),
{
    lemma_flag_facts();
    assert forall|q: Page| q.spec_p4_index() != 511 implies #[trigger] after.leaf(q)
        == before.leaf(q) by {
        if !after.same_entries(before) {
            if q.spec_p4_index() == page.spec_p4_index() && q.spec_p3_index() == page.spec_p3_index()
                && q.spec_p2_index() == page.spec_p2_index() {
                assert(after.entry_value(p1_address(page), q.spec_p1_index() as int) == 0);
            }
        }
    }
}

/// Writing the level 1 entry of a page changes the translation of no other
/// page.
proof fn lemma_step_leaf(before: Mapper, after: Mapper, page: Page)
    requires
        page.spec_p4_index() != 511,
        forall|a: u64, i: int|
            (a != p1_address(page) || i != page.spec_p1_index()) ==> #[trigger] after.entry_value(a, i)
                == before.entry_value(a, i),
    ensures
        after.same_translations_except(before, page),
{
    assert forall|q: Page| q.spec_p4_index() != 511 && !q.same_indices(page) implies #[trigger] after.leaf(q) == before.leaf(q) by {
    }
}


impl Mapper {
    /// The level 4 table.
    pub fn p4(&self) -> (table: &Table)
        requires
            self.wf(),
        ensures
            table.wf(),
            table.address() == P4_TABLE_ADDRESS,
            forall|i: int| 0 <= i < 512 ==> (#[trigger] table@[i])@ == self.entry_value(P4_TABLE_ADDRESS, i),
    {
        proof {
            lemma_flag_facts();
        }
        match self.tables.get(&P4_TABLE_ADDRESS) {
            Some(table) => table,
            None => vstd::pervasive::unreached(),
        }
    }

    /// The address of the level 1 table of `page`, if the walk to the page
    /// finds one. No table is made.
    pub fn navigate_to_p1_table_mut(&self, page: Page) -> (res: Option<u64>)
        requires
            self.wf(),
        ensures
            res == if self.has_p1(page) { Some(p1_address(page)) } else { None::<u64> },
    {
        let i4 = page.p4_index();
        let i3 = page.p3_index();
        let i2 = page.p2_index();
        proof {
            lemma_next_table_address(511, 511, i4);
            lemma_next_table_address(511, i4, i3);
            lemma_next_table_address(i4, i3, i2);
        }
        let p3 = match self.next_table(P4_TABLE_ADDRESS, i4) {
            Some(p3) => p3,
            None => { return None; },
        };
        let p2 = match self.next_table(p3, i3) {
            Some(p2) => p2,
            None => { return None; },
        };
        self.next_table(p2, i2)
    }

    /// Takes a frame from `allocator` and maps `page`, whose level 1 entry
    /// is unused, to it.
    pub fn map<A: FrameAllocator>(&mut self, page: Page, flags: EntryFlags, allocator: &mut A) -> (res:
        Result<(), MapError>)
        requires
            old(self).wf(),
            old(allocator).wf(),
            !old(self).spec_is_in_use(page),
        ensures
            final(self).wf(),
            final(allocator).wf(),
            res != Err::<(), MapError>(MapError::PageAlreadyMapped),
            res is Ok ==> final(self).leaf(page) == spec_entry_value(
                old(allocator).next_frame().unwrap(),
                flags@ | PRESENT,
            ),
            res is Ok ==> final(self).leaf_flags(page) == flags@ | PRESENT,
            res == if old(allocator).remaining() == 0 {
                Err::<(), MapError>(MapError::FrameAllocationFailed)
            } else {
                old(self).map_to_result(page, (old(allocator).remaining() - 1) as nat)
            },
            res == shape_map_result(old(self).shape(), page, old(allocator).remaining()),
            old(self).missing_tables(page) == shape_missing(old(self).shape(), page),
            res is Ok ==> final(self).shape() == shape_after_map_to(
                old(self).shape(),
                page,
                leaf_kind(flags@),
            ),
            res is Ok ==> old(self).translation(page) is None,
            res is Ok ==> final(self).translation(page) == old(allocator).next_frame(),
            res is Ok ==> final(self).translation(page) is Some,
            res is Ok ==> final(self).leaf_value(page) == spec_entry_value(
                old(allocator).next_frame().unwrap(),
                flags@ | PRESENT,
            ),
            res is Ok ==> final(allocator).remaining() == old(allocator).remaining() - 1 - old(self).missing_tables(page),
            page.spec_p4_index() != 511 ==> final(self).same_translations_except(*old(self), page),
            page.spec_p4_index() != 511 && res is Err ==> final(self).same_translations(*old(self)),
            final(self).recursive_entry() == old(self).recursive_entry(),
    {
        proof {
            lemma_shape_result(*self, page, 0);
        }
        match allocator.allocate_frame() {
            Some(frame) => self.map_to(page, frame, flags, allocator),
            None => Err(MapError::FrameAllocationFailed),
        }
    }

    /// Maps the page with the address of `frame`, whose level 1 entry is
    /// unused, to `frame`.
    pub fn identity_map<A: FrameAllocator>(
        &mut self,
        frame: Frame,
        flags: EntryFlags,
        allocator: &mut A,
    ) -> (res: Result<(), MapError>)
        requires
            old(self).wf(),
            old(allocator).wf(),
            frame.number < 0x8_0000_0000,
            !old(self).spec_is_in_use(Page { number: frame.number }),
        ensures
            final(self).wf(),
            final(allocator).wf(),
            res != Err::<(), MapError>(MapError::PageAlreadyMapped),
            res is Ok ==> final(self).leaf(Page { number: frame.number }) == spec_entry_value(
                frame,
                flags@ | PRESENT,
            ),
            res is Ok ==> final(self).leaf_flags(Page { number: frame.number }) == flags@ | PRESENT,
            res == old(self).map_to_result(Page { number: frame.number }, old(allocator).remaining()),
            res == shape_map_to_result(
                old(self).shape(),
                Page { number: frame.number },
                old(allocator).remaining(),
            ),
            res is Ok ==> final(self).shape() == shape_after_map_to(
                old(self).shape(),
                Page { number: frame.number },
                leaf_kind(flags@),
            ),
            res is Ok ==> final(self).translation(Page { number: frame.number }) == Some(frame),
            res is Ok ==> final(self).leaf_value(Page { number: frame.number }) == spec_entry_value(
                frame,
                flags@ | PRESENT,
            ),
            res is Ok ==> final(allocator).remaining() == old(allocator).remaining() - old(self).missing_tables(Page { number: frame.number }),
            res is Err && res != Err::<(), MapError>(MapError::FrameAllocationFailed) ==> final(self).same_entries(*old(self)) && final(allocator).remaining() == old(allocator).remaining(),
            final(self).same_translations_except(*old(self), Page { number: frame.number }),
            res is Err ==> final(self).same_translations(*old(self)),
            final(self).recursive_entry() == old(self).recursive_entry(),
    {
        let page = Page::containing_address(frame.start_address());
        self.map_to(page, frame, flags, allocator)
    }

    /// Clears the level 1 entry of `page` and says which translation the
    /// processor has to forget. Nothing is cleared where the walk to the page
    /// finds no level 1 table.
    pub fn unmap<A: FrameAllocator>(&mut self, page: Page, allocator: &mut A) -> (res: Result<
        TlbFlush,
        UnmapError,
    >)
        requires
            old(self).wf(),
            page.number <= crate::memory::paging::page::MAX_PAGE_NUMBER,
            is_canonical((page.number * PAGE_SIZE) as u64),
            !(page.spec_p4_index() == 511 && page.spec_p3_index() == 511 && page.spec_p2_index()
                == 511 && page.spec_p1_index() == 511),
        ensures
            final(self).wf(),
            *final(allocator) == *old(allocator),
            res is Ok <==> old(self).has_p1(page),
            res is Ok ==> res == Ok::<TlbFlush, UnmapError>(TlbFlush::Page((page.number * PAGE_SIZE) as u64)),
            res is Ok ==> final(self).leaf_value(page) == 0 && final(self).translation(page) is None,
            res is Ok ==> final(self).shape() == shape_after_unmap(old(self).shape(), page),
            res is Ok && page.spec_p4_index() != 511 ==> final(self).has_p1(page),
            page.spec_p4_index() != 511 ==> final(self).recursive_entry() == old(self).recursive_entry(),
            res is Ok ==> final(self).leaf(page) == 0,
            res is Ok ==> forall|a: u64, i: int|
                (a != p1_address(page) || i != page.spec_p1_index()) ==> #[trigger] final(self).entry_value(a, i) == old(self).entry_value(a, i),
            res is Err ==> res == Err::<TlbFlush, UnmapError>(UnmapError::PageNotMapped) && final(self).same_entries(*old(self)),
            page.spec_p4_index() != 511 ==> final(self).same_translations_except(*old(self), page),
    {
        let ghost before = *self;
        match self.navigate_to_p1_table_mut(page) {
            None => Err(UnmapError::PageNotMapped),
            Some(p1) => {
                proof {
                    lemma_flag_facts();
                }
                self.set_entry(p1, page.p1_index(), Entry::new());
                proof {
                    if page.spec_p4_index() != 511 {
                        lemma_step_leaf(before, *self, page);
                        lemma_window_tables_apart(page);
                    }
                    assert(self.shape() =~= shape_after_unmap(before.shape(), page));
                }
                Ok(TlbFlush::Page(page.start_address()))
            },
        }
    }
}


/// One mapping to make: a page, the frame it goes to, and the flags.
#[derive(Debug, Clone, Copy)]
pub struct Mapping {
    pub page: Page,
    pub frame: Frame,
    pub flags: EntryFlags,
}

/// Whether no page of `mappings` lies in the recursive window.
pub open spec fn outside_window(mappings: Seq<Mapping>) -> bool {
    forall|i: int| 0 <= i < mappings.len() ==> (#[trigger] mappings[i]).page.spec_p4_index() != 511
}

/// Whether `page` has the table indices of one of the first `n` pages of
/// `mappings`.
pub open spec fn listed(mappings: Seq<Mapping>, n: int, page: Page) -> bool {
    exists|i: int| 0 <= i < n && i < mappings.len() && page.same_indices((#[trigger] mappings[i]).page)
}

impl Mapper {
    /// Points the recursive entry of the level 4 table at `frame`.
    pub fn set_recursive_entry(&mut self, frame: Frame)
        requires
            old(self).wf(),
            frame.is_addressable(),
        ensures
            final(self).wf(),
            final(self).recursive_entry() == spec_entry_value(frame, PRESENT | WRITABLE),
            spec_pointed_frame(final(self).recursive_entry()) == Some(frame),
            forall|a: u64, i: int|
                (a != P4_TABLE_ADDRESS || i != 511) ==> #[trigger] final(self).entry_value(a, i) == old(self).entry_value(a, i),
            final(self).same_translations(*old(self)),
    {
        let mut link = Entry::new();
        link.set(frame, EntryFlags::from_bits_truncate(PRESENT | WRITABLE));
        proof {
            lemma_flag_facts();
            lemma_set_then_read(frame, WRITABLE);
        }
        let ghost before = *self;
        self.set_entry(P4_TABLE_ADDRESS, 511, link);
        proof {
            assert forall|q: Page| q.spec_p4_index() != 511 implies #[trigger] self.leaf(q)
                == before.leaf(q) by {
            }
        }
    }

    /// Makes the mappings of `mappings` in turn and stops at the first that
    /// cannot be made: one whose page has its level 1 entry in use, one below
    /// a huge page, or one for whose tables no frame is left.
    pub fn map_all<A: FrameAllocator>(&mut self, mappings: &Vec<Mapping>, allocator: &mut A) -> (res:
        Result<(), MapError>)
        requires
            old(self).wf(),
            old(allocator).wf(),
            forall|i: int| 0 <= i < mappings.len() ==> (#[trigger] mappings[i]).frame.is_addressable(),
        ensures
            final(self).wf(),
            final(allocator).wf(),
            final(self).recursive_entry() == old(self).recursive_entry(),
            res == shape_map_all(old(self).shape(), mappings@, 0, old(allocator).remaining()).result,
            res is Ok ==> final(self).shape() == shape_map_all(
                old(self).shape(),
                mappings@,
                0,
                old(allocator).remaining(),
            ).shape && final(allocator).remaining() == shape_map_all(
                old(self).shape(),
                mappings@,
                0,
                old(allocator).remaining(),
            ).frames,
            outside_window(mappings@) && res is Ok ==> listed_mapped(
                *final(self),
                mappings@,
                mappings.len() as int,
            ),
            outside_window(mappings@) ==> others_kept(
                *final(self),
                *old(self),
                mappings@,
                mappings.len() as int,
            ),
    {
        let mut i: usize = 0;
        proof {
            lemma_map_all_start(*self, mappings@);
        }
        while i < mappings.len()
            invariant
                i <= mappings.len(),
                self.wf(),
                allocator.wf(),
                self.recursive_entry() == old(self).recursive_entry(),
                shape_map_all(old(self).shape(), mappings@, 0, old(allocator).remaining())
                    == shape_map_all(self.shape(), mappings@, i as int, allocator.remaining()),
                forall|j: int| 0 <= j < mappings.len() ==> (#[trigger] mappings[j]).frame.is_addressable(),
                outside_window(mappings@) ==> listed_mapped(*self, mappings@, i as int),
                outside_window(mappings@) ==> others_kept(*self, *old(self), mappings@, i as int),
            decreases mappings.len() - i,
        {
            let mapping = mappings[i];
            let ghost before = *self;
            proof {
                lemma_shape_result(before, mapping.page, allocator.remaining());
            }
            if self.is_in_use(mapping.page) {
                proof {
                    if outside_window(mappings@) {
                        lemma_others_kept_wider(*self, *old(self), mappings@, i as int);
                    }
                }
                return Err(MapError::PageAlreadyMapped);
            }
            let mapped = self.map_to(mapping.page, mapping.frame, mapping.flags, allocator);
            proof {
                if outside_window(mappings@) {
                    lemma_map_all_step(*old(self), before, *self, mappings@, i as int, mapped is Ok);
                }
            }
            match mapped {
                Ok(()) => {},
                Err(e) => { return Err(e); },
            }
            i += 1;
        }
        Ok(())
    }
}

/// The bits of the level 1 entry of a page that the mapping `mapping` has
/// made: the address of the frame, the flags of the mapping, and the present
/// flag.
pub open spec fn mapped_entry(mapping: Mapping) -> u64 {
    spec_entry_value(mapping.frame, mapping.flags@ | PRESENT)
}

/// Whether each of the first `n` pages of `mappings` has the level 1 entry
/// in `mapper` that its mapping asks for, and so is mapped to its frame with
/// its flags.
#[verifier::opaque]
pub open spec fn listed_mapped(mapper: Mapper, mappings: Seq<Mapping>, n: int) -> bool {
    forall|i: int|
        0 <= i < n && i < mappings.len() ==> mapper.leaf((#[trigger] mappings[i]).page) == mapped_entry(
            mappings[i],
        ) && mapper.translation(mappings[i].page) == Some(mappings[i].frame)
}

/// Whether every page outside the recursive window that is none of the
/// first `n` pages of `mappings` has the level 1 entry in `after` that it
/// has in `before`.
#[verifier::opaque]
pub open spec fn others_kept(after: Mapper, before: Mapper, mappings: Seq<Mapping>, n: int) -> bool {
    forall|q: Page|
        q.spec_p4_index() != 511 && !listed(mappings, n, q) ==> #[trigger] after.leaf(q) == before.leaf(q)
}

/// A hierarchy keeps what it holds itself.
pub proof fn lemma_others_kept_same(mapper: Mapper, mappings: Seq<Mapping>, n: int)
    ensures
        others_kept(mapper, mapper, mappings, n),
{
    reveal(others_kept);
}

/// Before any mapping is made nothing has changed.
proof fn lemma_map_all_start(mapper: Mapper, mappings: Seq<Mapping>)
    ensures
        listed_mapped(mapper, mappings, 0),
        others_kept(mapper, mapper, mappings, 0),
{
    reveal(listed_mapped);
    reveal(others_kept);
}

/// What is kept of the pages that are not listed is kept of those that are
/// not among all the listed.
proof fn lemma_others_kept_wider(after: Mapper, initial: Mapper, mappings: Seq<Mapping>, n: int)
    requires
        n <= mappings.len(),
        others_kept(after, initial, mappings, n),
    ensures
        others_kept(after, initial, mappings, mappings.len() as int),
{
    reveal(others_kept);
    assert forall|q: Page|
        q.spec_p4_index() != 511 && !listed(mappings, mappings.len() as int, q) implies #[trigger] after.leaf(
        q,
    ) == initial.leaf(q) by {
        assert(!listed(mappings, n, q));
    }
}

/// What one more mapping keeps of what holds of those before it.
proof fn lemma_map_all_step(
    initial: Mapper,
    before: Mapper,
    after: Mapper,
    mappings: Seq<Mapping>,
    i: int,
    ok: bool,
)
    requires
        outside_window(mappings),
        0 <= i < mappings.len(),
        listed_mapped(before, mappings, i),
        others_kept(before, initial, mappings, i),
        after.same_translations_except(before, mappings[i].page),
        !before.spec_is_in_use(mappings[i].page),
        ok ==> after.translation(mappings[i].page) == Some(mappings[i].frame) && after.leaf(
            mappings[i].page,
        ) == mapped_entry(mappings[i]),
        !ok ==> after.same_translations(before),
    ensures
        ok ==> listed_mapped(after, mappings, i + 1) && others_kept(after, initial, mappings, i + 1),
        !ok ==> others_kept(after, initial, mappings, mappings.len() as int),
{
    reveal(listed_mapped);
    reveal(others_kept);
    let page = mappings[i].page;
    if ok {
        assert forall|j: int| 0 <= j < i + 1 implies after.leaf((#[trigger] mappings[j]).page)
            == mapped_entry(mappings[j]) && after.translation(mappings[j].page) == Some(
            mappings[j].frame,
        ) by {
            if j < i {
                let earlier = mappings[j].page;
                assert(before.translation(earlier) == Some(mappings[j].frame));
                assert(before.leaf(earlier) != 0);
                assert(!earlier.same_indices(page));
                assert(after.leaf(earlier) == before.leaf(earlier));
            }
        }
        assert forall|q: Page|
            q.spec_p4_index() != 511 && !listed(mappings, i + 1, q) implies #[trigger] after.leaf(q)
            == initial.leaf(q) by {
            assert(!q.same_indices(mappings[i].page));
            assert(!listed(mappings, i, q));
            assert(after.leaf(q) == before.leaf(q));
        }
    } else {
        assert forall|q: Page|
            q.spec_p4_index() != 511 && !listed(
                mappings,
                mappings.len() as int,
                q,
            ) implies #[trigger] after.leaf(q) == initial.leaf(q) by {
            assert(!listed(mappings, i, q));
            assert(after.leaf(q) == before.leaf(q));
        }
    }
}

/// The level 1 table of a page outside the recursive window is not the
/// level 4 table.
pub proof fn lemma_window_tables_apart(page: Page)
    requires
        page.spec_p4_index() != 511,
    ensures
        p1_address(page) != P4_TABLE_ADDRESS,
        p2_address(page) != P4_TABLE_ADDRESS,
        p3_address(page) != P4_TABLE_ADDRESS,
{
}

/// A table of a hierarchy: the address at which the recursive mapping shows
/// it, and the frame that holds it.
#[derive(Debug, Clone, Copy, PartialEq, Eq, Structural)]
pub struct TableRef {
    pub address: u64,
    pub frame: Frame,
}

/// Whether the walk goes on below the entry `index` of a table of the level
/// `level`: the level has tables below it, and the entry is not the
/// recursive entry of the level 4 table.
pub open spec fn leads_down(level: nat, index: int) -> bool {
    2 <= level <= 4 && 0 <= index < 512 && !(level == 4 && index == 511)
}

impl Mapper {
    /// The table below the entry `index` of the table at `address`.
    pub open spec fn table_below(&self, address: u64, index: int) -> TableRef {
        TableRef {
            address: spec_next_table_address(address, index as usize),
            frame: spec_pointed_frame(self.entry_value(address, index)).unwrap(),
        }
    }

    /// The tables below the entries from `from` on of the table at `address`,
    /// which is of the level `level`: each table that an entry points at,
    /// followed by the tables below it, in the order of the entries.
    pub open spec fn tables_below(&self, address: u64, level: nat, from: int) -> Seq<TableRef>
        decreases level, 512 - from,
    {
        if level < 2 || level > 4 || from < 0 || from >= 512 {
            Seq::empty()
        } else if leads_down(level, from) && is_table_link(self.entry_value(address, from)) {
            seq![self.table_below(address, from)] + self.tables_below(
                self.table_below(address, from).address,
                (level - 1) as nat,
                0,
            ) + self.tables_below(address, level, from + 1)
        } else {
            self.tables_below(address, level, from + 1)
        }
    }

    /// Every table of the hierarchy whose level 4 table lies in `p4_frame`:
    /// the level 4 table first, then the tables below its entries.
    pub open spec fn all_tables(&self, p4_frame: Frame) -> Seq<TableRef> {
        seq![TableRef { address: P4_TABLE_ADDRESS, frame: p4_frame }] + self.tables_below(
            P4_TABLE_ADDRESS,
            4,
            0,
        )
    }

    /// Appends the tables below the table at `address`, of the level `level`.
    fn collect_tables(&self, address: u64, level: u8, out: &mut Vec<TableRef>)
        requires
            self.wf(),
            1 <= level <= 4,
        ensures
            final(out)@ == old(out)@ + self.tables_below(address, level as nat, 0),
        decreases level,
    {
        if level < 2 {
            assert(out@ + Seq::<TableRef>::empty() == out@);
            return ;
        }
        let mut index: usize = 0;
        assert(out@ + Seq::<TableRef>::empty() == out@);
        while index < 512
            invariant
                self.wf(),
                2 <= level <= 4,
                index <= 512,
                out@ + self.tables_below(address, level as nat, index as int) == old(out)@
                    + self.tables_below(address, level as nat, 0),
            decreases 512 - index,
        {
            let ghost before = out@;
            let ghost rest = self.tables_below(address, level as nat, index + 1);
            if !(level == 4 && index == 511) {
                match self.next_table(address, index) {
                    Some(child) => {
                        let frame = match self.entry(address, index).pointed_frame() {
                            Some(frame) => frame,
                            None => vstd::pervasive::unreached(),
                        };
                        out.push(TableRef { address: child, frame });
                        self.collect_tables(child, level - 1, out);
                        proof {
                            let below = self.tables_below(child, (level - 1) as nat, 0);
                            let own = seq![self.table_below(address, index as int)];
                            assert(out@ == before + own + below);
                            assert(before + own + below + rest == before + (own + below + rest));
                        }
                    },
                    None => {},
                }
            }
            index += 1;
        }
        assert(out@ + Seq::<TableRef>::empty() == out@);
    }

    /// Every table of the hierarchy, whose level 4 table lies in `p4_frame`:
    /// what has to be written to memory for the processor to walk it.
    pub fn table_list(&self, p4_frame: Frame) -> (list: Vec<TableRef>)
        requires
            self.wf(),
        ensures
            list@ == self.all_tables(p4_frame),
    {
        let mut list: Vec<TableRef> = Vec::new();
        list.push(TableRef { address: P4_TABLE_ADDRESS, frame: p4_frame });
        self.collect_tables(P4_TABLE_ADDRESS, 4, &mut list);
        list
    }
}

/// The tables below a table hold the table below each of its entries that
/// points at one, and whatever the tables below that table hold.
pub proof fn lemma_tables_below_hold(mapper: Mapper, address: u64, level: nat, from: int, index: int)
    requires
        0 <= from <= index < 512,
        leads_down(level, index),
        is_table_link(mapper.entry_value(address, index)),
    ensures
        mapper.tables_below(address, level, from).contains(mapper.table_below(address, index)),
        forall|table: TableRef|
            mapper.tables_below(mapper.table_below(address, index).address, (level - 1) as nat, 0).contains(
                table,
            ) ==> #[trigger] mapper.tables_below(address, level, from).contains(table),
    decreases index - from,
{
    let all = mapper.tables_below(address, level, from);
    let rest = mapper.tables_below(address, level, from + 1);
    if from == index {
        let own = seq![mapper.table_below(address, index)];
        let below = mapper.tables_below(mapper.table_below(address, index).address, (level - 1) as nat, 0);
        assert(all == own + below + rest);
        assert(all[0] == mapper.table_below(address, index));
        assert forall|table: TableRef| below.contains(table) implies #[trigger] all.contains(table) by {
            let k = choose|k: int| 0 <= k < below.len() && below[k] == table;
            assert(all[1 + k] == table);
        }
    } else {
        lemma_tables_below_hold(mapper, address, level, from + 1, index);
        if leads_down(level, from) && is_table_link(mapper.entry_value(address, from)) {
            let own = seq![mapper.table_below(address, from)];
            let below = mapper.tables_below(
                mapper.table_below(address, from).address,
                (level - 1) as nat,
                0,
            );
            assert(all == own + below + rest);
            assert forall|table: TableRef| rest.contains(table) implies #[trigger] all.contains(table) by {
                let k = choose|k: int| 0 <= k < rest.len() && rest[k] == table;
                assert(all[1 + below.len() + k] == table);
            }
        }
    }
}

/// No table is left out of the list of all tables: the list holds the
/// three tables below the level 4 table on the walk to any mapped page
/// outside the recursive window, each with the frame that the entry above
/// it points at.
pub proof fn lemma_walk_tables_listed(mapper: Mapper, p4_frame: Frame, page: Page)
    requires
        page.spec_p4_index() != 511,
        mapper.has_p1(page),
    ensures
        mapper.all_tables(p4_frame).contains(
            TableRef {
                address: p3_address(page),
                frame: spec_pointed_frame(
                    mapper.entry_value(P4_TABLE_ADDRESS, page.spec_p4_index() as int),
                ).unwrap(),
            },
        ),
        mapper.all_tables(p4_frame).contains(
            TableRef {
                address: p2_address(page),
                frame: spec_pointed_frame(
                    mapper.entry_value(p3_address(page), page.spec_p3_index() as int),
                ).unwrap(),
            },
        ),
        mapper.all_tables(p4_frame).contains(
            TableRef {
                address: p1_address(page),
                frame: spec_pointed_frame(
                    mapper.entry_value(p2_address(page), page.spec_p2_index() as int),
                ).unwrap(),
            },
        ),
{
    let i4 = page.spec_p4_index();
    let i3 = page.spec_p3_index();
    let i2 = page.spec_p2_index();
    lemma_next_table_address(511, 511, i4);
    lemma_next_table_address(511, i4, i3);
    lemma_next_table_address(i4, i3, i2);
    let p3 = mapper.table_below(P4_TABLE_ADDRESS, i4 as int);
    let p2 = mapper.table_below(p3_address(page), i3 as int);
    let p1 = mapper.table_below(p2_address(page), i2 as int);
    lemma_tables_below_hold(mapper, P4_TABLE_ADDRESS, 4, 0, i4 as int);
    lemma_tables_below_hold(mapper, p3_address(page), 3, 0, i3 as int);
    lemma_tables_below_hold(mapper, p2_address(page), 2, 0, i2 as int);
    let below4 = mapper.tables_below(P4_TABLE_ADDRESS, 4, 0);
    let below3 = mapper.tables_below(p3_address(page), 3, 0);
    let below2 = mapper.tables_below(p2_address(page), 2, 0);
    assert(below2.contains(p1));
    assert(below3.contains(p2));
    assert(below3.contains(p1));
    assert(below4.contains(p3));
    assert(below4.contains(p2));
    assert(below4.contains(p1));
    let all = mapper.all_tables(p4_frame);
    assert forall|table: TableRef| below4.contains(table) implies #[trigger] all.contains(table) by {
        let k = choose|k: int| 0 <= k < below4.len() && below4[k] == table;
        assert(all[1 + k] == table);
    }
}

} // verus!
