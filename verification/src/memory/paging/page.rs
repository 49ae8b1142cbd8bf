//! Virtual pages and ranges of pages.

use vstd::prelude::*;
use crate::memory::frame_allocator::{Frame, FrameAllocator};
use crate::memory::paging::entry::{spec_entry_value, spec_pointed_frame};
use crate::memory::paging::mapper::{
    listed_mapped, others_kept, outside_window, MapError, Mapper, Mapping, TableRef, TlbFlush,
    UnmapError,
};
use crate::memory::paging::shape::{
    fresh_shape, leaf_kind, shape_after_map_to, shape_after_unmap, shape_map_all, shape_map_result,
    shape_map_to_result, shape_missing,
};
use crate::memory::paging::table::P4_TABLE_ADDRESS;
use crate::memory::paging::temporary_page::TemporaryPage;
use crate::memory::paging::{EntryFlags, PRESENT, WRITABLE};
use crate::memory::PAGE_SIZE;

verus! {

/// The greatest page number of a canonical address.
pub const MAX_PAGE_NUMBER: u64 = 0xf_ffff_ffff_ffff;

/// Whether a virtual address is canonical: bits 48 to 63 repeat bit 47.
pub open spec fn is_canonical(address: u64) -> bool {
    address < 0x0000_8000_0000_0000 || address >= 0xffff_8000_0000_0000
}

/// A page of virtual memory, named by its address divided by the page size.
#[derive(Debug, Clone, Copy, PartialEq, Eq, PartialOrd, Ord, Structural)]
pub struct Page {
    pub number: u64,
}

impl Page {
    /// The index into the level 4 table: bits 27 to 35 of the page number.
    pub open spec fn spec_p4_index(&self) -> usize {
        ((self.number / 0x800_0000) % 512) as usize
    }

    /// The index into the level 3 table: bits 18 to 26 of the page number.
    pub open spec fn spec_p3_index(&self) -> usize {
        ((self.number / 0x4_0000) % 512) as usize
    }

    /// The index into the level 2 table: bits 9 to 17 of the page number.
    pub open spec fn spec_p2_index(&self) -> usize {
        ((self.number / 0x200) % 512) as usize
    }

    /// The index into the level 1 table: bits 0 to 8 of the page number.
    pub open spec fn spec_p1_index(&self) -> usize {
        (self.number % 512) as usize
    }

    /// Whether two pages are told apart by none of their four table indices.
    pub open spec fn same_indices(&self, other: Page) -> bool {
        &&& self.spec_p4_index() == other.spec_p4_index()
        &&& self.spec_p3_index() == other.spec_p3_index()
        &&& self.spec_p2_index() == other.spec_p2_index()
        &&& self.spec_p1_index() == other.spec_p1_index()
    }

    /// The page that holds the canonical virtual address `address`.
    pub fn containing_address(address: u64) -> (page: Page)
        requires
            is_canonical(address),
        ensures
            page.number == address / PAGE_SIZE,
            page.number <= MAX_PAGE_NUMBER,
    {
        Page { number: address / PAGE_SIZE }
    }

    /// The first virtual address of the page.
    pub fn start_address(&self) -> (address: u64)
        requires
            self.number <= MAX_PAGE_NUMBER,
        ensures
            address == self.number * PAGE_SIZE,
    {
        self.number * PAGE_SIZE
    }

    /// The index of the page's entry in the level 4 table.
    #[verifier::when_used_as_spec(spec_p4_index)]
    pub fn p4_index(&self) -> (index: usize)
        ensures
            index == self.spec_p4_index(),
            index < 512,
    {
        ((self.number / 0x800_0000) % 512) as usize
    }

    /// The index of the page's entry in its level 3 table.
    #[verifier::when_used_as_spec(spec_p3_index)]
    pub fn p3_index(&self) -> (index: usize)
        ensures
            index == self.spec_p3_index(),
            index < 512,
    {
        ((self.number / 0x4_0000) % 512) as usize
    }

    /// The index of the page's entry in its level 2 table.
    #[verifier::when_used_as_spec(spec_p2_index)]
    pub fn p2_index(&self) -> (index: usize)
        ensures
            index == self.spec_p2_index(),
            index < 512,
    {
        ((self.number / 0x200) % 512) as usize
    }

    /// The index of the page's entry in its level 1 table.
    #[verifier::when_used_as_spec(spec_p1_index)]
    pub fn p1_index(&self) -> (index: usize)
        ensures
            index == self.spec_p1_index(),
            index < 512,
    {
        (self.number % 512) as usize
    }

    /// The pages from `start` to `end`, both included, in rising order.
    pub fn range_inclusive(start: Page, end: Page) -> (iter: PageIter)
        ensures
            iter.start == start,
            iter.end == end,
    {
        PageIter { start, end }
    }

    /// The page `rhs` pages above this one.
    pub fn add(self, rhs: u64) -> (page: Page)
        requires
            self.number + rhs <= u64::MAX,
        ensures
            page.number == self.number + rhs,
    {
        Page { number: self.number + rhs }
    }
}

/// The pages between two pages, both included, handed out in rising order.
#[derive(Debug, Clone, Copy)]
pub struct PageIter {
    pub start: Page,
    pub end: Page,
}

impl PageIter {
    /// How many pages are still to come.
    pub open spec fn remaining(&self) -> nat {
        if self.start.number <= self.end.number {
            (self.end.number - self.start.number + 1) as nat
        } else {
            0
        }
    }

    /// The next page of the range, if one is left.
    pub fn next(&mut self) -> (res: Option<Page>)
        requires
            old(self).end.number < u64::MAX,
        ensures
            final(self).end == old(self).end,
            old(self).remaining() == 0 ==> res.is_none() && *final(self) == *old(self),
            old(self).remaining() > 0 ==> res == Some(old(self).start)
                && final(self).start.number == old(self).start.number + 1,
    {
        if self.start.number <= self.end.number {
            let page = self.start;
            self.start.number += 1;
            Some(page)
        } else {
            None
        }
    }

    /// Skips `n` pages and hands out the one after them. Where fewer than
    /// `n + 1` pages are left, the range is used up and nothing is handed out.
    pub fn nth(&mut self, n: u64) -> (res: Option<Page>)
        requires
            old(self).end.number < u64::MAX,
        ensures
            final(self).end == old(self).end,
            old(self).remaining() > n ==> res == Some(Page { number: (old(self).start.number + n) as u64 })
                && final(self).start.number == old(self).start.number + n + 1,
            old(self).remaining() <= n ==> res.is_none() && final(self).remaining() == 0,
    {
        if self.start.number <= self.end.number && n <= self.end.number - self.start.number {
            let page = Page { number: self.start.number + n };
            self.start.number = page.number + 1;
            Some(page)
        } else {
            if self.start.number <= self.end.number {
                self.start.number = self.end.number + 1;
            }
            None
        }
    }
}


/// The hierarchy of page tables that the processor translates through.
pub struct ActivePageTable {
    mapper: Mapper,
    p4_frame: Frame,
}

impl View for ActivePageTable {
    type V = Mapper;

    closed spec fn view(&self) -> Mapper {
        self.mapper
    }
}

impl ActivePageTable {
    /// The frame of the level 4 table: what the root register holds.
    pub closed spec fn p4_frame(&self) -> Frame {
        self.p4_frame
    }

    /// The hierarchy is well formed and its recursive entry points at the
    /// frame of its own level 4 table, present and writable.
    pub open spec fn wf(&self) -> bool {
        &&& self@.wf()
        &&& self.p4_frame().is_addressable()
        &&& self@.recursive_entry() == spec_entry_value(self.p4_frame(), PRESENT | WRITABLE)
    }

    /// The hierarchy whose level 4 table lies in `p4_frame` and holds the
    /// recursive entry alone: every other entry is unused.
    pub fn new(p4_frame: Frame) -> (table: ActivePageTable)
        requires
            p4_frame.is_addressable(),
        ensures
            table.wf(),
            table.p4_frame() == p4_frame,
            table@.shape() == fresh_shape(),
            forall|address: u64, index: int|
                !(address == P4_TABLE_ADDRESS && index == 511) ==> #[trigger] table@.entry_value(
                    address,
                    index,
                ) == 0,
            forall|page: Page| page.spec_p4_index() != 511 ==> #[trigger] table@.leaf(page) == 0,
            forall|page: Page| page.spec_p4_index() != 511 ==> #[trigger] table@.translation(page) is None,
    {
        let mapper = Mapper::new(p4_frame);
        proof {
            crate::memory::paging::mapper::lemma_flag_facts();
            crate::memory::paging::entry::lemma_set_then_read(p4_frame, WRITABLE);
            assert(mapper.shape() =~= fresh_shape());
        }
        ActivePageTable { mapper, p4_frame }
    }

    /// Whether the level 1 entry of `page` holds anything.
    pub fn is_in_use(&self, page: Page) -> (res: bool)
        requires
            self.wf(),
        ensures
            res == self@.spec_is_in_use(page),
    {
        self.mapper.is_in_use(page)
    }

    /// Every table of the hierarchy, the level 4 table first: what has to
    /// be written to memory before the root register is loaded.
    pub fn table_list(&self) -> (list: Vec<TableRef>)
        requires
            self.wf(),
        ensures
            list@ == self@.all_tables(self.p4_frame()),
    {
        self.mapper.table_list(self.p4_frame)
    }

    /// The frame of the level 4 table.
    pub fn root_frame(&self) -> (frame: Frame)
        ensures
            frame == self.p4_frame(),
    {
        self.p4_frame
    }

    /// The tables of the hierarchy.
    pub fn mapper(&self) -> (mapper: &Mapper)
        ensures
            *mapper == self@,
    {
        &self.mapper
    }

    /// The frame that `page` is mapped to, if it is mapped.
    pub fn translate_page(&self, page: Page) -> (res: Option<Frame>)
        requires
            self.wf(),
        ensures
            res == self@.translation(page),
    {
        self.mapper.translate_page(page)
    }

    /// The physical address that `virtual_address` is mapped to, if its page
    /// is mapped.
    pub fn translate(&self, virtual_address: u64) -> (res: Option<u64>)
        requires
            self.wf(),
            is_canonical(virtual_address),
        ensures
            res == match self@.translation(Page { number: virtual_address / PAGE_SIZE }) {
                Some(frame) => Some((frame.number * PAGE_SIZE + virtual_address % PAGE_SIZE) as u64),
                None => None::<u64>,
            },
    {
        self.mapper.translate(virtual_address)
    }

    /// Maps `page` to `frame`: see `Mapper::map_to`.
    pub fn map_to<A: FrameAllocator>(
        &mut self,
        page: Page,
        frame: Frame,
        flags: EntryFlags,
        allocator: &mut A,
    ) -> (res: Result<(), MapError>)
        requires
            old(self).wf(),
            old(allocator).wf(),
            frame.is_addressable(),
            !old(self)@.spec_is_in_use(page),
        ensures
            final(self).wf(),
            res != Err::<(), MapError>(MapError::PageAlreadyMapped),
            res is Ok ==> final(self)@.leaf(page) == spec_entry_value(frame, flags@ | PRESENT),
            res is Ok ==> final(self)@.leaf_flags(page) == flags@ | PRESENT,
            final(self).p4_frame() == old(self).p4_frame(),
            final(allocator).wf(),
            res == old(self)@.map_to_result(page, old(allocator).remaining()),
            res == shape_map_to_result(old(self)@.shape(), page, old(allocator).remaining()),
            res is Ok ==> final(self)@.shape() == shape_after_map_to(
                old(self)@.shape(),
                page,
                leaf_kind(flags@),
            ),
            res is Ok ==> final(self)@.translation(page) == Some(frame),
            res is Ok ==> final(self)@.leaf_value(page) == spec_entry_value(frame, flags@ | PRESENT),
            res is Ok ==> final(allocator).remaining() == old(allocator).remaining() - old(self)@.missing_tables(page),
            res is Err && res != Err::<(), MapError>(MapError::FrameAllocationFailed) ==> final(self)@.same_entries(old(self)@) && final(allocator).remaining() == old(allocator).remaining(),
            res == Err::<(), MapError>(MapError::FrameAllocationFailed) ==> final(allocator).remaining() == 0,
            page.spec_p4_index() != 511 ==> final(self)@.same_translations_except(old(self)@, page),
            page.spec_p4_index() != 511 && res is Err ==> final(self)@.same_translations(old(self)@),
    {
        self.mapper.map_to(page, frame, flags, allocator)
    }

    /// Takes a frame from `allocator` and maps `page` to it: see
    /// `Mapper::map`.
    pub fn map<A: FrameAllocator>(&mut self, page: Page, flags: EntryFlags, allocator: &mut A) -> (res:
        Result<(), MapError>)
        requires
            old(self).wf(),
            old(allocator).wf(),
            !old(self)@.spec_is_in_use(page),
        ensures
            final(self).wf(),
            res != Err::<(), MapError>(MapError::PageAlreadyMapped),
            res is Ok ==> final(self)@.leaf(page) == spec_entry_value(
                old(allocator).next_frame().unwrap(),
                flags@ | PRESENT,
            ),
            res is Ok ==> final(self)@.leaf_flags(page) == flags@ | PRESENT,
            final(self).p4_frame() == old(self).p4_frame(),
            final(allocator).wf(),
            res == if old(allocator).remaining() == 0 {
                Err::<(), MapError>(MapError::FrameAllocationFailed)
            } else {
                old(self)@.map_to_result(page, (old(allocator).remaining() - 1) as nat)
            },
            res == shape_map_result(old(self)@.shape(), page, old(allocator).remaining()),
            old(self)@.missing_tables(page) == shape_missing(old(self)@.shape(), page),
            res is Ok ==> final(self)@.shape() == shape_after_map_to(
                old(self)@.shape(),
                page,
                leaf_kind(flags@),
            ),
            res is Ok ==> old(self)@.translation(page) is None,
            res is Ok ==> final(self)@.translation(page) == old(allocator).next_frame(),
            res is Ok ==> final(self)@.translation(page) is Some,
            res is Ok ==> final(allocator).remaining() == old(allocator).remaining() - 1 - old(self)@.missing_tables(page),
            page.spec_p4_index() != 511 ==> final(self)@.same_translations_except(old(self)@, page),
            page.spec_p4_index() != 511 && res is Err ==> final(self)@.same_translations(old(self)@),
    {
        self.mapper.map(page, flags, allocator)
    }

    /// Maps the page with the address of `frame` to `frame`: see
    /// `Mapper::identity_map`.
    pub fn identity_map<A: FrameAllocator>(
        &mut self,
        frame: Frame,
        flags: EntryFlags,
        allocator: &mut A,
    ) -> (res: Result<(), MapError>)
        requires
            old(self).wf(),
            old(allocator).wf(),
            frame.number < 0x8_0000_0000,
            !old(self)@.spec_is_in_use(Page { number: frame.number }),
        ensures
            final(self).wf(),
            res != Err::<(), MapError>(MapError::PageAlreadyMapped),
            res is Ok ==> final(self)@.leaf(Page { number: frame.number }) == spec_entry_value(
                frame,
                flags@ | PRESENT,
            ),
            res is Ok ==> final(self)@.leaf_flags(Page { number: frame.number }) == flags@ | PRESENT,
            final(self).p4_frame() == old(self).p4_frame(),
            final(allocator).wf(),
            res == old(self)@.map_to_result(Page { number: frame.number }, old(allocator).remaining()),
            res is Ok ==> final(self)@.translation(Page { number: frame.number }) == Some(frame),
            final(self)@.same_translations_except(old(self)@, Page { number: frame.number }),
            res is Err ==> final(self)@.same_translations(old(self)@),
    {
        self.mapper.identity_map(frame, flags, allocator)
    }

    /// Clears the level 1 entry of `page`: see `Mapper::unmap`.
    pub fn unmap<A: FrameAllocator>(&mut self, page: Page, allocator: &mut A) -> (res: Result<
        TlbFlush,
        UnmapError,
    >)
        requires
            old(self).wf(),
            page.number <= MAX_PAGE_NUMBER,
            is_canonical((page.number * PAGE_SIZE) as u64),
            page.spec_p4_index() != 511,
        ensures
            final(self).wf(),
            final(self).p4_frame() == old(self).p4_frame(),
            *final(allocator) == *old(allocator),
            res is Ok <==> old(self)@.has_p1(page),
            res is Ok ==> res == Ok::<TlbFlush, UnmapError>(TlbFlush::Page((page.number * PAGE_SIZE) as u64)),
            res is Ok ==> final(self)@.translation(page) is None,
            res is Ok ==> final(self)@.has_p1(page) && final(self)@.leaf_value(page) == 0,
            res is Ok ==> final(self)@.leaf(page) == 0,
            res is Ok ==> final(self)@.shape() == shape_after_unmap(old(self)@.shape(), page),
            res is Err ==> res == Err::<TlbFlush, UnmapError>(UnmapError::PageNotMapped) && final(self)@.same_entries(old(self)@),
            final(self)@.same_translations_except(old(self)@, page),
            res is Err ==> final(self)@.same_translations(old(self)@),
    {
        let ghost before = self.mapper;
        let res = self.mapper.unmap(page, allocator);
        proof {
            crate::memory::paging::mapper::lemma_window_tables_apart(page);
            if res is Err {
                assert forall|q: Page| q.spec_p4_index() != 511 implies #[trigger] self.mapper.leaf(q) == before.leaf(q) by {
                }
            }
        }
        res
    }
}


/// A hierarchy of page tables that the processor does not translate
/// through: it is built aside and switched to later.
pub struct InactivePageTable {
    p4_frame: Frame,
    mapper: Mapper,
}

impl View for InactivePageTable {
    type V = Mapper;

    closed spec fn view(&self) -> Mapper {
        self.mapper
    }
}

impl InactivePageTable {
    /// The frame of the level 4 table.
    pub closed spec fn p4_frame(&self) -> Frame {
        self.p4_frame
    }

    /// The frame of the level 4 table.
    pub fn root_frame(&self) -> (frame: Frame)
        ensures
            frame == self.p4_frame(),
    {
        self.p4_frame
    }

    /// The frame that `page` is mapped to in this hierarchy, if it is mapped.
    pub fn translate_page(&self, page: Page) -> (res: Option<Frame>)
        requires
            self.wf(),
        ensures
            res == self@.translation(page),
    {
        self.mapper.translate_page(page)
    }

    /// The hierarchy is well formed and its recursive entry points at the
    /// frame of its own level 4 table, present and writable.
    pub open spec fn wf(&self) -> bool {
        &&& self@.wf()
        &&& self.p4_frame().is_addressable()
        &&& self@.recursive_entry() == spec_entry_value(self.p4_frame(), PRESENT | WRITABLE)
    }

    /// Makes a level 4 table in `frame`: the frame is reached through the
    /// temporary page, cleared, and given its recursive entry. The new
    /// hierarchy maps no page outside the recursive window. Nothing is made
    /// where the temporary page cannot be mapped.
    pub fn new(
        frame: Frame,
        active_table: &mut ActivePageTable,
        temporary_page: &mut TemporaryPage,
    ) -> (res: Result<InactivePageTable, MapError>)
        requires
            old(active_table).wf(),
            old(temporary_page).wf(),
            frame.is_addressable(),
        ensures
            final(active_table).wf(),
            final(active_table).p4_frame() == old(active_table).p4_frame(),
            final(active_table)@.same_translations(old(active_table)@),
            final(temporary_page).wf(),
            final(temporary_page).page() == old(temporary_page).page(),
            res is Ok <==> old(temporary_page).map_result(old(active_table)@) is Ok,
            res matches Err(e) ==> old(temporary_page).map_result(old(active_table)@) == Err::<
                (),
                MapError,
            >(e),
            res matches Ok(table) ==> table.wf() && table.p4_frame() == frame && (forall|page: Page|
                page.spec_p4_index() != 511 ==> #[trigger] table@.translation(page) is None),
            res matches Ok(table) ==> forall|page: Page|
                page.spec_p4_index() != 511 ==> #[trigger] table@.leaf(page) == 0,
            res matches Ok(table) ==> forall|address: u64, index: int|
                !(address == P4_TABLE_ADDRESS && index == 511) ==> #[trigger] table@.entry_value(
                    address,
                    index,
                ) == 0,
            res matches Ok(table) ==> table@.shape() == fresh_shape(),
            res is Ok ==> final(temporary_page).map_result(final(active_table)@) is Ok,
    {
        let ghost before = active_table@;
        if active_table.is_in_use(temporary_page.reserved_page()) {
            return Err(MapError::PageAlreadyMapped);
        }
        match temporary_page.map_table_frame(frame, active_table) {
            Err(e) => Err(e),
            Ok(_) => {
                let ghost mapped = active_table@;
                let mapper = Mapper::new(frame);
                proof {
                    crate::memory::paging::mapper::lemma_flag_facts();
                    crate::memory::paging::entry::lemma_set_then_read(frame, WRITABLE);
                }
                let _ = temporary_page.unmap(active_table);
                proof {
                    let page = temporary_page.page();
                    assert(mapper.shape() =~= fresh_shape());
                    assert forall|q: Page| q.spec_p4_index() != 511 implies #[trigger] active_table@.leaf(q) == before.leaf(q) by {
                        if q.same_indices(page) {
                            assert(mapped.leaf_value(q) == mapped.leaf_value(page));
                            assert(active_table@.leaf_value(q) == active_table@.leaf_value(page));
                        } else {
                            assert(mapped.leaf(q) == before.leaf(q));
                        }
                    }
                }
                Ok(InactivePageTable { p4_frame: frame, mapper })
            },
        }
    }
}


impl ActivePageTable {
    /// Works on an inactive hierarchy: the level 4 table of the active one
    /// is kept reachable through the temporary page, the recursive entry is
    /// pointed at the inactive hierarchy, the mappings of `mappings` are made
    /// in it one after the other up to the first that cannot be made, and the
    /// recursive entry is pointed back. The active hierarchy translates
    /// afterwards as it did before. Interrupts have to stay off meanwhile.
    pub fn with<A: FrameAllocator>(
        &mut self,
        table: &mut InactivePageTable,
        temporary_page: &mut TemporaryPage,
        mappings: &Vec<Mapping>,
        allocator: &mut A,
    ) -> (res: Result<(), MapError>)
        requires
            old(self).wf(),
            old(table).wf(),
            old(temporary_page).wf(),
            old(allocator).wf(),
            forall|i: int| 0 <= i < mappings.len() ==> (#[trigger] mappings[i]).frame.is_addressable(),
        ensures
            final(self).wf(),
            final(self).p4_frame() == old(self).p4_frame(),
            final(self)@.recursive_entry() == old(self)@.recursive_entry(),
            final(self)@.same_translations(old(self)@),
            final(table).wf(),
            final(table).p4_frame() == old(table).p4_frame(),
            final(table)@.recursive_entry() == old(table)@.recursive_entry(),
            final(temporary_page).wf(),
            final(temporary_page).page() == old(temporary_page).page(),
            final(allocator).wf(),
            res == match old(temporary_page).map_result(old(self)@) {
                Err(e) => Err::<(), MapError>(e),
                Ok(()) => shape_map_all(
                    old(table)@.shape(),
                    mappings@,
                    0,
                    old(allocator).remaining(),
                ).result,
            },
            old(temporary_page).map_result(old(self)@) is Err ==> final(table)@.same_entries(old(table)@)
                && final(allocator).remaining() == old(allocator).remaining(),
            res is Ok ==> final(table)@.shape() == shape_map_all(
                old(table)@.shape(),
                mappings@,
                0,
                old(allocator).remaining(),
            ).shape && final(allocator).remaining() == shape_map_all(
                old(table)@.shape(),
                mappings@,
                0,
                old(allocator).remaining(),
            ).frames,
            outside_window(mappings@) && res is Ok ==> listed_mapped(
                final(table)@,
                mappings@,
                mappings.len() as int,
            ),
            outside_window(mappings@) ==> others_kept(
                final(table)@,
                old(table)@,
                mappings@,
                mappings.len() as int,
            ),
    {
        match self.enter(table, temporary_page) {
            Err(e) => {
                proof {
                    crate::memory::paging::mapper::lemma_others_kept_same(
                        table@,
                        mappings@,
                        mappings.len() as int,
                    );
                }
                return Err(e);
            },
            Ok(()) => {},
        }
        let res = self.mapper.map_all(mappings, allocator);
        self.leave(table, temporary_page, Ghost(old(self)@));
        res
    }

    /// Whether `aside` is the hierarchy `original` put aside while another
    /// is worked on: the temporary page shows its level 4 table, and nothing
    /// else has changed.
    pub open spec fn put_aside(aside: Mapper, original: Mapper, page: Page) -> bool {
        &&& aside.wf()
        &&& page.spec_p4_index() != 511
        &&& original.leaf(page) == 0
        &&& aside.has_p1(page)
        &&& aside.same_translations_except(original, page)
    }

    /// The first half of `with`: afterwards this table holds the inactive
    /// hierarchy and `table` holds the active one, put aside.
    fn enter(&mut self, table: &mut InactivePageTable, temporary_page: &mut TemporaryPage) -> (res:
        Result<(), MapError>)
        requires
            old(self).wf(),
            old(table).wf(),
            old(temporary_page).wf(),
        ensures
            final(self).p4_frame == old(self).p4_frame,
            final(table).p4_frame == old(table).p4_frame,
            final(temporary_page).wf(),
            final(temporary_page).page() == old(temporary_page).page(),
            res is Ok <==> old(temporary_page).map_result(old(self)@) is Ok,
            res matches Err(e) ==> old(temporary_page).map_result(old(self)@) == Err::<(), MapError>(e)
                && final(self).wf() && *final(table) == *old(table) && final(self)@.same_translations(
                old(self)@,
            ),
            res is Ok ==> final(self).mapper == old(table).mapper && ActivePageTable::put_aside(
                final(table).mapper,
                old(self).mapper,
                old(temporary_page).page(),
            ),
    {
        let backup = self.p4_frame;
        if self.mapper.is_in_use(temporary_page.reserved_page()) {
            return Err(MapError::PageAlreadyMapped);
        }
        match temporary_page.map_table_frame(backup, self) {
            Err(e) => { return Err(e); },
            Ok(_) => {},
        }
        self.mapper.set_recursive_entry(table.p4_frame);
        proof {
            let page = temporary_page.page();
            crate::memory::paging::mapper::lemma_window_tables_apart(page);
            assert forall|q: Page|
                q.spec_p4_index() != 511 && !q.same_indices(page) implies #[trigger] self.mapper.leaf(q) == old(self).mapper.leaf(q) by {
            }
        }
        std::mem::swap(&mut self.mapper, &mut table.mapper);
        Ok(())
    }

    /// The second half of `with`: the hierarchy that was put aside in `table`
    /// becomes this table's again, with its recursive entry pointed back and
    /// the temporary page unmapped.
    fn leave(
        &mut self,
        table: &mut InactivePageTable,
        temporary_page: &mut TemporaryPage,
        Ghost(original): Ghost<Mapper>,
    )
        requires
            old(self).mapper.wf(),
            old(self).p4_frame.is_addressable(),
            old(temporary_page).wf(),
            ActivePageTable::put_aside(old(table).mapper, original, old(temporary_page).page()),
        ensures
            final(self).wf(),
            final(self).p4_frame == old(self).p4_frame,
            final(self)@.same_translations(original),
            final(table).mapper == old(self).mapper,
            final(table).p4_frame == old(table).p4_frame,
            *final(temporary_page) == *old(temporary_page),
    {
        std::mem::swap(&mut self.mapper, &mut table.mapper);
        let ghost aside = self.mapper;
        self.mapper.set_recursive_entry(self.p4_frame);
        let ghost restored = self.mapper;
        proof {
            let page = temporary_page.page();
            crate::memory::paging::mapper::lemma_window_tables_apart(page);
            assert(restored.has_p1(page) == aside.has_p1(page));
        }
        let _ = temporary_page.unmap(self);
        proof {
            let page = temporary_page.page();
            assert forall|q: Page| q.spec_p4_index() != 511 implies #[trigger] self.mapper.leaf(q) == original.leaf(q) by {
                if q.same_indices(page) {
                    assert(self.mapper.leaf(q) == self.mapper.leaf(page));
                    assert(original.leaf(q) == original.leaf(page));
                } else {
                    assert(restored.leaf(q) == aside.leaf(q));
                }
            }
        }
    }

    /// Makes `new_table` the active hierarchy and hands back the hierarchy
    /// that was active. The root register has to be loaded with the frame
    /// of the new level 4 table.
    pub fn switch(&mut self, new_table: InactivePageTable) -> (old_table: InactivePageTable)
        requires
            old(self).wf(),
            new_table.wf(),
        ensures
            final(self).wf(),
            final(self).p4_frame() == new_table.p4_frame(),
            final(self)@ == new_table@,
            old_table.wf(),
            old_table.p4_frame() == old(self).p4_frame(),
            old_table@ == old(self)@,
    {
        let mut table = new_table;
        std::mem::swap(&mut self.mapper, &mut table.mapper);
        let frame = self.p4_frame;
        self.p4_frame = table.p4_frame;
        table.p4_frame = frame;
        table
    }
}

} // verus!
