//! One reserved page through which a frame is reached for a short time.

use vstd::prelude::*;
use crate::memory::frame_allocator::{Frame, FrameAllocator};
use crate::memory::paging::mapper::{MapError, Mapper, TlbFlush, UnmapError};
use crate::memory::paging::page::{is_canonical, ActivePageTable, Page, MAX_PAGE_NUMBER};
use crate::memory::paging::entry::spec_entry_value;
use crate::memory::paging::{EntryFlags, PRESENT, WRITABLE};
use crate::memory::PAGE_SIZE;

verus! {

/// How many of the three slots hold a frame.
pub open spec fn count_held(slots: [Option<Frame>; 3]) -> nat {
    ((if slots[0].is_some() { 1int } else { 0 })
        + (if slots[1].is_some() { 1int } else { 0 })
        + (if slots[2].is_some() { 1int } else { 0 })) as nat
}

/// An allocator that holds at most three frames: enough for the three
/// tables that mapping one page can need.
pub struct TinyAllocator(pub [Option<Frame>; 3]);

impl TinyAllocator {
    /// Takes up to three frames from `allocator`.
    pub fn new<A: FrameAllocator>(allocator: &mut A) -> (tiny: TinyAllocator)
        requires
            old(allocator).wf(),
        ensures
            final(allocator).wf(),
            tiny.wf(),
            tiny.remaining() == if old(allocator).remaining() < 3 { old(allocator).remaining() } else { 3 },
            final(allocator).remaining() == old(allocator).remaining() - tiny.remaining(),
    {
        let first = allocator.allocate_frame();
        let second = allocator.allocate_frame();
        let third = allocator.allocate_frame();
        TinyAllocator([first, second, third])
    }

    /// Takes `frame` back into a free slot.
    pub fn deallocate_frame(&mut self, frame: Frame)
        requires
            old(self).wf(),
            old(self).remaining() < 3,
            frame.is_addressable(),
        ensures
            final(self).wf(),
            final(self).remaining() == old(self).remaining() + 1,
    {
        if self.0[0].is_none() {
            self.0[0] = Some(frame);
        } else if self.0[1].is_none() {
            self.0[1] = Some(frame);
        } else {
            self.0[2] = Some(frame);
        }
    }
}

impl FrameAllocator for TinyAllocator {
    open spec fn wf(&self) -> bool {
        forall|i: int| 0 <= i < 3 ==> (#[trigger] self.0[i] matches Some(frame) ==> frame.is_addressable())
    }

    open spec fn remaining(&self) -> nat {
        count_held(self.0)
    }

    open spec fn next_frame(&self) -> Option<Frame> {
        if self.0[0].is_some() {
            self.0[0]
        } else if self.0[1].is_some() {
            self.0[1]
        } else {
            self.0[2]
        }
    }

    /// Hands out the frame of the first slot that holds one.
    fn allocate_frame(&mut self) -> (res: Option<Frame>) {
        if self.0[0].is_some() {
            let frame = self.0[0];
            self.0[0] = None;
            frame
        } else if self.0[1].is_some() {
            let frame = self.0[1];
            self.0[1] = None;
            frame
        } else if self.0[2].is_some() {
            let frame = self.0[2];
            self.0[2] = None;
            frame
        } else {
            None
        }
    }
}


/// A page that is mapped to a frame only for as long as the frame's
/// contents are worked on, with three frames of its own for the tables
/// that the mapping can need.
pub struct TemporaryPage {
    page: Page,
    allocator: TinyAllocator,
}

impl TemporaryPage {
    /// The reserved page.
    pub closed spec fn page(&self) -> Page {
        self.page
    }

    /// How many frames the page holds for tables.
    pub closed spec fn frames(&self) -> nat {
        self.allocator.remaining()
    }

    /// The frames that the page holds fit a page table entry.
    pub closed spec fn frames_wf(&self) -> bool {
        self.allocator.wf()
    }

    /// The page is canonical and lies outside the recursive window.
    pub open spec fn wf(&self) -> bool {
        &&& self.frames_wf()
        &&& self.page().number <= MAX_PAGE_NUMBER
        &&& is_canonical((self.page().number * PAGE_SIZE) as u64)
        &&& self.page().spec_p4_index() != 511
    }

    /// Reserves `page` and takes up to three frames from `allocator`.
    pub fn new<A: FrameAllocator>(page: Page, allocator: &mut A) -> (temporary: TemporaryPage)
        requires
            old(allocator).wf(),
            page.number <= MAX_PAGE_NUMBER,
            is_canonical((page.number * PAGE_SIZE) as u64),
            page.spec_p4_index() != 511,
        ensures
            final(allocator).wf(),
            temporary.wf(),
            temporary.page() == page,
            temporary.frames() == if old(allocator).remaining() < 3 {
                old(allocator).remaining()
            } else {
                3
            },
            final(allocator).remaining() == old(allocator).remaining() - temporary.frames(),
    {
        TemporaryPage { page, allocator: TinyAllocator::new(allocator) }
    }

    /// The reserved page.
    pub fn reserved_page(&self) -> (page: Page)
        ensures
            page == self.page(),
    {
        self.page
    }

    /// What mapping the page answers on the hierarchy `mapper`, for a caller
    /// that first looks whether the page is free.
    pub open spec fn map_result(&self, mapper: Mapper) -> Result<(), MapError> {
        if mapper.spec_is_in_use(self.page()) {
            Err(MapError::PageAlreadyMapped)
        } else {
            mapper.map_to_result(self.page(), self.frames())
        }
    }

    /// The bits of the level 1 entry of the page while it is mapped to
    /// `frame`: present and writable.
    pub open spec fn mapped_entry(frame: Frame) -> u64 {
        spec_entry_value(frame, WRITABLE | PRESENT)
    }

    /// Maps the page, which is not mapped, to `frame` in the active
    /// hierarchy, writable, and gives the page's address. The tables that
    /// the mapping needs come from the page's own three frames. To map the
    /// page while it is mapped is an error of the caller.
    pub fn map(&mut self, frame: Frame, active_table: &mut ActivePageTable) -> (res: Result<u64, MapError>)
        requires
            old(self).wf(),
            old(active_table).wf(),
            frame.is_addressable(),
            !old(active_table)@.spec_is_in_use(old(self).page()),
        ensures
            final(self).wf(),
            final(self).page() == old(self).page(),
            final(active_table).wf(),
            final(active_table).p4_frame() == old(active_table).p4_frame(),
            res is Ok <==> old(self).map_result(old(active_table)@) is Ok,
            res matches Err(e) ==> old(self).map_result(old(active_table)@) == Err::<(), MapError>(e),
            res matches Ok(address) ==> address == old(self).page().number * PAGE_SIZE
                && final(active_table)@.translation(old(self).page()) == Some(frame)
                && final(active_table)@.leaf(old(self).page()) == TemporaryPage::mapped_entry(frame)
                && final(self).frames() == old(self).frames() - old(active_table)@.missing_tables(
                old(self).page(),
            ),
            final(active_table)@.same_translations_except(old(active_table)@, old(self).page()),
            res is Err ==> final(active_table)@.same_translations(old(active_table)@),
    {
        proof {
            crate::memory::paging::mapper::lemma_flag_facts();
        }
        match active_table.map_to(
            self.page,
            frame,
            EntryFlags::from_bits_truncate(WRITABLE),
            &mut self.allocator,
        ) {
            Ok(()) => Ok(self.page.start_address()),
            Err(e) => Err(e),
        }
    }

    /// Unmaps the page in the active hierarchy.
    pub fn unmap(&mut self, active_table: &mut ActivePageTable) -> (res: Result<TlbFlush, UnmapError>)
        requires
            old(self).wf(),
            old(active_table).wf(),
        ensures
            *final(self) == *old(self),
            final(active_table).wf(),
            final(active_table).p4_frame() == old(active_table).p4_frame(),
            res is Ok <==> old(active_table)@.has_p1(old(self).page()),
            res is Ok ==> res == Ok::<TlbFlush, UnmapError>(
                TlbFlush::Page((old(self).page().number * PAGE_SIZE) as u64),
            ) && final(active_table)@.translation(old(self).page()) is None,
            res is Ok ==> final(self).map_result(final(active_table)@) is Ok,
            res is Ok ==> final(active_table)@.leaf(old(self).page()) == 0,
            res is Err ==> res == Err::<TlbFlush, UnmapError>(UnmapError::PageNotMapped),
            final(active_table)@.same_translations_except(old(active_table)@, old(self).page()),
            res is Err ==> final(active_table)@.same_translations(old(active_table)@),
    {
        let res = active_table.unmap(self.page, &mut self.allocator);
        proof {
            crate::memory::paging::mapper::lemma_flag_facts();
        }
        res
    }

    /// Maps the page to `frame`, which holds or is to hold a page table, and
    /// gives the address at which that table is then seen.
    pub fn map_table_frame(&mut self, frame: Frame, active_table: &mut ActivePageTable) -> (res: Result<
        u64,
        MapError,
    >)
        requires
            old(self).wf(),
            old(active_table).wf(),
            frame.is_addressable(),
            !old(active_table)@.spec_is_in_use(old(self).page()),
        ensures
            final(self).wf(),
            final(self).page() == old(self).page(),
            final(active_table).wf(),
            final(active_table).p4_frame() == old(active_table).p4_frame(),
            res is Ok <==> old(self).map_result(old(active_table)@) is Ok,
            res matches Err(e) ==> old(self).map_result(old(active_table)@) == Err::<(), MapError>(e),
            res matches Ok(address) ==> address == old(self).page().number * PAGE_SIZE
                && final(active_table)@.translation(old(self).page()) == Some(frame)
                && final(active_table)@.leaf(old(self).page()) == TemporaryPage::mapped_entry(frame)
                && final(self).frames() == old(self).frames() - old(active_table)@.missing_tables(
                old(self).page(),
            ),
            final(active_table)@.same_translations_except(old(active_table)@, old(self).page()),
            res is Err ==> final(active_table)@.same_translations(old(active_table)@),
    {
        self.map(frame, active_table)
    }
}

} // verus!
