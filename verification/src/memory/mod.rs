//! Physical frames, virtual pages, page tables and the kernel heap.

use vstd::prelude::*;
use crate::memory::boot_info::BootInformation;
use crate::memory::frame_allocator::{usable_frames, AreaFrameAllocator, Frame, FrameAllocator};
use crate::memory::paging::mapper::{mapped_entry, MapError, Mapper, Mapping};
use crate::memory::paging::page::{ActivePageTable, Page, PageIter};
use crate::memory::paging::shape::{shape_after_unmap, shape_map_pages};
use crate::memory::paging::{
    all_identity, kernel_mapped, kernel_mapping_seq, lemma_identity_outside_window, remap_outcome,
    remap_result, remap_the_kernel, RemapError,
};
use crate::memory::stack_allocator::{
    all_mapped, covered, map_page_range, none_mapped, same_outside, Stack, StackAllocator,
};

pub mod boot_info;
pub mod frame_allocator;
pub mod heap_allocator;
pub mod paging;
pub mod stack_allocator;

verus! {

/// Bytes in a page and in a frame.
pub const PAGE_SIZE: u64 = 4096;

/// Entries in a page table of any level.
pub const ENTRY_COUNT: usize = 512;

/// The greatest frame number whose address fits a page table entry.
pub const MAX_FRAME_NUMBER: u64 = 0xff_ffff_ffff;


/// The first virtual address of the kernel heap.
pub const HEAP_START: u64 = 0x4000_0000;

/// The size of the kernel heap in bytes: 100 KiB.
pub const HEAP_SIZE: u64 = 102400;

/// The first page of the kernel heap.
pub const HEAP_FIRST_PAGE: u64 = 0x4_0000;

/// The last page of the kernel heap.
pub const HEAP_LAST_PAGE: u64 = 0x4_0018;

/// How many pages lie above the first page of the range that stacks are
/// taken from.
pub const STACK_RANGE_PAGES: u64 = 100;

/// Why the memory could not be set up.
#[derive(Debug, Clone, Copy, PartialEq, Eq, Structural)]
pub enum InitError {
    /// The kernel could not be moved to its own page tables.
    Remap(RemapError),
    /// A page of the heap could not be mapped.
    Heap(MapError),
}

/// What `init` answers where the active hierarchy is `active` and the page
/// of its level 4 table is `guard`: the kernel has to be moved to its own
/// tables, and then each page of the heap has to be mapped.
pub open spec fn init_result(active: Mapper, boot_info: BootInformation, guard: Page) -> Result<
    (),
    InitError,
> {
    let frames = usable_frames(boot_info);
    match remap_result(active, frames, boot_info, guard) {
        Err(e) => Err(InitError::Remap(e)),
        Ok(()) => {
            let built = remap_outcome(frames, boot_info);
            match shape_map_pages(
                shape_after_unmap(built.shape, guard),
                HEAP_FIRST_PAGE as int,
                HEAP_LAST_PAGE - HEAP_FIRST_PAGE + 1,
                built.frames,
            ).result {
                Err(e) => Err(InitError::Heap(e)),
                Ok(()) => Ok(()),
            }
        },
    }
}

/// What the kernel holds of the memory once it is set up: the active page
/// tables, the allocator of frames, and the allocator of stacks.
pub struct MemoryController {
    active_table: ActivePageTable,
    frame_allocator: AreaFrameAllocator,
    stack_allocator: StackAllocator,
}

impl MemoryController {
    /// The active page tables.
    pub closed spec fn active_table(&self) -> ActivePageTable {
        self.active_table
    }

    /// The allocator of frames.
    pub closed spec fn frame_allocator(&self) -> AreaFrameAllocator {
        self.frame_allocator
    }

    /// The allocator of stacks.
    pub closed spec fn stack_allocator(&self) -> StackAllocator {
        self.stack_allocator
    }

    /// Each of the three parts is well formed.
    pub open spec fn wf(&self) -> bool {
        &&& self.active_table().wf()
        &&& self.frame_allocator().wf()
        &&& self.stack_allocator().wf()
    }

    /// The frame that `page` is mapped to, if it is mapped.
    pub fn translate_page(&self, page: Page) -> (res: Option<Frame>)
        requires
            self.wf(),
        ensures
            res == self.active_table()@.translation(page),
    {
        self.active_table.translate_page(page)
    }

    /// The active page tables.
    pub fn tables(&self) -> (tables: &ActivePageTable)
        ensures
            *tables == self.active_table(),
    {
        &self.active_table
    }

    /// A stack of `size_in_pages` pages with a guard page below it, mapped
    /// in the controller's tables to frames of the controller's allocator:
    /// what `StackAllocator::alloc_stack` gives on the controller's parts.
    pub fn alloc_stack(&mut self, size_in_pages: u64) -> (res: Result<Option<Stack>, MapError>)
        requires
            old(self).wf(),
        ensures
            final(self).wf(),
            final(self).active_table().p4_frame() == old(self).active_table().p4_frame(),
            size_in_pages == 0 || old(self).stack_allocator().range().remaining() <= size_in_pages
                ==> res == Ok::<Option<Stack>, MapError>(None) && *final(self) == *old(self),
            size_in_pages > 0 && old(self).stack_allocator().range().remaining() > size_in_pages ==> {
                let guard = old(self).stack_allocator().range().start.number;
                let mapped = shape_map_pages(
                    old(self).active_table()@.shape(),
                    guard + 1,
                    size_in_pages as int,
                    old(self).frame_allocator().remaining(),
                );
                &&& old(self).stack_allocator().range_taken(final(self).stack_allocator(), size_in_pages)
                &&& res is Ok <==> mapped.result is Ok
                &&& res matches Err(e) ==> mapped.result == Err::<(), MapError>(e)
                &&& res != Ok::<Option<Stack>, MapError>(None)
                &&& res matches Ok(Some(stack)) ==> stack.bottom() == (guard + 1) * PAGE_SIZE
                    && stack.top() == (guard + 1 + size_in_pages) * PAGE_SIZE && all_mapped(
                    final(self).active_table()@,
                    guard + 1,
                    guard + 1 + size_in_pages,
                ) && final(self).frame_allocator().remaining() == mapped.frames
                &&& final(self).active_table()@.leaf(Page { number: guard }) == old(self).active_table()@.leaf(Page { number: guard })
                &&& same_outside(
                    final(self).active_table()@,
                    old(self).active_table()@,
                    guard + 1,
                    guard + 1 + size_in_pages,
                )
            },
    {
        self.stack_allocator.alloc_stack(
            &mut self.active_table,
            &mut self.frame_allocator,
            size_in_pages,
        )
    }
}

/// Mapping the pages of the heap leaves the kernel's mappings in place.
proof fn lemma_heap_keeps_kernel(remapped: Mapper, after: Mapper, mappings: Seq<Mapping>, guard: Page)
    requires
        all_identity(mappings),
        guard.spec_p4_index() != 511,
        kernel_mapped(remapped, mappings, guard),
        remapped.leaf(guard) == 0,
        none_mapped(remapped, HEAP_FIRST_PAGE as int, HEAP_LAST_PAGE + 1),
        same_outside(after, remapped, HEAP_FIRST_PAGE as int, HEAP_LAST_PAGE + 1),
    ensures
        kernel_mapped(after, mappings, guard),
        !covered(guard, HEAP_FIRST_PAGE as int, HEAP_LAST_PAGE + 1) ==> after.leaf(guard) == 0
            && after.translation(guard) is None,
{
    reveal(same_outside);
    reveal(none_mapped);
    lemma_identity_outside_window(mappings);
    assert forall|i: int|
        0 <= i < mappings.len() && !(#[trigger] mappings[i]).page.same_indices(
            guard,
        ) implies after.leaf(mappings[i].page) == mapped_entry(mappings[i]) && after.translation(
        mappings[i].page,
    ) == Some(mappings[i].frame) by {
        let p = mappings[i].page;
        assert(remapped.translation(p) == Some(mappings[i].frame));
        assert(remapped.leaf(p) != 0);
        if covered(p, HEAP_FIRST_PAGE as int, HEAP_LAST_PAGE + 1) {
            let n = choose|n: int|
                HEAP_FIRST_PAGE <= n < HEAP_LAST_PAGE + 1 && #[trigger] p.same_indices(
                    Page { number: n as u64 },
                );
            assert(remapped.leaf(Page { number: n as u64 }) == remapped.leaf(p));
        }
        assert(after.leaf(p) == remapped.leaf(p));
    }
}

/// Sets the memory up: the frames of the usable areas are handed out by an
/// allocator that leaves out the kernel and the boot loader's report, the
/// kernel is moved to page tables of its own, the pages of the heap are
/// mapped, and the pages behind the heap are kept for stacks.
pub fn init(boot_info: &BootInformation, active_table: ActivePageTable) -> (res: Result<
    MemoryController,
    InitError,
>)
    requires
        boot_info.wf(),
        boot_info.elf_sections.len() > 0,
        active_table.wf(),
        active_table.p4_frame().number < 0x8_0000_0000,
    ensures
        res is Ok <==> init_result(
            active_table@,
            *boot_info,
            Page { number: active_table.p4_frame().number },
        ) is Ok,
        res matches Err(e) ==> init_result(
            active_table@,
            *boot_info,
            Page { number: active_table.p4_frame().number },
        ) == Err::<(), InitError>(e),
        res matches Ok(controller) ==> {
            let guard = Page { number: active_table.p4_frame().number };
            let mappings = kernel_mapping_seq(*boot_info);
            let table = controller.active_table()@;
            &&& controller.wf()
            &&& controller.stack_allocator().range() == (PageIter {
                start: Page { number: (HEAP_LAST_PAGE + 1) as u64 },
                end: Page { number: (HEAP_LAST_PAGE + 1 + STACK_RANGE_PAGES) as u64 },
            })
            &&& all_mapped(table, HEAP_FIRST_PAGE as int, HEAP_LAST_PAGE + 1)
            &&& kernel_mapped(table, mappings, guard)
            &&& !covered(guard, HEAP_FIRST_PAGE as int, HEAP_LAST_PAGE + 1) ==> table.leaf(guard) == 0
                && table.translation(guard) is None
        },
{
    let mut frame_allocator = AreaFrameAllocator::from_boot_information(boot_info);
    let mut active = match remap_the_kernel(active_table, &mut frame_allocator, boot_info) {
        Ok(active) => active,
        Err(e) => { return Err(InitError::Remap(e)); },
    };
    let ghost remapped = active@;
    let heap_start_page = Page::containing_address(HEAP_START);
    let heap_end_page = Page::containing_address(HEAP_START + HEAP_SIZE - 1);
    match map_page_range(&mut active, &mut frame_allocator, heap_start_page, heap_end_page) {
        Ok(()) => {},
        Err(e) => { return Err(InitError::Heap(e)); },
    }
    let stack_alloc_start = heap_end_page.add(1);
    let stack_alloc_end = stack_alloc_start.add(STACK_RANGE_PAGES);
    let stack_allocator = StackAllocator::new(Page::range_inclusive(stack_alloc_start, stack_alloc_end));
    proof {
        let guard = Page { number: active_table.p4_frame().number };
        lemma_heap_keeps_kernel(remapped, active@, kernel_mapping_seq(*boot_info), guard);
    }
    Ok(MemoryController { active_table: active, frame_allocator, stack_allocator })
}

} // verus!
