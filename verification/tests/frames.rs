use kernel_core::memory::boot_info::{BootInformation, ElfSection, MemoryArea};
use kernel_core::memory::frame_allocator::{kernel_extent, AreaFrameAllocator, Frame, FrameAllocator};
use kernel_core::memory::paging::mapper::{table_address_of, MapError};
use kernel_core::memory::paging::table::TableLevel;
use kernel_core::memory::paging::page::{ActivePageTable, Page};
use kernel_core::memory::paging::temporary_page::TinyAllocator;
use kernel_core::memory::paging::{
    kernel_mappings, remap_the_kernel, EntryFlags, RemapError, NO_EXECUTE, PRESENT, WRITABLE,
};
use kernel_core::memory::stack_allocator::StackAllocator;
use kernel_core::memory::{init, InitError};

fn one_region() -> AreaFrameAllocator {
    // One usable region of the frames 0 to 15; the kernel holds the frames
    // 2 to 4, the boot loader's report the frames 5 and 6.
    AreaFrameAllocator::new(
        0x2000,
        0x4fff,
        0x5000,
        0x6fff,
        vec![MemoryArea { start_address: 0, size: 0x10000 }],
    )
}

#[test]
fn frame_of_an_address() {
    assert_eq!(Frame::containing_address(0x1fff), Frame { number: 1 });
    assert_eq!(Frame::containing_address(0x2000), Frame { number: 2 });
    assert_eq!(Frame { number: 2 }.start_address(), 0x2000);
    assert_eq!(Frame::from_number(9).number, 9);
    let mut range = Frame::range_inclusive(Frame { number: 3 }, Frame { number: 4 });
    assert_eq!(range.next(), Some(Frame { number: 3 }));
    assert_eq!(range.next(), Some(Frame { number: 4 }));
    assert_eq!(range.next(), None);
}

#[test]
fn allocated_frames_rise_and_skip_the_reserved_ranges() {
    let mut allocator = one_region();
    let mut got = Vec::new();
    while let Some(frame) = allocator.allocate_frame() {
        got.push(frame.number);
    }
    assert_eq!(got, vec![0, 1, 7, 8, 9, 10, 11, 12, 13, 14, 15]);
    assert_eq!(allocator.allocate_frame(), None);
}

#[test]
fn allocator_moves_on_to_the_next_area() {
    let mut allocator = AreaFrameAllocator::new(
        0x0,
        0xfff,
        0x9000,
        0x9fff,
        vec![
            MemoryArea { start_address: 0x8000, size: 0x3000 },
            MemoryArea { start_address: 0x0, size: 0x2000 },
            MemoryArea { start_address: 0x20000, size: 0 },
        ],
    );
    assert_eq!(allocator.next_free_frame, Frame { number: 0 });
    assert_eq!(allocator.allocate_frame(), Some(Frame { number: 1 }));
    assert_eq!(allocator.allocate_frame(), Some(Frame { number: 8 }));
    assert_eq!(allocator.allocate_frame(), Some(Frame { number: 10 }));
    assert_eq!(allocator.allocate_frame(), None);
    assert_eq!(allocator.allocate_frame(), None);
}

#[test]
fn allocator_without_areas_has_no_frame() {
    let mut allocator = AreaFrameAllocator::new(0, 0, 0, 0, Vec::new());
    assert_eq!(allocator.allocate_frame(), None);
}

fn boot_info() -> BootInformation {
    BootInformation {
        start_address: 0x9000,
        end_address: 0xa800,
        elf_sections: vec![
            // code: allocated and executable
            ElfSection { start_address: 0x10_0000, size: 0x1800, flags: 0x6 },
            // data: allocated and writable
            ElfSection { start_address: 0x10_2000, size: 0x800, flags: 0x3 },
            // not allocated: left out
            ElfSection { start_address: 0x50_0001, size: 0, flags: 0x0 },
        ],
        memory_areas: vec![MemoryArea { start_address: 0, size: 0x100_0000 }],
    }
}

#[test]
fn section_flags_become_entry_flags() {
    let info = boot_info();
    assert_eq!(EntryFlags::from_elf_section_flags(&info.elf_sections[0]).bits(), PRESENT);
    assert_eq!(
        EntryFlags::from_elf_section_flags(&info.elf_sections[1]).bits(),
        PRESENT | WRITABLE | NO_EXECUTE
    );
    assert_eq!(EntryFlags::from_elf_section_flags(&info.elf_sections[2]).bits(), NO_EXECUTE);
    assert!(info.elf_sections[0].is_allocated());
    assert!(!info.elf_sections[2].is_allocated());
    assert_eq!(info.elf_sections[0].end_address(), 0x10_1800);
    assert_eq!(kernel_extent(&info.elf_sections), (0x10_0000, 0x50_0001));
}

#[test]
fn kernel_mappings_list_every_frame() {
    let list = kernel_mappings(&boot_info());
    let pages: Vec<u64> = list.iter().map(|m| m.page.number).collect();
    assert_eq!(pages, vec![0x100, 0x101, 0x102, 0xb8, 0x9, 0xa]);
    assert!(list.iter().all(|m| m.frame.number == m.page.number));
    assert_eq!(list[0].flags.bits(), PRESENT);
    assert_eq!(list[2].flags.bits(), PRESENT | WRITABLE | NO_EXECUTE);
    assert_eq!(list[3].flags.bits(), WRITABLE);
    assert_eq!(list[4].flags.bits(), PRESENT);
}

#[test]
fn remap_maps_the_kernel_and_guards_the_old_table() {
    let info = boot_info();
    // The old level 4 table lies in frame 0x101, inside the kernel.
    let active = ActivePageTable::new(Frame { number: 0x101 });
    let mut allocator = AreaFrameAllocator::new(
        0x10_0000,
        0x10_2800,
        0x9000,
        0xa800,
        vec![MemoryArea { start_address: 0, size: 0x100_0000 }],
    );
    let table = remap_the_kernel(active, &mut allocator, &info).unwrap();
    assert_eq!(table.translate(0x10_0123), Some(0x10_0123));
    assert_eq!(table.translate(0x10_2fff), Some(0x10_2fff));
    assert_eq!(table.translate(0xb8000), Some(0xb8000));
    assert_eq!(table.translate(0x9000), Some(0x9000));
    assert_eq!(table.translate(0xa7ff), Some(0xa7ff));
    // the guard page
    assert_eq!(table.translate(0x10_1000), None);
    // nothing else
    assert_eq!(table.translate(0x10_3000), None);
    assert_eq!(table.translate(0x50_0000), None);
    assert_eq!(table.translate(0xcafebabe000), None);
    // the new table took the fourth frame that the allocator had
    assert_eq!(table.root_frame(), Frame { number: 3 });
}

#[test]
fn remap_without_frames_fails() {
    let info = boot_info();
    let active = ActivePageTable::new(Frame { number: 0x101 });
    let mut allocator = TinyAllocator([Some(Frame { number: 1 }), Some(Frame { number: 2 }), None]);
    assert_eq!(
        remap_the_kernel(active, &mut allocator, &info).err(),
        Some(RemapError::MapFailed(MapError::FrameAllocationFailed))
    );
}

#[test]
fn remap_needs_the_old_table_inside_a_mapped_table() {
    let info = boot_info();
    // Frame 0x4_0000 shares no level 1 table with anything that is mapped.
    let active = ActivePageTable::new(Frame { number: 0x4_0000 });
    let mut allocator = AreaFrameAllocator::new(
        0x10_0000,
        0x10_2800,
        0x9000,
        0xa800,
        vec![MemoryArea { start_address: 0, size: 0x100_0000 }],
    );
    assert_eq!(
        remap_the_kernel(active, &mut allocator, &info).err(),
        Some(RemapError::GuardPageNotMapped)
    );
}

#[test]
fn stack_over_two_pages_has_its_guard_page() {
    let mut active = ActivePageTable::new(Frame { number: 1 });
    let mut allocator = one_region();
    let mut stacks = StackAllocator::new(Page::range_inclusive(Page { number: 100 }, Page { number: 101 }));
    let stack = stacks.alloc_stack(&mut active, &mut allocator, 1).unwrap().unwrap();
    assert_eq!(stack.bottom(), 101 * 4096);
    assert_eq!(stack.top(), 102 * 4096);
    assert_eq!(active.translate_page(Page { number: 100 }), None);
    assert!(active.translate_page(Page { number: 101 }).is_some());
    assert_eq!(active.translate_page(Page { number: 102 }), None);
    assert_eq!(stacks.alloc_stack(&mut active, &mut allocator, 1), Ok(None));
}

#[test]
fn remapped_kernel_pages_carry_the_section_flags() {
    let info = boot_info();
    let active = ActivePageTable::new(Frame { number: 0x101 });
    let mut allocator = AreaFrameAllocator::from_boot_information(&BootInformation {
        memory_areas: vec![MemoryArea { start_address: 0, size: 0x100_0000 }],
        ..boot_info()
    });
    let table = remap_the_kernel(active, &mut allocator, &info).unwrap();
    let p1 = table_address_of(Page { number: 0x100 }, TableLevel::Level1);
    // code: present, neither writable nor barred from running
    assert_eq!(table.mapper().entry(p1, 0x100).bits(), 0x10_0000 | PRESENT);
    // data: present, writable, not to be run
    assert_eq!(table.mapper().entry(p1, 0x102).bits(), 0x10_2000 | PRESENT | WRITABLE | NO_EXECUTE);
    // frame buffer and boot report
    assert_eq!(table.mapper().entry(p1, 0xb8).bits(), 0xb8000 | PRESENT | WRITABLE);
    assert_eq!(table.mapper().entry(p1, 0x9).bits(), 0x9000 | PRESENT);
    // the guard page
    assert_eq!(table.mapper().entry(p1, 0x101).bits(), 0);
}

#[test]
fn stack_over_one_page_is_refused() {
    let mut active = ActivePageTable::new(Frame { number: 1 });
    let mut allocator = one_region();
    let mut stacks = StackAllocator::new(Page::range_inclusive(Page { number: 100 }, Page { number: 100 }));
    assert_eq!(stacks.alloc_stack(&mut active, &mut allocator, 1), Ok(None));
    assert_eq!(active.translate_page(Page { number: 100 }), None);
}

#[test]
fn stacks_follow_each_other_with_guards_between() {
    let mut active = ActivePageTable::new(Frame { number: 1 });
    let mut allocator = AreaFrameAllocator::new(
        0,
        0,
        0,
        0,
        vec![MemoryArea { start_address: 0x10000, size: 0x100000 }],
    );
    let mut stacks = StackAllocator::new(Page::range_inclusive(Page { number: 200 }, Page { number: 210 }));
    assert_eq!(stacks.alloc_stack(&mut active, &mut allocator, 0), Ok(None));
    let first = stacks.alloc_stack(&mut active, &mut allocator, 3).unwrap().unwrap();
    assert_eq!((first.bottom(), first.top()), (201 * 4096, 204 * 4096));
    let second = stacks.alloc_stack(&mut active, &mut allocator, 2).unwrap().unwrap();
    assert_eq!((second.bottom(), second.top()), (205 * 4096, 207 * 4096));
    assert_eq!(active.translate_page(Page { number: 200 }), None);
    assert_eq!(active.translate_page(Page { number: 204 }), None);
    for number in [201, 202, 203, 205, 206] {
        assert!(active.translate_page(Page { number }).is_some());
    }
    // Four pages are left: too few for a guard page and a stack of four, so
    // there is none and the four stay.
    assert_eq!(stacks.alloc_stack(&mut active, &mut allocator, 4), Ok(None));
    assert_eq!(active.translate_page(Page { number: 208 }), None);
    let third = stacks.alloc_stack(&mut active, &mut allocator, 3).unwrap().unwrap();
    assert_eq!((third.bottom(), third.top()), (208 * 4096, 211 * 4096));
    assert_eq!(active.translate_page(Page { number: 207 }), None);
    assert_eq!(stacks.alloc_stack(&mut active, &mut allocator, 1), Ok(None));
}

#[test]
fn stack_of_two_pages_over_two_pages_is_refused() {
    let mut active = ActivePageTable::new(Frame { number: 1 });
    let mut allocator = one_region();
    let mut stacks = StackAllocator::new(Page::range_inclusive(Page { number: 10 }, Page { number: 11 }));
    assert_eq!(stacks.alloc_stack(&mut active, &mut allocator, 2), Ok(None));
    assert_eq!(active.translate_page(Page { number: 10 }), None);
    assert_eq!(active.translate_page(Page { number: 11 }), None);
    // No frame was taken and the two pages are still there.
    assert_eq!(allocator.next_free_frame, Frame { number: 0 });
    let stack = stacks.alloc_stack(&mut active, &mut allocator, 1).unwrap().unwrap();
    assert_eq!((stack.bottom(), stack.top()), (11 * 4096, 12 * 4096));
}

#[test]
fn stack_pages_are_writable() {
    let mut active = ActivePageTable::new(Frame { number: 1 });
    let mut allocator = one_region();
    let mut stacks = StackAllocator::new(Page::range_inclusive(Page { number: 100 }, Page { number: 102 }));
    stacks.alloc_stack(&mut active, &mut allocator, 2).unwrap().unwrap();
    let p1 = table_address_of(Page { number: 101 }, TableLevel::Level1);
    let first = active.mapper().entry(p1, 101);
    assert_eq!(first.bits() & 0xfff, PRESENT | WRITABLE);
    assert_eq!(active.mapper().entry(p1, 102).bits() & 0xfff, PRESENT | WRITABLE);
    assert_eq!(active.mapper().entry(p1, 100).bits(), 0);
    assert_eq!(Some(first.pointed_frame().unwrap()), active.translate_page(Page { number: 101 }));
}

#[test]
fn stack_pages_that_are_mapped_already_fail() {
    let mut active = ActivePageTable::new(Frame { number: 1 });
    let mut allocator = one_region();
    active
        .map_to(Page { number: 301 }, Frame { number: 9 }, EntryFlags::empty(), &mut allocator)
        .unwrap();
    let mut stacks = StackAllocator::new(Page::range_inclusive(Page { number: 300 }, Page { number: 305 }));
    assert_eq!(
        stacks.alloc_stack(&mut active, &mut allocator, 2),
        Err(MapError::PageAlreadyMapped)
    );
}

#[test]
fn init_sets_up_heap_and_stacks() {
    let info = boot_info();
    let active = ActivePageTable::new(Frame { number: 0x101 });
    let mut controller = init(&info, active).unwrap();
    assert!(controller.translate_page(Page { number: 0x4_0000 }).is_some());
    assert!(controller.translate_page(Page { number: 0x4_0018 }).is_some());
    assert_eq!(controller.translate_page(Page { number: 0x4_0019 }), None);
    assert_eq!(controller.translate_page(Page { number: 0x100 }), Some(Frame { number: 0x100 }));
    assert_eq!(controller.translate_page(Page { number: 0x101 }), None);
    let stack = controller.alloc_stack(1).unwrap().unwrap();
    assert_eq!(stack.bottom(), 0x4_001a * 4096);
    assert_eq!(stack.top(), 0x4_001b * 4096);
    assert_eq!(controller.translate_page(Page { number: 0x4_0019 }), None);
    assert!(controller.translate_page(Page { number: 0x4_001a }).is_some());
}

#[test]
fn init_without_memory_fails() {
    let mut info = boot_info();
    info.memory_areas = Vec::new();
    let active = ActivePageTable::new(Frame { number: 0x101 });
    assert_eq!(
        init(&info, active).err(),
        Some(InitError::Remap(RemapError::MapFailed(MapError::FrameAllocationFailed)))
    );
}

#[test]
fn allocator_from_the_boot_report_leaves_out_kernel_and_report() {
    let mut info = boot_info();
    info.memory_areas = vec![MemoryArea { start_address: 0x8000, size: 0x4000 }];
    info.elf_sections.truncate(2);
    let mut allocator = AreaFrameAllocator::from_boot_information(&info);
    assert_eq!(allocator.kernel_start, Frame { number: 0x100 });
    assert_eq!(allocator.kernel_end, Frame { number: 0x102 });
    assert_eq!(allocator.multiboot_start, Frame { number: 9 });
    assert_eq!(allocator.multiboot_end, Frame { number: 10 });
    assert_eq!(allocator.allocate_frame(), Some(Frame { number: 8 }));
    assert_eq!(allocator.allocate_frame(), Some(Frame { number: 11 }));
    assert_eq!(allocator.allocate_frame(), None);
}

#[test]
fn init_without_frames_for_the_heap_fails() {
    let mut info = boot_info();
    // Twenty frames: enough for the kernel's tables, too few for the heap.
    info.elf_sections.truncate(2);
    info.memory_areas = vec![MemoryArea { start_address: 0x20_0000, size: 20 * 4096 }];
    let active = ActivePageTable::new(Frame { number: 0x101 });
    assert_eq!(
        init(&info, active).err(),
        Some(InitError::Heap(MapError::FrameAllocationFailed))
    );
}
