use kernel_core::memory::frame_allocator::{Frame, FrameAllocator};
use kernel_core::memory::paging::entry::Entry;
use kernel_core::memory::paging::mapper::{
    table_address_of, MapError, Mapper, Mapping, TableRef, TlbFlush, UnmapError,
};
use kernel_core::memory::paging::page::{ActivePageTable, InactivePageTable, Page};
use kernel_core::memory::paging::table::{Table, TableLevel, P4_TABLE_ADDRESS};
use kernel_core::memory::paging::temporary_page::{TemporaryPage, TinyAllocator};
use kernel_core::memory::paging::{EntryFlags, HUGE_PAGE, NO_EXECUTE, PRESENT, WRITABLE};

fn frames(numbers: [u64; 3]) -> TinyAllocator {
    TinyAllocator([
        Some(Frame { number: numbers[0] }),
        Some(Frame { number: numbers[1] }),
        Some(Frame { number: numbers[2] }),
    ])
}

#[test]
fn entry_set_and_read_back() {
    let mut entry = Entry::new();
    assert!(entry.is_unused());
    assert_eq!(entry.pointed_frame(), None);
    entry.set(Frame { number: 0x1234 }, EntryFlags::from_bits_truncate(PRESENT | WRITABLE));
    assert!(!entry.is_unused());
    assert_eq!(entry.pointed_frame(), Some(Frame { number: 0x1234 }));
    assert_eq!(entry.flags().bits(), PRESENT | WRITABLE);
    entry.set_unused();
    assert!(entry.is_unused());
}

#[test]
fn entry_without_present_flag_points_nowhere() {
    let mut entry = Entry::new();
    entry.set(Frame { number: 7 }, EntryFlags::from_bits_truncate(WRITABLE));
    assert!(!entry.is_unused());
    assert_eq!(entry.pointed_frame(), None);
}

#[test]
fn entry_flags_drop_unknown_bits() {
    let flags = EntryFlags::from_bits_truncate(0xffff_ffff_ffff_ffff);
    assert_eq!(flags.bits(), 0x8000_0000_0000_01ff);
    assert!(flags.contains(EntryFlags::from_bits_truncate(NO_EXECUTE)));
    assert!(!EntryFlags::empty().contains(EntryFlags::from_bits_truncate(PRESENT)));
    assert_eq!(
        EntryFlags::from_bits_truncate(PRESENT)
            .union(EntryFlags::from_bits_truncate(WRITABLE))
            .bits(),
        3
    );
}

#[test]
fn page_indices_split_the_number() {
    let page = Page { number: (1 << 27) | (2 << 18) | (3 << 9) | 4 };
    assert_eq!(page.p4_index(), 1);
    assert_eq!(page.p3_index(), 2);
    assert_eq!(page.p2_index(), 3);
    assert_eq!(page.p1_index(), 4);
    let page = Page::containing_address(0xffff_ffff_ffff_f000);
    assert_eq!(page.p4_index(), 511);
    assert_eq!(page.p1_index(), 511);
    assert_eq!(Page::containing_address(0x1fff).number, 1);
    assert_eq!(Page { number: 3 }.start_address(), 0x3000);
}

#[test]
fn page_range_hands_out_each_page_once() {
    let mut range = Page::range_inclusive(Page { number: 5 }, Page { number: 7 });
    assert_eq!(range.next(), Some(Page { number: 5 }));
    assert_eq!(range.next(), Some(Page { number: 6 }));
    assert_eq!(range.next(), Some(Page { number: 7 }));
    assert_eq!(range.next(), None);
    let mut range = Page::range_inclusive(Page { number: 5 }, Page { number: 9 });
    assert_eq!(range.nth(2), Some(Page { number: 7 }));
    assert_eq!(range.next(), Some(Page { number: 8 }));
    assert_eq!(range.nth(1), None);
    assert_eq!(range.next(), None);
}

#[test]
fn table_next_address_follows_the_recursive_mapping() {
    let mut table = Table::new(P4_TABLE_ADDRESS);
    assert_eq!(table.next_table_address(3), None);
    let mut entry = Entry::new();
    entry.set(Frame { number: 9 }, EntryFlags::from_bits_truncate(PRESENT | WRITABLE));
    table.set_entry(3, entry);
    assert_eq!(table.next_table_address(3), Some(0xffff_ffff_ffe0_3000));
    let mut huge = Entry::new();
    huge.set(Frame { number: 9 }, EntryFlags::from_bits_truncate(PRESENT | HUGE_PAGE));
    table.set_entry(4, huge);
    assert_eq!(table.next_table_address(4), None);
    table.zero();
    assert_eq!(table.next_table_address(3), None);
    assert!(table.entry(3).is_unused());
}

#[test]
fn table_levels_go_down_to_one() {
    assert_eq!(TableLevel::Level4.next_level(), Some(TableLevel::Level3));
    assert_eq!(TableLevel::Level2.next_level(), Some(TableLevel::Level1));
    assert_eq!(TableLevel::Level1.next_level(), None);
}

#[test]
fn map_to_then_translate_gives_the_frame() {
    let mut mapper = Mapper::new(Frame { number: 1 });
    let mut allocator = frames([10, 11, 12]);
    let page = Page { number: 0xcafe };
    let frame = Frame { number: 0x77 };
    assert_eq!(mapper.translate_page(page), None);
    assert_eq!(
        mapper.map_to(page, frame, EntryFlags::from_bits_truncate(WRITABLE), &mut allocator),
        Ok(())
    );
    assert_eq!(mapper.translate_page(page), Some(frame));
    assert_eq!(mapper.translate(0xcafe_123), Some(0x77_123));
    assert_eq!(mapper.translate_page(Page { number: 0xcaff }), None);
    assert_eq!(allocator.0, [None, None, None]);
}

#[test]
fn mapped_page_is_in_use_and_is_not_mapped_again() {
    let mut mapper = Mapper::new(Frame { number: 1 });
    let mut allocator = frames([10, 11, 12]);
    let page = Page { number: 0x1234 };
    assert!(!mapper.is_in_use(page));
    mapper
        .map_to(page, Frame { number: 5 }, EntryFlags::empty(), &mut allocator)
        .unwrap();
    assert!(mapper.is_in_use(page));
    assert!(!mapper.is_in_use(Page { number: 0x1235 }));
    // Who looks first is told, and nothing changes.
    let again = Mapping { page, frame: Frame { number: 6 }, flags: EntryFlags::empty() };
    let mut more = frames([20, 21, 22]);
    assert_eq!(mapper.map_all(&vec![again], &mut more), Err(MapError::PageAlreadyMapped));
    assert_eq!(mapper.translate_page(page), Some(Frame { number: 5 }));
    assert_eq!(more.0[0], Some(Frame { number: 20 }));
    // An entry that is not present, but not unused either, is in use too.
    let other = Page { number: 0x1236 };
    assert_eq!(mapper.unmap(page, &mut more), Ok(TlbFlush::Page(0x1234000)));
    assert!(!mapper.is_in_use(page));
    assert!(!mapper.is_in_use(other));
}

#[test]
fn mapped_entry_carries_the_flags() {
    let mut mapper = Mapper::new(Frame { number: 1 });
    let mut allocator = frames([10, 11, 12]);
    let list = vec![
        Mapping {
            page: Page { number: 0x20 },
            frame: Frame { number: 0x20 },
            flags: EntryFlags::from_bits_truncate(WRITABLE | NO_EXECUTE),
        },
        Mapping { page: Page { number: 0x21 }, frame: Frame { number: 0x21 }, flags: EntryFlags::empty() },
    ];
    assert_eq!(mapper.map_all(&list, &mut allocator), Ok(()));
    // The level 1 table of these pages is the third that was made.
    let p1 = table_address_of(Page { number: 0x20 }, TableLevel::Level1);
    assert_eq!(mapper.entry(p1, 0x20).bits(), 0x20000 | PRESENT | WRITABLE | NO_EXECUTE);
    assert_eq!(mapper.entry(p1, 0x21).bits(), 0x21000 | PRESENT);
    assert_eq!(mapper.entry(p1, 0x22).bits(), 0);
}

#[test]
fn map_to_shares_tables_between_neighbours() {
    let mut mapper = Mapper::new(Frame { number: 1 });
    let mut allocator = frames([10, 11, 12]);
    mapper
        .map_to(Page { number: 0x200 }, Frame { number: 5 }, EntryFlags::empty(), &mut allocator)
        .unwrap();
    let mut none = TinyAllocator([None, None, None]);
    assert_eq!(
        mapper.map_to(Page { number: 0x201 }, Frame { number: 6 }, EntryFlags::empty(), &mut none),
        Ok(())
    );
    assert_eq!(
        mapper.map_to(Page { number: 0x400 }, Frame { number: 7 }, EntryFlags::empty(), &mut none),
        Err(MapError::FrameAllocationFailed)
    );
    assert_eq!(mapper.translate_page(Page { number: 0x200 }), Some(Frame { number: 5 }));
    assert_eq!(mapper.translate_page(Page { number: 0x201 }), Some(Frame { number: 6 }));
    assert_eq!(mapper.translate_page(Page { number: 0x400 }), None);
}

#[test]
fn map_takes_its_frame_from_the_allocator() {
    let mut mapper = Mapper::new(Frame { number: 1 });
    let mut first = frames([10, 11, 12]);
    mapper
        .map_to(Page { number: 8 }, Frame { number: 5 }, EntryFlags::empty(), &mut first)
        .unwrap();
    let mut allocator = frames([30, 31, 32]);
    assert_eq!(
        mapper.map(Page { number: 9 }, EntryFlags::from_bits_truncate(WRITABLE), &mut allocator),
        Ok(())
    );
    assert_eq!(mapper.translate_page(Page { number: 9 }), Some(Frame { number: 30 }));
    let mut empty = TinyAllocator([None, None, None]);
    assert_eq!(
        mapper.map(Page { number: 10 }, EntryFlags::empty(), &mut empty),
        Err(MapError::FrameAllocationFailed)
    );
}

#[test]
fn identity_map_uses_the_frame_number_as_page() {
    let mut mapper = Mapper::new(Frame { number: 1 });
    let mut allocator = frames([10, 11, 12]);
    assert_eq!(
        mapper.identity_map(Frame { number: 0xb8 }, EntryFlags::from_bits_truncate(WRITABLE), &mut allocator),
        Ok(())
    );
    assert_eq!(mapper.translate(0xb8000), Some(0xb8000));
    assert_eq!(mapper.translate(0xb8fff), Some(0xb8fff));
}

#[test]
fn unmap_clears_one_page_and_names_it_for_the_flush() {
    let mut mapper = Mapper::new(Frame { number: 1 });
    let mut allocator = frames([10, 11, 12]);
    mapper
        .map_to(Page { number: 0x10 }, Frame { number: 5 }, EntryFlags::empty(), &mut allocator)
        .unwrap();
    mapper
        .map_to(Page { number: 0x11 }, Frame { number: 6 }, EntryFlags::empty(), &mut allocator)
        .unwrap();
    assert_eq!(mapper.unmap(Page { number: 0x10 }, &mut allocator), Ok(TlbFlush::Page(0x10000)));
    assert_eq!(mapper.translate_page(Page { number: 0x10 }), None);
    assert_eq!(mapper.translate_page(Page { number: 0x11 }), Some(Frame { number: 6 }));
    assert_eq!(
        mapper.unmap(Page { number: 0x4000_0000 }, &mut allocator),
        Err(UnmapError::PageNotMapped)
    );
}

#[test]
fn huge_parent_entry_stops_the_mapping() {
    let mut mapper = Mapper::new(Frame { number: 1 });
    let mut allocator = frames([10, 11, 12]);
    // A page in the recursive window writes into the level 4 table itself:
    // the page (511, 511, 511, 7) has entry 7 of that table as its own.
    let window = Page { number: (511 << 27) | (511 << 18) | (511 << 9) | 7 };
    mapper
        .map_to(window, Frame { number: 9 }, EntryFlags::from_bits_truncate(HUGE_PAGE), &mut allocator)
        .unwrap();
    assert_eq!(mapper.translate_page(window), Some(Frame { number: 9 }));
    let below = Page { number: 7 << 27 };
    assert_eq!(
        mapper.map_to(below, Frame { number: 3 }, EntryFlags::empty(), &mut allocator),
        Err(MapError::ParentEntryHugePage)
    );
    assert_eq!(allocator.0[0], Some(Frame { number: 10 }));
}

#[test]
fn tiny_allocator_holds_three_frames() {
    let mut tiny = frames([1, 2, 3]);
    assert_eq!(tiny.allocate_frame(), Some(Frame { number: 1 }));
    assert_eq!(tiny.allocate_frame(), Some(Frame { number: 2 }));
    tiny.deallocate_frame(Frame { number: 9 });
    assert_eq!(tiny.allocate_frame(), Some(Frame { number: 9 }));
    assert_eq!(tiny.allocate_frame(), Some(Frame { number: 3 }));
    assert_eq!(tiny.allocate_frame(), None);
    let mut source = frames([4, 5, 6]);
    let mut taken = TinyAllocator::new(&mut source);
    assert_eq!(source.allocate_frame(), None);
    assert_eq!(taken.allocate_frame(), Some(Frame { number: 4 }));
}

#[test]
fn temporary_page_maps_and_unmaps() {
    let mut active = ActivePageTable::new(Frame { number: 1 });
    let mut source = frames([10, 11, 12]);
    let mut temporary = TemporaryPage::new(Page { number: 0xcafebabe }, &mut source);
    assert_eq!(temporary.map(Frame { number: 50 }, &mut active), Ok(0xcafebabe000));
    assert_eq!(active.translate_page(Page { number: 0xcafebabe }), Some(Frame { number: 50 }));
    assert!(active.is_in_use(temporary.reserved_page()));
    let p1 = table_address_of(Page { number: 0xcafebabe }, TableLevel::Level1);
    assert_eq!(
        active.mapper().entry(p1, Page { number: 0xcafebabe }.p1_index()).bits(),
        (50 << 12) | PRESENT | WRITABLE
    );
    assert_eq!(temporary.unmap(&mut active), Ok(TlbFlush::Page(0xcafebabe000)));
    assert_eq!(active.translate_page(Page { number: 0xcafebabe }), None);
    assert_eq!(temporary.map_table_frame(Frame { number: 52 }, &mut active), Ok(0xcafebabe000));
}

#[test]
fn with_builds_the_inactive_table_and_leaves_the_active_one() {
    let mut active = ActivePageTable::new(Frame { number: 1 });
    let mut source = frames([10, 11, 12]);
    active
        .map_to(Page { number: 3 }, Frame { number: 3 }, EntryFlags::empty(), &mut source)
        .unwrap();
    let mut more = frames([13, 14, 15]);
    let mut temporary = TemporaryPage::new(Page { number: 0xcafebabe }, &mut more);
    let mut inactive = InactivePageTable::new(Frame { number: 20 }, &mut active, &mut temporary).unwrap();
    assert_eq!(inactive.root_frame(), Frame { number: 20 });
    assert_eq!(inactive.translate_page(Page { number: 3 }), None);
    let mappings = vec![
        Mapping { page: Page { number: 0x100 }, frame: Frame { number: 0x100 }, flags: EntryFlags::empty() },
        Mapping { page: Page { number: 0x101 }, frame: Frame { number: 0x101 }, flags: EntryFlags::empty() },
    ];
    let mut tables = frames([30, 31, 32]);
    assert_eq!(active.with(&mut inactive, &mut temporary, &mappings, &mut tables), Ok(()));
    assert_eq!(inactive.translate_page(Page { number: 0x100 }), Some(Frame { number: 0x100 }));
    assert_eq!(inactive.translate_page(Page { number: 0x101 }), Some(Frame { number: 0x101 }));
    assert_eq!(active.translate_page(Page { number: 0x100 }), None);
    assert_eq!(active.translate_page(Page { number: 3 }), Some(Frame { number: 3 }));
    assert_eq!(active.translate_page(Page { number: 0xcafebabe }), None);
    assert_eq!(active.root_frame(), Frame { number: 1 });
    assert_eq!(active.translate(0xffff_ffff_ffff_f000), Some(0x1000));
    assert_eq!(active.mapper().entry(P4_TABLE_ADDRESS, 511).bits(), 0x1000 | PRESENT | WRITABLE);
    assert_eq!(inactive.translate_page(Page { number: 0xf_ffff_ffff }), Some(Frame { number: 20 }));

    let old = active.switch(inactive);
    assert_eq!(old.root_frame(), Frame { number: 1 });
    assert_eq!(active.root_frame(), Frame { number: 20 });
    assert_eq!(active.translate_page(Page { number: 0x100 }), Some(Frame { number: 0x100 }));
    assert_eq!(active.translate_page(Page { number: 3 }), None);
    assert_eq!(old.translate_page(Page { number: 3 }), Some(Frame { number: 3 }));
    assert_eq!(active.translate(0xffff_ffff_ffff_f000), Some(0x14000));
}

#[test]
fn with_stops_at_a_page_listed_twice() {
    let mut active = ActivePageTable::new(Frame { number: 1 });
    let mut source = frames([10, 11, 12]);
    let mut temporary = TemporaryPage::new(Page { number: 0xcafebabe }, &mut source);
    let mut inactive = InactivePageTable::new(Frame { number: 20 }, &mut active, &mut temporary).unwrap();
    let mapping = Mapping { page: Page { number: 5 }, frame: Frame { number: 5 }, flags: EntryFlags::empty() };
    let mut tables = frames([30, 31, 32]);
    assert_eq!(
        active.with(&mut inactive, &mut temporary, &vec![mapping, mapping], &mut tables),
        Err(MapError::PageAlreadyMapped)
    );
    assert_eq!(active.root_frame(), Frame { number: 1 });
    assert_eq!(active.translate_page(Page { number: 0xcafebabe }), None);
}

#[test]
fn table_addresses_come_from_the_page_number() {
    let page = Page { number: (1 << 27) | (2 << 18) | (3 << 9) | 4 };
    assert_eq!(table_address_of(page, TableLevel::Level4), 0o177777_777_777_777_777_0000);
    assert_eq!(table_address_of(page, TableLevel::Level3), 0o177777_777_777_777_001_0000);
    assert_eq!(table_address_of(page, TableLevel::Level2), 0o177777_777_777_001_002_0000);
    assert_eq!(table_address_of(page, TableLevel::Level1), 0o177777_777_001_002_003_0000);
    let mut table = Table::new(table_address_of(page, TableLevel::Level3));
    let mut entry = Entry::new();
    entry.set(Frame { number: 9 }, EntryFlags::from_bits_truncate(PRESENT));
    table.set_entry(2, entry);
    assert_eq!(table.next_table_address(2), Some(table_address_of(page, TableLevel::Level2)));
}

#[test]
fn table_list_holds_every_table_once() {
    let mut active = ActivePageTable::new(Frame { number: 1 });
    assert_eq!(
        active.table_list(),
        vec![TableRef { address: P4_TABLE_ADDRESS, frame: Frame { number: 1 } }]
    );
    let mut allocator = frames([10, 11, 12]);
    let low = Page { number: 5 };
    active
        .map_to(low, Frame { number: 50 }, EntryFlags::empty(), &mut allocator)
        .unwrap();
    let mut more = frames([20, 21, 22]);
    let far = Page { number: (3 << 27) | 7 };
    active
        .map_to(far, Frame { number: 51 }, EntryFlags::empty(), &mut more)
        .unwrap();
    let table = |page, level, number| TableRef {
        address: table_address_of(page, level),
        frame: Frame { number },
    };
    assert_eq!(
        active.table_list(),
        vec![
            TableRef { address: P4_TABLE_ADDRESS, frame: Frame { number: 1 } },
            table(low, TableLevel::Level3, 10),
            table(low, TableLevel::Level2, 11),
            table(low, TableLevel::Level1, 12),
            table(far, TableLevel::Level3, 20),
            table(far, TableLevel::Level2, 21),
            table(far, TableLevel::Level1, 22),
        ]
    );
}
