use kernel_core::interrupts::gdt::{
    self, Descriptor, Gdt, LoadStep, PrivilegeLevel, SegmentSelector, Tss, KERNEL_CODE_SEGMENT,
};
use kernel_core::interrupts::handlers::{keyboard_interrupt, timer_interrupt, KeyAction};
use kernel_core::interrupts::idt::{self, Handlers, Idt, IdtEntry, InterruptIndex};
use kernel_core::interrupts::pic::{Pic, Pics, PIC_OFFSET};
use kernel_core::interrupts::pit;
use kernel_core::interrupts::{enable, init, EnableStep, PortWrite, TablePointer, VirtualAddress};

fn write(port: u16, value: u8) -> PortWrite {
    PortWrite { port, value }
}

#[test]
fn selector_round_trip() {
    let selector = SegmentSelector::new(2, PrivilegeLevel::Ring0);
    assert_eq!(selector.0, (2 << 3) | 0);
    assert_eq!(selector.index(), 2);
    assert_eq!(selector.rpl(), PrivilegeLevel::Ring0);
    let selector = SegmentSelector::new(5, PrivilegeLevel::Ring3);
    assert_eq!(selector.0, 0x2b);
    assert_eq!(selector.index(), 5);
    assert_eq!(selector.rpl(), PrivilegeLevel::Ring3);
    assert_eq!(PrivilegeLevel::Ring2.as_u16(), 2);
}

#[test]
fn kernel_code_segment_bits() {
    assert_eq!(Descriptor::kernel_code_segment(), Descriptor::UserSegment(0x20980000000000));
    assert_eq!(KERNEL_CODE_SEGMENT, (1 << 44) | (1 << 47) | (1 << 43) | (1 << 53));
}

#[test]
fn tss_descriptor_splits_the_address() {
    let base: u64 = 0x1122_3344_5566_7788;
    let low: u64 = (1 << 47) | 103 | (0x66_7788 << 16) | (0b1001 << 40) | (0x55 << 56);
    assert_eq!(Descriptor::tss_segment(base), Descriptor::SystemSegment(low, 0x1122_3344));
    assert_eq!(Tss::new().descriptor(base), Descriptor::SystemSegment(low, 0x1122_3344));
    assert_eq!(
        Descriptor::tss_segment(0),
        Descriptor::SystemSegment((1 << 47) | 103 | (0b1001 << 40), 0)
    );
    assert_eq!(
        Descriptor::tss_segment(u64::MAX),
        Descriptor::SystemSegment(0xff00_89ff_ffff_0067, 0xffff_ffff)
    );
}

#[test]
fn gdt_hands_out_slots_from_one() {
    let mut table = Gdt::new();
    assert_eq!(table.table, [0; 8]);
    assert_eq!(table.push(7), 1);
    let selector = table.add_entry(Descriptor::SystemSegment(8, 9));
    assert_eq!(selector, SegmentSelector(16));
    assert_eq!(table.add_entry(Descriptor::UserSegment(10)), SegmentSelector(32));
    assert_eq!(table.table, [0, 7, 8, 9, 10, 0, 0, 0]);
    assert_eq!(table.next_free, 5);
    assert_eq!(table.pointer(0x5000), TablePointer { limit: 63, base: VirtualAddress(0x5000) });
}

#[test]
fn gdt_init_builds_null_code_and_tss() {
    let (table, tss) = gdt::init(0x9000, 0x1_0000_2000);
    assert_eq!(table.table[0], 0);
    assert_eq!(table.table[1], 0x20980000000000);
    assert_eq!(table.table[2], (1 << 47) | 103 | (0x2000 << 16) | (0b1001 << 40));
    assert_eq!(table.table[3], 1);
    assert_eq!(&table.table[4..], &[0, 0, 0, 0]);
    assert_eq!(table.selectors.code, SegmentSelector(8));
    assert_eq!(table.selectors.tss, SegmentSelector(16));
    assert_eq!(tss.interrupt_stack_table, [0x9000, 0, 0, 0, 0, 0, 0]);
    assert_eq!(tss.privilege_stack_table, [0, 0, 0]);
    assert_eq!(tss.iomap_base, 104);
}

#[test]
fn interrupt_index_numbers() {
    assert_eq!(InterruptIndex::DivideError.as_u8(), 0);
    assert_eq!(InterruptIndex::DoubleFault.as_u8(), 8);
    assert_eq!(InterruptIndex::GeneralProtectionFault.as_u8(), 13);
    assert_eq!(InterruptIndex::PageFault.as_u8(), 14);
    assert_eq!(InterruptIndex::Timer.as_u8(), 32);
    assert_eq!(InterruptIndex::Keyboard.as_usize(), 33);
}

#[test]
fn idt_entry_splits_the_handler_address() {
    let mut entry = IdtEntry::new();
    assert_eq!(entry.flags, 0b1110);
    entry.set_handler(0x1122_3344_5566_7788, SegmentSelector(8));
    assert_eq!(entry.fn_pointer_low, 0x7788);
    assert_eq!(entry.fn_pointer_middle, 0x5566);
    assert_eq!(entry.fn_pointer_high, 0x1122_3344);
    assert_eq!(entry.cs, SegmentSelector(8));
    assert_eq!(entry.flags, 0b1000_1110);
    assert_eq!(entry.ist, 0);
    entry.with_ist_index(5);
    assert_eq!(entry.ist, 5);
    assert_eq!(entry.fn_pointer_low, 0x7788);
}

#[test]
fn idt_init_installs_the_six_handlers() {
    let handlers = Handlers {
        divide_error: 0x1000,
        double_fault: 0x2000,
        general_protection_fault: 0x3000,
        page_fault: 0x4000,
        timer: 0x5000,
        keyboard: 0x1_0000_6000,
    };
    let table = idt::init(&handlers, SegmentSelector(8));
    assert_eq!(table.0.len(), 256);
    let installed = [(0, 0x1000), (8, 0x2000), (13, 0x3000), (14, 0x4000), (32, 0x5000), (33, 0x6000)];
    for (vector, low) in installed {
        assert_eq!(table.0[vector].fn_pointer_low as u64, low);
        assert_eq!(table.0[vector].flags, 0b1000_1110);
        assert_eq!(table.0[vector].cs, SegmentSelector(8));
        assert_eq!(table.0[vector].ist, 0);
    }
    assert_eq!(table.0[33].fn_pointer_high, 1);
    assert_eq!(table.index(InterruptIndex::Keyboard).fn_pointer_high, 1);
    for vector in 0..256 {
        if !installed.iter().any(|(v, _)| *v == vector) {
            assert_eq!(table.0[vector], IdtEntry::new());
        }
    }
    assert_eq!(Idt::new().0[8], IdtEntry::new());
    assert_eq!(table.pointer(0x7000), TablePointer { limit: 4095, base: VirtualAddress(0x7000) });
}

#[test]
fn init_gives_the_vectors_the_code_selector_of_the_table() {
    let handlers = Handlers {
        divide_error: 1,
        double_fault: 2,
        general_protection_fault: 3,
        page_fault: 4,
        timer: 5,
        keyboard: 6,
    };
    let tables = init(0x8000, 0x3000, &handlers);
    assert_eq!(tables.gdt.selectors.code, SegmentSelector(8));
    assert_eq!(tables.idt.0[8].cs, tables.gdt.selectors.code);
    assert_eq!(tables.idt.0[8].fn_pointer_low, 2);
    assert_eq!(tables.tss.interrupt_stack_table[0], 0x8000);
    assert_eq!(tables.gdt.table[3], 0);
}

#[test]
fn pic_handles_its_eight_vectors() {
    let pic = Pic::new(32, 0x20, 0x21);
    assert!(!pic.handles_interrupt(31));
    assert!(pic.handles_interrupt(32));
    assert!(pic.handles_interrupt(39));
    assert!(!pic.handles_interrupt(40));
}

#[test]
fn eoi_goes_to_the_primary_and_to_the_secondary_for_its_vectors() {
    let pics = Pics::new(PIC_OFFSET);
    assert_eq!(pics.primary, Pic { offset: 32, command_port: 0x20, data_port: 0x21 });
    assert_eq!(pics.secondary, Pic { offset: 40, command_port: 0xA0, data_port: 0xA1 });
    assert_eq!(pics.send_eoi(32), vec![write(0x20, 0x20)]);
    assert_eq!(pics.send_eoi(33), vec![write(0x20, 0x20)]);
    assert_eq!(pics.send_eoi(40), vec![write(0xA0, 0x20), write(0x20, 0x20)]);
    assert_eq!(pics.send_eoi(47), vec![write(0xA0, 0x20), write(0x20, 0x20)]);
    assert_eq!(pics.send_eoi(48), vec![write(0x20, 0x20)]);
    assert_eq!(pics.send_eoi(0), vec![write(0x20, 0x20)]);
}

#[test]
fn pics_with_the_highest_offsets() {
    let pics = Pics::new(247);
    assert_eq!(pics.primary.offset, 247);
    assert_eq!(pics.secondary, Pic { offset: 255, command_port: 0xA0, data_port: 0xA1 });
    let pics = Pics::new(239);
    assert_eq!(pics.send_eoi(254), vec![write(0xA0, 0x20), write(0x20, 0x20)]);
    assert_eq!(pics.send_eoi(255), vec![write(0x20, 0x20)]);
}

#[test]
fn pic_init_programs_offsets_cascade_mode_and_masks() {
    let pics = Pics::new(32);
    let writes = pics.init(0xfc, 0xff);
    assert_eq!(
        writes,
        vec![
            write(0x20, 0x11),
            write(0xA0, 0x11),
            write(0x80, 0),
            write(0x21, 32),
            write(0xA1, 40),
            write(0x80, 0),
            write(0x21, 4),
            write(0xA1, 2),
            write(0x80, 0),
            write(0x21, 1),
            write(0xA1, 1),
            write(0x80, 0),
            write(0x21, 0xfc),
            write(0xA1, 0xff),
        ]
    );
    // The second byte that the primary data port gets after the
    // initialisation command is the offset.
    let primary_data: Vec<u8> = writes.iter().filter(|w| w.port == 0x21).map(|w| w.value).collect();
    assert_eq!(primary_data[0], 32);
}

#[test]
fn enable_ends_with_the_processor_step() {
    let pics = Pics::new(32);
    let steps = enable(&pics, 1, 2);
    assert_eq!(steps.len(), 15);
    assert_eq!(steps[0], EnableStep::Write(write(0x20, 0x11)));
    assert_eq!(steps[13], EnableStep::Write(write(0xA1, 2)));
    assert_eq!(steps[14], EnableStep::EnableInterrupts);
    assert!(steps[..14].iter().all(|s| matches!(s, EnableStep::Write(_))));
}

#[test]
fn pit_init_writes_the_divisor() {
    assert_eq!(pit::init(), vec![write(0x43, 0x36), write(0x40, 0x9b), write(0x40, 0x2e)]);
    assert_eq!(pit::ticks_to_wait(1000), 100);
    assert_eq!(pit::ticks_to_wait(15), 1);
    assert_eq!(pit::ticks_to_wait(9), 0);
    assert!(!pit::sleep_busy(50, 10, 14));
    assert!(pit::sleep_busy(50, 10, 15));
    assert!(pit::sleep_busy(0, 10, 10));
}

#[test]
fn timer_handler_counts_then_acknowledges() {
    let pics = Pics::new(32);
    assert_eq!(timer_interrupt(41, &pics), (42, vec![write(0x20, 0x20)]));
    assert_eq!(timer_interrupt(u64::MAX, &pics), (0, vec![write(0x20, 0x20)]));
}

#[test]
fn keyboard_handler_shows_printable_keys() {
    let pics = Pics::new(32);
    let eoi = vec![write(0x20, 0x20)];
    assert_eq!(keyboard_interrupt(Some('a'), &pics), (KeyAction::Print('a'), eoi.clone()));
    assert_eq!(keyboard_interrupt(Some('\n'), &pics), (KeyAction::NewLine, eoi.clone()));
    assert_eq!(keyboard_interrupt(Some('\u{8}'), &pics), (KeyAction::Ignore, eoi.clone()));
    assert_eq!(keyboard_interrupt(Some('\u{7f}'), &pics), (KeyAction::Ignore, eoi.clone()));
    assert_eq!(keyboard_interrupt(Some('~'), &pics), (KeyAction::Print('~'), eoi.clone()));
    assert_eq!(keyboard_interrupt(None, &pics), (KeyAction::Ignore, eoi));
}

#[test]
fn tables_are_loaded_descriptor_table_first() {
    let handlers = Handlers {
        divide_error: 1,
        double_fault: 2,
        general_protection_fault: 3,
        page_fault: 4,
        timer: 5,
        keyboard: 6,
    };
    let tables = init(0x8000, 0x3000, &handlers);
    assert_eq!(
        tables.load(0x1000, 0x2000),
        vec![
            LoadStep::LoadDescriptorTable(TablePointer { limit: 63, base: VirtualAddress(0x1000) }),
            LoadStep::ReloadCodeSegment(SegmentSelector(8)),
            LoadStep::LoadTaskRegister(SegmentSelector(16)),
            LoadStep::LoadVectorTable(TablePointer { limit: 4095, base: VirtualAddress(0x2000) }),
        ]
    );
    assert_eq!(tables.gdt.load(0x1000).len(), 3);
}
