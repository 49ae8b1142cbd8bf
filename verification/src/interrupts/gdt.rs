//! The descriptor table and the block of known-good stacks.

use vstd::prelude::*;
use bit_field::BitField;
use crate::interrupts::{TablePointer, VirtualAddress};

verus! {

/// The slot of the stack on which a double fault is handled.
pub const DOUBLE_FAULT_IST_INDEX: usize = 0;

/// Code of a less privileged segment may run in the segment.
pub const CONFORMING: u64 = 0x400_0000_0000;

/// The segment holds code.
pub const EXECUTABLE: u64 = 0x800_0000_0000;

/// The descriptor is one of a code or data segment, not of a system segment.
pub const USER_SEGMENT: u64 = 0x1000_0000_0000;

/// The descriptor is in use.
pub const PRESENT: u64 = 0x8000_0000_0000;

/// The segment holds 64-bit code.
pub const LONG_MODE: u64 = 0x20_0000_0000_0000;

/// The descriptor of the kernel's code segment.
pub const KERNEL_CODE_SEGMENT: u64 = 0x20_9800_0000_0000;

/// The bytes of a task state segment.
pub const TSS_SIZE: u64 = 104;

/// The slots of a descriptor table.
pub const GDT_ENTRIES: usize = 8;

/// The bits `start` up to `end`, `end` left out, of `value`, moved down to
/// bit 0.
pub open spec fn spec_get_bits(value: u64, start: u64, end: u64) -> u64 {
    ((value << ((64 - end) as u64)) >> ((64 - end) as u64)) >> start
}

/// Whether `bits` has no bit set from bit `width` on.
pub open spec fn fits_bits(bits: u64, width: u64) -> bool {
    (bits << ((64 - width) as u64)) >> ((64 - width) as u64) == bits
}

/// `value` with its bits `start` up to `end`, `end` left out, replaced by
/// the low bits of `bits`.
pub open spec fn spec_set_bits(value: u64, start: u64, end: u64, bits: u64) -> u64 {
    (value & !((((!0u64 << ((64 - end) as u64)) >> ((64 - end) as u64)) >> start) << start)) | (bits
        << start)
}

/// `BitField::get_bits` of the crate bit_field, on a `u64` and a range that
/// is not empty: the bits of the range, moved down to bit 0, as that
/// function's shifts compute them.
#[verifier::external_body]
fn get_bits(value: u64, start: u64, end: u64) -> (res: u64)
    requires
        start < end <= 64,
    ensures
        res == spec_get_bits(value, start, end),
{
    value.get_bits(start as usize..end as usize)
}

/// `BitField::set_bits` of the crate bit_field, on a `u64`, a range that is
/// not empty and a value that fits the range: the bits of the range are
/// replaced and the others kept, as that function's mask computes it.
#[verifier::external_body]
fn set_bits(value: u64, start: u64, end: u64, bits: u64) -> (res: u64)
    requires
        start < end <= 64,
        fits_bits(bits, (end - start) as u64),
    ensures
        res == spec_set_bits(value, start, end, bits),
{
    let mut changed = value;
    changed.set_bits(start as usize..end as usize, bits);
    changed
}

/// A descriptor: one slot for a code or data segment, two for a system
/// segment.
#[derive(Debug, Clone, Copy, PartialEq, Eq, Structural)]
pub enum Descriptor {
    UserSegment(u64),
    SystemSegment(u64, u64),
}

/// The low slot of the descriptor of a task state segment at `base`: the
/// limit in bits 0 to 15, the low 24 bits of the address in bits 16 to 39,
/// the type of an available 64-bit task state segment in bits 40 to 43, the
/// present bit, and bits 24 to 31 of the address in bits 56 to 63.
pub open spec fn spec_tss_low(base: u64) -> u64 {
    PRESENT | ((TSS_SIZE - 1) as u64) | ((base & 0xff_ffff) << 16) | (0b1001u64 << 40) | (((base >> 24)
        & 0xff) << 56)
}

impl Descriptor {
    /// The descriptor of the kernel's code segment: a present, executable
    /// 64-bit code segment.
    pub fn kernel_code_segment() -> (descriptor: Descriptor)
        ensures
            descriptor == Descriptor::UserSegment(KERNEL_CODE_SEGMENT),
            KERNEL_CODE_SEGMENT == USER_SEGMENT | PRESENT | EXECUTABLE | LONG_MODE,
    {
        assert(0x20_9800_0000_0000u64 == 0x1000_0000_0000u64 | 0x8000_0000_0000u64 | 0x800_0000_0000u64
            | 0x20_0000_0000_0000u64) by (bit_vector);
        Descriptor::UserSegment(USER_SEGMENT | PRESENT | EXECUTABLE | LONG_MODE)
    }

    /// The descriptor of the task state segment that lies at the address
    /// `base`.
    pub fn tss_segment(base: u64) -> (descriptor: Descriptor)
        ensures
            descriptor == Descriptor::SystemSegment(spec_tss_low(base), base >> 32),
    {
        proof {
            lemma_tss_bits(base);
        }
        let mut low: u64 = PRESENT;
        low = set_bits(low, 16, 40, get_bits(base, 0, 24));
        low = set_bits(low, 56, 64, get_bits(base, 24, 32));
        low = set_bits(low, 0, 16, TSS_SIZE - 1);
        low = set_bits(low, 40, 44, 0b1001);
        let high = get_bits(base, 32, 64);
        Descriptor::SystemSegment(low, high)
    }
}

/// What the bit operations that build the descriptor of a task state
/// segment come to.
proof fn lemma_tss_bits(base: u64)
    ensures
        fits_bits(spec_get_bits(base, 0, 24), 24),
        fits_bits(spec_get_bits(base, 24, 32), 8),
        fits_bits((TSS_SIZE - 1) as u64, 16),
        fits_bits(0b1001, 4),
        spec_get_bits(base, 32, 64) == base >> 32,
        spec_set_bits(
            spec_set_bits(
                spec_set_bits(
                    spec_set_bits(PRESENT, 16, 40, spec_get_bits(base, 0, 24)),
                    56,
                    64,
                    spec_get_bits(base, 24, 32),
                ),
                0,
                16,
                (TSS_SIZE - 1) as u64,
            ),
            40,
            44,
            0b1001,
        ) == spec_tss_low(base),
{
    let a = spec_get_bits(base, 0, 24);
    let b = spec_get_bits(base, 24, 32);
    assert(a == base & 0xff_ffff && b == (base >> 24) & 0xff && (a << 40u64) >> 40u64 == a && (b << 56u64)
        >> 56u64 == b && (103u64 << 48u64) >> 48u64 == 103u64 && (0b1001u64 << 60u64) >> 60u64
        == 0b1001u64 && ((base << 0u64) >> 0u64) >> 32u64 == base >> 32) by (bit_vector)
        requires
            a == ((base << 40u64) >> 40u64) >> 0u64,
            b == ((base << 32u64) >> 32u64) >> 24u64,
    ;
    let s1 = spec_set_bits(PRESENT, 16, 40, a);
    let s2 = spec_set_bits(s1, 56, 64, b);
    let s3 = spec_set_bits(s2, 0, 16, 103);
    let s4 = spec_set_bits(s3, 40, 44, 0b1001);
    assert(s4 == 0x8000_0000_0000u64 | 103u64 | ((base & 0xff_ffff) << 16) | (0b1001u64 << 40) | (((base
        >> 24) & 0xff) << 56)) by (bit_vector)
        requires
            a == base & 0xff_ffff,
            b == (base >> 24) & 0xff,
            s1 == (0x8000_0000_0000u64 & !((((!0u64 << 24u64) >> 24u64) >> 16u64) << 16u64)) | (a
                << 16u64),
            s2 == (s1 & !((((!0u64 << 0u64) >> 0u64) >> 56u64) << 56u64)) | (b << 56u64),
            s3 == (s2 & !((((!0u64 << 48u64) >> 48u64) >> 0u64) << 0u64)) | (103u64 << 0u64),
            s4 == (s3 & !((((!0u64 << 20u64) >> 20u64) >> 40u64) << 40u64)) | (0b1001u64 << 40u64),
    ;
}


/// The block of known-good stacks: the tops of up to seven stacks that the
/// processor switches to for chosen interrupts, and of three for changes of
/// privilege level.
#[derive(Debug, Clone, Copy)]
pub struct Tss {
    pub privilege_stack_table: [u64; 3],
    pub interrupt_stack_table: [u64; 7],
    pub iomap_base: u16,
}

impl Tss {
    /// A block without stacks.
    pub fn new() -> (tss: Tss)
        ensures
            tss.iomap_base == TSS_SIZE,
            forall|i: int| 0 <= i < 3 ==> tss.privilege_stack_table[i] == 0,
            forall|i: int| 0 <= i < 7 ==> tss.interrupt_stack_table[i] == 0,
    {
        Tss {
            privilege_stack_table: [0, 0, 0],
            interrupt_stack_table: [0, 0, 0, 0, 0, 0, 0],
            iomap_base: 104,
        }
    }

    /// The descriptor of this block, which lies at the address `base`.
    pub fn descriptor(&self, base: u64) -> (descriptor: Descriptor)
        ensures
            descriptor == Descriptor::SystemSegment(spec_tss_low(base), base >> 32),
    {
        Descriptor::tss_segment(base)
    }
}

/// A privilege level of the processor; ring 0 is the kernel's.
#[derive(Debug, Clone, Copy, PartialEq, Eq, Structural)]
pub enum PrivilegeLevel {
    Ring0,
    Ring1,
    Ring2,
    Ring3,
}

impl PrivilegeLevel {
    /// The number of the ring.
    pub open spec fn spec_as_u16(self) -> u16 {
        match self {
            PrivilegeLevel::Ring0 => 0,
            PrivilegeLevel::Ring1 => 1,
            PrivilegeLevel::Ring2 => 2,
            PrivilegeLevel::Ring3 => 3,
        }
    }

    /// The number of the ring.
    #[verifier::when_used_as_spec(spec_as_u16)]
    pub fn as_u16(self) -> (number: u16)
        ensures
            number == self.spec_as_u16(),
    {
        match self {
            PrivilegeLevel::Ring0 => 0,
            PrivilegeLevel::Ring1 => 1,
            PrivilegeLevel::Ring2 => 2,
            PrivilegeLevel::Ring3 => 3,
        }
    }
}

/// What a segment register holds: the index of a descriptor in bits 3 to
/// 15, and the requested privilege level in bits 0 and 1.
#[derive(Debug, Clone, Copy, PartialEq, Eq, Structural)]
pub struct SegmentSelector(pub u16);

impl SegmentSelector {
    /// The selector of the descriptor at `index`, with the privilege level
    /// `rpl`.
    pub fn new(index: u16, rpl: PrivilegeLevel) -> (selector: SegmentSelector)
        ensures
            selector.0 == (index << 3) | rpl.spec_as_u16(),
            index < 8192 ==> selector.spec_index() == index && selector.spec_rpl() == rpl,
    {
        let level = rpl.as_u16();
        assert(index < 8192 ==> ((index << 3) | level) >> 3 == index && ((index << 3) | level) & 3 == level)
            by (bit_vector)
            requires
                level < 4,
        ;
        SegmentSelector((index << 3) | level)
    }

    /// The index of the descriptor.
    pub open spec fn spec_index(&self) -> u16 {
        self.0 >> 3
    }

    /// The requested privilege level.
    pub open spec fn spec_rpl(&self) -> PrivilegeLevel {
        let level = self.0 & 3;
        if level == 0 {
            PrivilegeLevel::Ring0
        } else if level == 1 {
            PrivilegeLevel::Ring1
        } else if level == 2 {
            PrivilegeLevel::Ring2
        } else {
            PrivilegeLevel::Ring3
        }
    }

    /// The index of the descriptor.
    #[verifier::when_used_as_spec(spec_index)]
    pub fn index(&self) -> (index: u16)
        ensures
            index == self.spec_index(),
    {
        self.0 >> 3
    }

    /// The requested privilege level.
    #[verifier::when_used_as_spec(spec_rpl)]
    pub fn rpl(&self) -> (rpl: PrivilegeLevel)
        ensures
            rpl == self.spec_rpl(),
    {
        let level = self.0 & 3;
        if level == 0 {
            PrivilegeLevel::Ring0
        } else if level == 1 {
            PrivilegeLevel::Ring1
        } else if level == 2 {
            PrivilegeLevel::Ring2
        } else {
            PrivilegeLevel::Ring3
        }
    }
}

/// The selectors that the kernel loads: that of its code segment and that
/// of its block of known-good stacks.
#[derive(Debug, Clone, Copy, PartialEq, Eq, Structural)]
pub struct Selectors {
    pub code: SegmentSelector,
    pub tss: SegmentSelector,
}

/// The descriptor table: eight slots, of which slot 0 stays the null
/// descriptor.
#[derive(Debug, Clone, Copy)]
pub struct Gdt {
    pub table: [u64; 8],
    pub next_free: usize,
    pub selectors: Selectors,
}

impl Gdt {
    /// The eight slots.
    pub open spec fn table(&self) -> Seq<u64> {
        self.table@
    }

    /// The first slot that is not in use.
    pub open spec fn next_free(&self) -> usize {
        self.next_free
    }

    /// Slot 0 is the null descriptor and is never handed out.
    pub open spec fn wf(&self) -> bool {
        &&& self.table().len() == 8
        &&& 1 <= self.next_free() <= 8
        &&& self.table()[0] == 0
    }

    /// A table that holds the null descriptor alone.
    pub fn new() -> (gdt: Gdt)
        ensures
            gdt.wf(),
            gdt.next_free() == 1,
            gdt.table() == seq![0u64, 0, 0, 0, 0, 0, 0, 0],
            gdt.selectors == (Selectors { code: SegmentSelector(0), tss: SegmentSelector(0) }),
    {
        let gdt = Gdt {
            table: [0, 0, 0, 0, 0, 0, 0, 0],
            next_free: 1,
            selectors: Selectors { code: SegmentSelector(0), tss: SegmentSelector(0) },
        };
        assert(gdt.table@ =~= seq![0u64, 0, 0, 0, 0, 0, 0, 0]);
        gdt
    }

    /// How many slots `entry` takes.
    pub open spec fn slots(entry: Descriptor) -> int {
        match entry {
            Descriptor::UserSegment(_) => 1,
            Descriptor::SystemSegment(_, _) => 2,
        }
    }

    /// Puts `value` into the first free slot and gives the slot's index.
    pub fn push(&mut self, value: u64) -> (index: usize)
        requires
            old(self).wf(),
            old(self).next_free() < 8,
        ensures
            final(self).wf(),
            index == old(self).next_free(),
            final(self).next_free() == index + 1,
            final(self).table() == old(self).table().update(index as int, value),
            final(self).selectors == old(self).selectors,
    {
        let index = self.next_free;
        self.table[index] = value;
        self.next_free += 1;
        index
    }

    /// Puts `entry` into the first free slots and gives its selector for
    /// ring 0.
    pub fn add_entry(&mut self, entry: Descriptor) -> (selector: SegmentSelector)
        requires
            old(self).wf(),
            old(self).next_free() + Gdt::slots(entry) <= 8,
        ensures
            final(self).wf(),
            final(self).next_free() == old(self).next_free() + Gdt::slots(entry),
            final(self).selectors == old(self).selectors,
            selector.0 == (old(self).next_free() as u16) << 3,
            selector.spec_index() == old(self).next_free(),
            selector.spec_rpl() == PrivilegeLevel::Ring0,
            final(self).table() == match entry {
                Descriptor::UserSegment(value) => old(self).table().update(
                    old(self).next_free() as int,
                    value,
                ),
                Descriptor::SystemSegment(low, high) => old(self).table().update(
                    old(self).next_free() as int,
                    low,
                ).update(old(self).next_free() + 1, high),
            },
    {
        let index = match entry {
            Descriptor::UserSegment(value) => self.push(value),
            Descriptor::SystemSegment(value_low, value_high) => {
                let index = self.push(value_low);
                self.push(value_high);
                index
            },
        };
        let slot = index as u16;
        assert((slot << 3) | 0 == slot << 3) by (bit_vector);
        SegmentSelector::new(slot, PrivilegeLevel::Ring0)
    }

    /// What the processor is given to load the table, which lies at the
    /// address `base`.
    pub fn pointer(&self, base: u64) -> (pointer: TablePointer)
        ensures
            pointer == (TablePointer { limit: 63, base: VirtualAddress(base) }),
    {
        TablePointer { limit: (GDT_ENTRIES * 8 - 1) as u16, base: VirtualAddress(base) }
    }

    /// The steps that make the processor use the table, which lies at the
    /// address `base`: the table is loaded, then the code segment register
    /// is reloaded with the kernel's code selector, then the task register
    /// is loaded with the selector of the block of known-good stacks.
    pub fn load(&self, base: u64) -> (steps: Vec<LoadStep>)
        ensures
            steps@ == seq![
                LoadStep::LoadDescriptorTable(TablePointer { limit: 63, base: VirtualAddress(base) }),
                LoadStep::ReloadCodeSegment(self.selectors.code),
                LoadStep::LoadTaskRegister(self.selectors.tss),
            ],
    {
        let mut steps: Vec<LoadStep> = Vec::new();
        steps.push(LoadStep::LoadDescriptorTable(self.pointer(base)));
        steps.push(LoadStep::ReloadCodeSegment(self.selectors.code));
        steps.push(LoadStep::LoadTaskRegister(self.selectors.tss));
        assert(steps@ =~= seq![
            LoadStep::LoadDescriptorTable(TablePointer { limit: 63, base: VirtualAddress(base) }),
            LoadStep::ReloadCodeSegment(self.selectors.code),
            LoadStep::LoadTaskRegister(self.selectors.tss),
        ]);
        steps
    }
}

/// One step of making the processor use the tables.
#[derive(Debug, Clone, Copy, PartialEq, Eq, Structural)]
pub enum LoadStep {
    /// The descriptor table is loaded from where the pointer says.
    LoadDescriptorTable(TablePointer),
    /// The code segment register is reloaded by a far return.
    ReloadCodeSegment(SegmentSelector),
    /// The task register is loaded.
    LoadTaskRegister(SegmentSelector),
    /// The table of vectors is loaded from where the pointer says.
    LoadVectorTable(TablePointer),
}

/// Builds the block of known-good stacks, with the stack for double faults
/// ending at `double_fault_stack_top`, and the descriptor table: the null
/// descriptor, the kernel's code segment, and the descriptor of the block,
/// which lies at the address `tss_base`.
pub fn init(double_fault_stack_top: u64, tss_base: u64) -> (res: (Gdt, Tss))
    ensures
        res.0.wf(),
        res.0.table() == seq![
            0u64,
            KERNEL_CODE_SEGMENT,
            spec_tss_low(tss_base),
            tss_base >> 32,
            0,
            0,
            0,
            0,
        ],
        res.0.next_free() == 4,
        res.0.selectors.code == SegmentSelector(8),
        res.0.selectors.tss == SegmentSelector(16),
        res.0.selectors.code.spec_index() == 1,
        res.0.selectors.tss.spec_index() == 2,
        res.1.interrupt_stack_table[DOUBLE_FAULT_IST_INDEX as int] == double_fault_stack_top,
        forall|i: int| 1 <= i < 7 ==> res.1.interrupt_stack_table[i] == 0,
        res.1.iomap_base == TSS_SIZE,
{
    let mut tss = Tss::new();
    tss.interrupt_stack_table[DOUBLE_FAULT_IST_INDEX] = double_fault_stack_top;
    let mut gdt = Gdt::new();
    let code = gdt.add_entry(Descriptor::kernel_code_segment());
    let tss_selector = gdt.add_entry(tss.descriptor(tss_base));
    gdt.selectors = Selectors { code, tss: tss_selector };
    assert(1u16 << 3 == 8 && 2u16 << 3 == 16) by (bit_vector);
    assert(gdt.table@ =~= seq![
        0u64,
        KERNEL_CODE_SEGMENT,
        spec_tss_low(tss_base),
        tss_base >> 32,
        0,
        0,
        0,
        0,
    ]);
    (gdt, tss)
}

} // verus!
