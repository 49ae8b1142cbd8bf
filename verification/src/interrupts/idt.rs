//! The table of interrupt vectors.

use vstd::prelude::*;
use crate::interrupts::gdt::{SegmentSelector, DOUBLE_FAULT_IST_INDEX};
use crate::interrupts::pic::PIC_OFFSET;
use crate::interrupts::{TablePointer, VirtualAddress};

verus! {

/// The vectors of the table.
pub const IDT_ENTRIES: usize = 256;

/// The type bits of a vector that switches interrupts off while it runs.
pub const INTERRUPT_GATE: u8 = 0b1110;

/// The flag of a vector that holds a handler.
pub const GATE_PRESENT: u8 = 0b1000_0000;

/// The vectors that the kernel handles.
#[derive(Debug, Clone, Copy, PartialEq, Eq, Structural)]
pub enum InterruptIndex {
    DivideError,
    DoubleFault,
    GeneralProtectionFault,
    PageFault,
    Timer,
    Keyboard,
}

impl InterruptIndex {
    /// The number of the vector.
    pub open spec fn spec_as_u8(self) -> u8 {
        match self {
            InterruptIndex::DivideError => 0,
            InterruptIndex::DoubleFault => 8,
            InterruptIndex::GeneralProtectionFault => 13,
            InterruptIndex::PageFault => 14,
            InterruptIndex::Timer => PIC_OFFSET,
            InterruptIndex::Keyboard => (PIC_OFFSET + 1) as u8,
        }
    }

    /// The number of the vector.
    #[verifier::when_used_as_spec(spec_as_u8)]
    pub fn as_u8(self) -> (number: u8)
        ensures
            number == self.spec_as_u8(),
    {
        match self {
            InterruptIndex::DivideError => 0,
            InterruptIndex::DoubleFault => 8,
            InterruptIndex::GeneralProtectionFault => 13,
            InterruptIndex::PageFault => 14,
            InterruptIndex::Timer => PIC_OFFSET,
            InterruptIndex::Keyboard => PIC_OFFSET + 1,
        }
    }

    /// The number of the vector, as an index.
    pub fn as_usize(self) -> (number: usize)
        ensures
            number == self.spec_as_u8(),
    {
        self.as_u8() as usize
    }
}

/// One vector: the address of the handler in three parts, the code
/// selector that the handler runs with, the type bits and present flag, and
/// the slot of the stack that the processor switches to.
#[derive(Debug, Clone, Copy, PartialEq, Eq, Structural)]
pub struct IdtEntry {
    pub fn_pointer_low: u16,
    pub cs: SegmentSelector,
    pub ist: u8,
    pub flags: u8,
    pub fn_pointer_middle: u16,
    pub fn_pointer_high: u32,
    pub reserved: u32,
}

impl IdtEntry {
    /// The address of the handler, put together from its three parts.
    pub open spec fn handler_address(&self) -> u64 {
        (self.fn_pointer_low as u64) | ((self.fn_pointer_middle as u64) << 16) | ((
        self.fn_pointer_high as u64) << 32)
    }

    /// Whether the vector holds a handler.
    pub open spec fn is_present(&self) -> bool {
        self.flags & GATE_PRESENT == GATE_PRESENT
    }

    /// A vector without a handler: an interrupt gate that is not present.
    pub open spec fn unpopulated() -> IdtEntry {
        IdtEntry {
            fn_pointer_low: 0,
            cs: SegmentSelector(0),
            ist: 0,
            flags: INTERRUPT_GATE,
            fn_pointer_middle: 0,
            fn_pointer_high: 0,
            reserved: 0,
        }
    }

    /// A vector without a handler.
    pub fn new() -> (entry: IdtEntry)
        ensures
            entry == IdtEntry::unpopulated(),
            !entry.is_present(),
    {
        assert(0b1110u8 & 0b1000_0000u8 != 0b1000_0000u8) by (bit_vector);
        IdtEntry {
            fn_pointer_low: 0,
            cs: SegmentSelector(0),
            ist: 0,
            flags: INTERRUPT_GATE,
            fn_pointer_middle: 0,
            fn_pointer_high: 0,
            reserved: 0,
        }
    }

    /// Installs the handler at the address `handler` with the code selector
    /// `cs`, which has to be the selector that the code segment register
    /// holds, and marks the vector present.
    pub fn set_handler(&mut self, handler: u64, cs: SegmentSelector)
        ensures
            final(self).handler_address() == handler,
            final(self).cs == cs,
            final(self).is_present(),
            final(self).flags == old(self).flags | GATE_PRESENT,
            final(self).ist == old(self).ist,
            final(self).reserved == old(self).reserved,
    {
        let low: u16 = (handler & 0xffff) as u16;
        let middle: u16 = ((handler >> 16) & 0xffff) as u16;
        let high: u32 = (handler >> 32) as u32;
        let flags = self.flags;
        assert((low as u64) | ((middle as u64) << 16) | ((high as u64) << 32) == handler && (flags
            | 0b1000_0000u8) & 0b1000_0000u8 == 0b1000_0000u8) by (bit_vector)
            requires
                low == (handler & 0xffff) as u16,
                middle == ((handler >> 16) & 0xffff) as u16,
                high == (handler >> 32) as u32,
        ;
        self.fn_pointer_low = low;
        self.fn_pointer_middle = middle;
        self.fn_pointer_high = high;
        self.cs = cs;
        self.flags = flags | GATE_PRESENT;
    }

    /// Makes the processor switch to the stack in slot `index` of the block
    /// of known-good stacks when the vector is taken.
    pub fn with_ist_index(&mut self, index: usize)
        requires
            index < 8,
        ensures
            final(self).ist == index,
            final(self).fn_pointer_low == old(self).fn_pointer_low,
            final(self).fn_pointer_middle == old(self).fn_pointer_middle,
            final(self).fn_pointer_high == old(self).fn_pointer_high,
            final(self).cs == old(self).cs,
            final(self).flags == old(self).flags,
            final(self).reserved == old(self).reserved,
    {
        self.ist = index as u8;
    }
}

/// The addresses of the kernel's handlers.
#[derive(Debug, Clone, Copy, PartialEq, Eq, Structural)]
pub struct Handlers {
    pub divide_error: u64,
    pub double_fault: u64,
    pub general_protection_fault: u64,
    pub page_fault: u64,
    pub timer: u64,
    pub keyboard: u64,
}

impl Handlers {
    /// The address of the handler of `index`.
    pub open spec fn handler(&self, index: InterruptIndex) -> u64 {
        match index {
            InterruptIndex::DivideError => self.divide_error,
            InterruptIndex::DoubleFault => self.double_fault,
            InterruptIndex::GeneralProtectionFault => self.general_protection_fault,
            InterruptIndex::PageFault => self.page_fault,
            InterruptIndex::Timer => self.timer,
            InterruptIndex::Keyboard => self.keyboard,
        }
    }
}

/// The table of the 256 vectors.
#[derive(Debug)]
pub struct Idt(pub Vec<IdtEntry>);

impl Idt {
    /// The table holds 256 vectors.
    pub open spec fn wf(&self) -> bool {
        self.0.len() == 256
    }

    /// Whether the vector `number` is that of one of the kernel's handlers.
    pub open spec fn is_handled(number: int) -> bool {
        number == 0 || number == 8 || number == 13 || number == 14 || number == PIC_OFFSET || number
            == PIC_OFFSET + 1
    }

    /// A table in which no vector holds a handler.
    pub fn new() -> (idt: Idt)
        ensures
            idt.wf(),
            forall|i: int| 0 <= i < 256 ==> #[trigger] idt.0[i] == IdtEntry::unpopulated(),
    {
        let mut entries: Vec<IdtEntry> = Vec::new();
        let mut i: usize = 0;
        while i < 256
            invariant
                i <= 256,
                entries.len() == i,
                forall|j: int| 0 <= j < i ==> #[trigger] entries[j] == IdtEntry::unpopulated(),
            decreases 256 - i,
        {
            entries.push(IdtEntry::new());
            i += 1;
        }
        Idt(entries)
    }

    /// The vector of `index`.
    pub fn index(&self, index: InterruptIndex) -> (entry: &IdtEntry)
        requires
            self.wf(),
        ensures
            *entry == self.0[index.spec_as_u8() as int],
    {
        &self.0[index.as_usize()]
    }

    /// Installs the handler at `handler` in the vector of `index`.
    pub fn set_handler(&mut self, index: InterruptIndex, handler: u64, cs: SegmentSelector)
        requires
            old(self).wf(),
        ensures
            final(self).wf(),
            final(self).0[index.spec_as_u8() as int].handler_address() == handler,
            final(self).0[index.spec_as_u8() as int].cs == cs,
            final(self).0[index.spec_as_u8() as int].is_present(),
            final(self).0[index.spec_as_u8() as int].ist == old(self).0[index.spec_as_u8() as int].ist,
            forall|i: int|
                0 <= i < 256 && i != index.spec_as_u8() ==> #[trigger] final(self).0[i] == old(self).0[i],
    {
        let number = index.as_usize();
        let mut entry = self.0[number];
        entry.set_handler(handler, cs);
        self.0[number] = entry;
    }

    /// What the processor is given to load the table, which lies at the
    /// address `base`.
    pub fn pointer(&self, base: u64) -> (pointer: TablePointer)
        ensures
            pointer == (TablePointer { limit: 4095, base: VirtualAddress(base) }),
    {
        TablePointer { limit: (IDT_ENTRIES * 16 - 1) as u16, base: VirtualAddress(base) }
    }
}

/// Builds the table of vectors: each of the kernel's six handlers is
/// installed with the code selector `cs`, the double fault handler on the
/// stack of its own, and every other vector is left without a handler.
pub fn init(handlers: &Handlers, cs: SegmentSelector) -> (idt: Idt)
    ensures
        idt.wf(),
        forall|index: InterruptIndex|
            {
                let entry = #[trigger] idt.0[index.spec_as_u8() as int];
                entry.handler_address() == handlers.handler(index) && entry.cs == cs
                    && entry.is_present() && entry.ist == if index == InterruptIndex::DoubleFault {
                    DOUBLE_FAULT_IST_INDEX as u8
                } else {
                    0
                }
            },
        forall|i: int| 0 <= i < 256 && !Idt::is_handled(i) ==> #[trigger] idt.0[i] == IdtEntry::unpopulated(),
{
    let mut idt = Idt::new();
    idt.set_handler(InterruptIndex::Timer, handlers.timer, cs);
    idt.set_handler(InterruptIndex::DoubleFault, handlers.double_fault, cs);
    let mut double_fault = idt.0[InterruptIndex::DoubleFault.as_usize()];
    double_fault.with_ist_index(DOUBLE_FAULT_IST_INDEX);
    idt.0[InterruptIndex::DoubleFault.as_usize()] = double_fault;
    idt.set_handler(InterruptIndex::Keyboard, handlers.keyboard, cs);
    idt.set_handler(InterruptIndex::DivideError, handlers.divide_error, cs);
    idt.set_handler(InterruptIndex::GeneralProtectionFault, handlers.general_protection_fault, cs);
    idt.set_handler(InterruptIndex::PageFault, handlers.page_fault, cs);
    idt
}

} // verus!
