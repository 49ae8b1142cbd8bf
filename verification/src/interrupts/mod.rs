//! Privilege levels and interrupts: the descriptor table, the vector table,
//! the interrupt controllers and the timer.

use vstd::prelude::*;
use crate::interrupts::gdt::{
    spec_tss_low, Gdt, LoadStep, SegmentSelector, Tss, DOUBLE_FAULT_IST_INDEX, KERNEL_CODE_SEGMENT,
};
use crate::interrupts::idt::{Handlers, Idt, IdtEntry, InterruptIndex};
use crate::interrupts::pic::Pics;

pub mod gdt;
pub mod handlers;
pub mod idt;
pub mod norwegian;
pub mod pic;
pub mod pit;

verus! {

/// A virtual address.
#[derive(Debug, Clone, Copy, PartialEq, Eq, Structural)]
pub struct VirtualAddress(pub u64);

/// A physical address.
#[derive(Debug, Clone, Copy, PartialEq, Eq, Structural)]
pub struct PhysicalAddress(pub u64);

/// An address of either kind.
#[derive(Debug, Clone, Copy, PartialEq, Eq, Structural)]
pub struct Address(pub u64);

/// What the processor is given to find a descriptor table or a vector
/// table: the address of the table and the offset of its last byte.
#[derive(Debug, Clone, Copy, PartialEq, Eq, Structural)]
pub struct TablePointer {
    pub limit: u16,
    pub base: VirtualAddress,
}

/// One byte to write to an I/O port.
#[derive(Debug, Clone, Copy, PartialEq, Eq, Structural)]
pub struct PortWrite {
    pub port: u16,
    pub value: u8,
}


/// One step of switching the interrupts on.
#[derive(Debug, Clone, Copy, PartialEq, Eq, Structural)]
pub enum EnableStep {
    /// A byte is written to a port.
    Write(PortWrite),
    /// The processor is told to take interrupts.
    EnableInterrupts,
}

/// The steps `writes` as writes, followed by the step that tells the
/// processor to take interrupts.
pub open spec fn enable_steps(writes: Seq<PortWrite>) -> Seq<EnableStep> {
    Seq::new(
        writes.len() + 1,
        |i: int| if i < writes.len() { EnableStep::Write(writes[i]) } else { EnableStep::EnableInterrupts },
    )
}

/// The tables that the processor is given: the descriptor table, the block
/// of known-good stacks, and the table of vectors.
pub struct InterruptTables {
    pub gdt: Gdt,
    pub tss: Tss,
    pub idt: Idt,
}

/// Builds the descriptor table, the block of known-good stacks and the
/// table of vectors. Every vector that holds a handler holds the selector
/// of the kernel's code segment as the descriptor table gives it. The
/// descriptor table has to be loaded before the table of vectors.
pub fn init(double_fault_stack_top: u64, tss_base: u64, handlers: &Handlers) -> (tables: InterruptTables)
    ensures
        tables.gdt.wf(),
        tables.gdt.table() == seq![
            0u64,
            KERNEL_CODE_SEGMENT,
            spec_tss_low(tss_base),
            tss_base >> 32,
            0,
            0,
            0,
            0,
        ],
        tables.gdt.selectors.code == SegmentSelector(8),
        tables.gdt.selectors.tss == SegmentSelector(16),
        tables.tss.interrupt_stack_table[DOUBLE_FAULT_IST_INDEX as int] == double_fault_stack_top,
        tables.idt.wf(),
        forall|index: InterruptIndex|
            {
                let entry = #[trigger] tables.idt.0[index.spec_as_u8() as int];
                entry.handler_address() == handlers.handler(index) && entry.cs
                    == tables.gdt.selectors.code && entry.is_present() && entry.ist == if index
                    == InterruptIndex::DoubleFault {
                    DOUBLE_FAULT_IST_INDEX as u8
                } else {
                    0
                }
            },
        forall|i: int|
            0 <= i < 256 && !Idt::is_handled(i) ==> #[trigger] tables.idt.0[i] == IdtEntry::unpopulated(),
{
    let (gdt, tss) = gdt::init(double_fault_stack_top, tss_base);
    let idt = idt::init(handlers, gdt.selectors.code);
    InterruptTables { gdt, tss, idt }
}

impl InterruptTables {
    /// The steps that make the processor use the tables, where the
    /// descriptor table lies at `gdt_base` and the table of vectors at
    /// `idt_base`: the descriptor table and its selectors come first, the
    /// table of vectors, whose vectors hold the code selector, after them.
    pub fn load(&self, gdt_base: u64, idt_base: u64) -> (steps: Vec<LoadStep>)
        ensures
            steps@ == seq![
                LoadStep::LoadDescriptorTable(TablePointer { limit: 63, base: VirtualAddress(gdt_base) }),
                LoadStep::ReloadCodeSegment(self.gdt.selectors.code),
                LoadStep::LoadTaskRegister(self.gdt.selectors.tss),
                LoadStep::LoadVectorTable(TablePointer { limit: 4095, base: VirtualAddress(idt_base) }),
            ],
    {
        let mut steps = self.gdt.load(gdt_base);
        steps.push(LoadStep::LoadVectorTable(self.idt.pointer(idt_base)));
        assert(steps@ =~= seq![
            LoadStep::LoadDescriptorTable(TablePointer { limit: 63, base: VirtualAddress(gdt_base) }),
            LoadStep::ReloadCodeSegment(self.gdt.selectors.code),
            LoadStep::LoadTaskRegister(self.gdt.selectors.tss),
            LoadStep::LoadVectorTable(TablePointer { limit: 4095, base: VirtualAddress(idt_base) }),
        ]);
        steps
    }
}

/// The steps that switch the interrupts on: the controllers are moved to
/// their vectors and given back the masks `primary_mask` and
/// `secondary_mask` that they had, and only then is the processor told to
/// take interrupts.
pub fn enable(pics: &Pics, primary_mask: u8, secondary_mask: u8) -> (steps: Vec<EnableStep>)
    requires
        pics.wf(),
    ensures
        steps@ == enable_steps(pics.init_writes(primary_mask, secondary_mask)),
        steps@.last() == EnableStep::EnableInterrupts,
        forall|i: int| 0 <= i < steps.len() - 1 ==> #[trigger] steps[i] is Write,
{
    let writes = pics.init(primary_mask, secondary_mask);
    let mut steps: Vec<EnableStep> = Vec::new();
    let mut i: usize = 0;
    while i < writes.len()
        invariant
            i <= writes.len(),
            steps.len() == i,
            forall|j: int| 0 <= j < i ==> #[trigger] steps[j] == EnableStep::Write(writes[j]),
        decreases writes.len() - i,
    {
        steps.push(EnableStep::Write(writes[i]));
        i += 1;
    }
    steps.push(EnableStep::EnableInterrupts);
    assert(steps@ =~= enable_steps(writes@));
    steps
}

} // verus!
