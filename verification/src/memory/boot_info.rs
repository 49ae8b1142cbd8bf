//! What the boot loader reports: the usable memory, the sections of the
//! loaded kernel, and where the report itself lies.

use vstd::prelude::*;

verus! {

/// The section flag of a section that may be written at run time.
pub const ELF_SECTION_WRITABLE: u64 = 0x1;

/// The section flag of a section that takes up memory at run time.
pub const ELF_SECTION_ALLOCATED: u64 = 0x2;

/// The section flag of a section that holds code.
pub const ELF_SECTION_EXECUTABLE: u64 = 0x4;

/// Addresses below this bound have an identical canonical virtual address.
pub const IDENTITY_LIMIT: u64 = 0x8000_0000_0000;

/// A range of physical memory that the kernel may use.
#[derive(Debug, Clone, Copy, PartialEq, Eq, Structural)]
pub struct MemoryArea {
    pub start_address: u64,
    pub size: u64,
}

/// A section of the loaded kernel image.
#[derive(Debug, Clone, Copy, PartialEq, Eq, Structural)]
pub struct ElfSection {
    pub start_address: u64,
    pub size: u64,
    pub flags: u64,
}

impl ElfSection {
    /// Whether the section takes up memory at run time.
    pub open spec fn spec_is_allocated(&self) -> bool {
        self.flags & ELF_SECTION_ALLOCATED == ELF_SECTION_ALLOCATED
    }

    /// The section ends within the address space; where it takes up memory,
    /// it starts at a page boundary and ends above address 0 and below the
    /// identity limit.
    pub open spec fn wf(&self) -> bool {
        &&& self.start_address + self.size <= u64::MAX
        &&& self.spec_is_allocated() ==> self.start_address % 4096 == 0 && 1 <= self.start_address
            + self.size <= IDENTITY_LIMIT
    }

    /// Whether the section takes up memory at run time.
    #[verifier::when_used_as_spec(spec_is_allocated)]
    pub fn is_allocated(&self) -> (res: bool)
        ensures
            res == self.spec_is_allocated(),
    {
        self.flags & ELF_SECTION_ALLOCATED == ELF_SECTION_ALLOCATED
    }

    /// The first address behind the section.
    pub fn end_address(&self) -> (address: u64)
        requires
            self.start_address + self.size <= u64::MAX,
        ensures
            address == self.start_address + self.size,
    {
        self.start_address + self.size
    }
}

/// The boot loader's report.
#[derive(Debug)]
pub struct BootInformation {
    pub start_address: u64,
    pub end_address: u64,
    pub elf_sections: Vec<ElfSection>,
    pub memory_areas: Vec<MemoryArea>,
}

impl BootInformation {
    /// The report is not empty and lies below the identity limit, every
    /// section is well formed, and every memory area ends within the address
    /// space.
    pub open spec fn wf(&self) -> bool {
        &&& self.start_address < self.end_address <= IDENTITY_LIMIT
        &&& forall|i: int| 0 <= i < self.elf_sections.len() ==> (#[trigger] self.elf_sections[i]).wf()
        &&& forall|i: int|
            0 <= i < self.memory_areas.len() ==> (#[trigger] self.memory_areas[i]).start_address
                + self.memory_areas[i].size <= u64::MAX
    }
}

} // verus!
