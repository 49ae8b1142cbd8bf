//! Four-level paging: entries, tables, and the operations that map pages.

use vstd::prelude::*;
use crate::memory::boot_info::{
    BootInformation, ElfSection, ELF_SECTION_ALLOCATED, ELF_SECTION_EXECUTABLE, ELF_SECTION_WRITABLE,
};
use crate::memory::frame_allocator::{Frame, FrameAllocator};
use crate::memory::paging::mapper::{
    listed, listed_mapped, mapped_entry, others_kept, outside_window, MapError, Mapper, Mapping,
};
use crate::memory::paging::shape::{
    fresh_shape, shape_after_unmap, shape_map_all, shape_missing, Outcome,
};
use crate::memory::paging::page::{ActivePageTable, InactivePageTable, Page};
use crate::memory::paging::temporary_page::TemporaryPage;

pub mod entry;
pub mod mapper;
pub mod page;
pub mod shape;
pub mod table;
pub mod temporary_page;

verus! {

/// The entry points at a frame or at a table.
pub const PRESENT: u64 = 0x1;

/// Writes through the entry are allowed.
pub const WRITABLE: u64 = 0x2;

/// Code below ring 0 may use the entry.
pub const USER_ACCESSIBLE: u64 = 0x4;

/// Writes go straight to memory.
pub const WRITE_THROUGH: u64 = 0x8;

/// The page is not cached.
pub const NO_CACHE: u64 = 0x10;

/// The processor has read through the entry.
pub const ACCESSED: u64 = 0x20;

/// The processor has written through the entry.
pub const DIRTY: u64 = 0x40;

/// The entry maps a huge page instead of pointing at a table.
pub const HUGE_PAGE: u64 = 0x80;

/// The translation survives a switch of address space.
pub const GLOBAL: u64 = 0x100;

/// Code in the page may not run.
pub const NO_EXECUTE: u64 = 0x8000_0000_0000_0000;

/// Every bit that is a flag.
pub const ALL_FLAGS: u64 = 0x8000_0000_0000_01ff;

/// A set of page table entry flags, one bit each.
#[derive(Debug, Clone, Copy, PartialEq, Eq, Structural)]
pub struct EntryFlags {
    bits: u64,
}

impl View for EntryFlags {
    type V = u64;

    closed spec fn view(&self) -> u64 {
        self.bits
    }
}

impl EntryFlags {
    /// Only flag bits are ever set.
    #[verifier::type_invariant]
    spec fn only_flags(self) -> bool {
        self.bits & ALL_FLAGS == self.bits
    }

    /// The set without any flag.
    pub fn empty() -> (flags: EntryFlags)
        ensures
            flags@ == 0,
    {
        assert(0u64 & 0x8000_0000_0000_01ff == 0) by (bit_vector);
        EntryFlags { bits: 0 }
    }

    /// The flags among `bits`; bits that are no flag are dropped.
    pub closed spec fn spec_from_bits(bits: u64) -> EntryFlags {
        EntryFlags { bits: bits & ALL_FLAGS }
    }

    /// The flags among `bits`; bits that are no flag are dropped.
    pub fn from_bits_truncate(bits: u64) -> (flags: EntryFlags)
        ensures
            flags == EntryFlags::spec_from_bits(bits),
            flags@ == bits & ALL_FLAGS,
    {
        assert((bits & 0x8000_0000_0000_01ff) & 0x8000_0000_0000_01ff == bits
            & 0x8000_0000_0000_01ff) by (bit_vector);
        EntryFlags { bits: bits & ALL_FLAGS }
    }

    /// The flags as bits.
    pub fn bits(&self) -> (bits: u64)
        ensures
            bits == self@,
            bits & ALL_FLAGS == bits,
    {
        proof {
            use_type_invariant(self);
        }
        self.bits
    }

    /// Whether every flag of `other` is in this set.
    pub fn contains(&self, other: EntryFlags) -> (res: bool)
        ensures
            res == (self@ & other@ == other@),
    {
        self.bits & other.bits == other.bits
    }

    /// The flags of this set together with those of `other`.
    pub fn union(self, other: EntryFlags) -> (flags: EntryFlags)
        ensures
            flags@ == self@ | other@,
    {
        proof {
            use_type_invariant(&self);
            use_type_invariant(&other);
        }
        let a: u64 = self.bits;
        let b: u64 = other.bits;
        assert((a | b) & 0x8000_0000_0000_01ff == a | b) by (bit_vector)
            requires
                a & 0x8000_0000_0000_01ff == a,
                b & 0x8000_0000_0000_01ff == b,
        ;
        EntryFlags { bits: a | b }
    }
}


/// The page table flags for a kernel section with the section flags
/// `section_flags`: present where the section takes up memory, writable
/// where it may be written, and not executable where it holds no code.
pub open spec fn spec_section_entry_flags(section_flags: u64) -> u64 {
    let present = if section_flags & ELF_SECTION_ALLOCATED == ELF_SECTION_ALLOCATED {
        PRESENT
    } else {
        0
    };
    let writable = if section_flags & ELF_SECTION_WRITABLE == ELF_SECTION_WRITABLE {
        WRITABLE
    } else {
        0
    };
    let no_execute = if section_flags & ELF_SECTION_EXECUTABLE == ELF_SECTION_EXECUTABLE {
        0
    } else {
        NO_EXECUTE
    };
    present | writable | no_execute
}

impl EntryFlags {
    /// The page table flags for the kernel section `section`.
    pub fn from_elf_section_flags(section: &ElfSection) -> (flags: EntryFlags)
        ensures
            flags == EntryFlags::spec_from_bits(spec_section_entry_flags(section.flags)),
            flags@ == spec_section_entry_flags(section.flags),
    {
        let present: u64 = if section.flags & ELF_SECTION_ALLOCATED == ELF_SECTION_ALLOCATED {
            PRESENT
        } else {
            0
        };
        let writable: u64 = if section.flags & ELF_SECTION_WRITABLE == ELF_SECTION_WRITABLE {
            WRITABLE
        } else {
            0
        };
        let no_execute: u64 = if section.flags & ELF_SECTION_EXECUTABLE == ELF_SECTION_EXECUTABLE {
            0
        } else {
            NO_EXECUTE
        };
        let bits: u64 = present | writable | no_execute;
        assert(bits & 0x8000_0000_0000_01ff == bits) by (bit_vector)
            requires
                present == 0 || present == 1,
                writable == 0 || writable == 2,
                no_execute == 0 || no_execute == 0x8000_0000_0000_0000,
                bits == present | writable | no_execute,
        ;
        EntryFlags::from_bits_truncate(bits)
    }
}

/// The frame of the text-mode frame buffer.
pub const VGA_BUFFER_FRAME: u64 = 0xb8;

/// The page that `remap_the_kernel` reserves as its temporary page.
pub const REMAP_TEMPORARY_PAGE: u64 = 0xcafebabe;

/// The identity mappings of the frames `first` to `last`, both included.
pub open spec fn identity_mappings(first: int, last: int, flags: EntryFlags) -> Seq<Mapping> {
    Seq::new(
        if last >= first { (last - first + 1) as nat } else { 0 },
        |i: int| Mapping {
            page: Page { number: (first + i) as u64 },
            frame: Frame { number: (first + i) as u64 },
            flags,
        },
    )
}

/// The identity mappings of the frames of `section`, none where the
/// section takes up no memory.
pub open spec fn section_mappings(section: ElfSection) -> Seq<Mapping> {
    if section.spec_is_allocated() {
        identity_mappings(
            section.start_address as int / 4096,
            (section.start_address + section.size - 1) / 4096,
            EntryFlags::spec_from_bits(spec_section_entry_flags(section.flags)),
        )
    } else {
        Seq::empty()
    }
}

/// The identity mappings of the frames of the first `n` sections.
pub open spec fn sections_mappings(sections: Seq<ElfSection>, n: int) -> Seq<Mapping>
    decreases n,
{
    if n <= 0 {
        Seq::empty()
    } else {
        sections_mappings(sections, n - 1) + section_mappings(sections[n - 1])
    }
}


/// Every mapping that the kernel needs after the switch to its own tables:
/// the frames of its sections, the text-mode frame buffer, and the frames of
/// the boot loader's report, each at the page with the frame's address.
pub open spec fn kernel_mapping_seq(boot_info: BootInformation) -> Seq<Mapping> {
    sections_mappings(boot_info.elf_sections@, boot_info.elf_sections.len() as int) + seq![
        Mapping {
            page: Page { number: VGA_BUFFER_FRAME },
            frame: Frame { number: VGA_BUFFER_FRAME },
            flags: EntryFlags::spec_from_bits(WRITABLE),
        },
    ] + identity_mappings(
        boot_info.start_address as int / 4096,
        (boot_info.end_address - 1) / 4096,
        EntryFlags::spec_from_bits(PRESENT),
    )
}

/// Whether every mapping of `mappings` maps a page below the identity limit
/// to the frame with the page's number.
pub open spec fn all_identity(mappings: Seq<Mapping>) -> bool {
    forall|i: int|
        0 <= i < mappings.len() ==> (#[trigger] mappings[i]).page.number == mappings[i].frame.number
            && mappings[i].frame.number < 0x8_0000_0000
}

/// No frame of a section that takes up memory is left out: the list of the
/// kernel's mappings maps each to itself, with the flags of the section.
pub proof fn lemma_section_frames_listed(boot_info: BootInformation, section: int, frame: int)
    requires
        0 <= section < boot_info.elf_sections.len(),
        boot_info.elf_sections[section].spec_is_allocated(),
        boot_info.elf_sections[section].start_address / 4096 <= frame <= (
        boot_info.elf_sections[section].start_address + boot_info.elf_sections[section].size - 1) / 4096,
    ensures
        exists|i: int|
            0 <= i < kernel_mapping_seq(boot_info).len() && (#[trigger] kernel_mapping_seq(
                boot_info,
            )[i]) == (Mapping {
                page: Page { number: frame as u64 },
                frame: Frame { number: frame as u64 },
                flags: EntryFlags::spec_from_bits(
                    spec_section_entry_flags(boot_info.elf_sections[section].flags),
                ),
            }),
{
    let sections = boot_info.elf_sections@;
    let n = sections.len() as int;
    lemma_in_sections(sections, n, section, frame);
    let listed = sections_mappings(sections, n);
    let i = choose|i: int|
        0 <= i < listed.len() && (#[trigger] listed[i]) == (Mapping {
            page: Page { number: frame as u64 },
            frame: Frame { number: frame as u64 },
            flags: EntryFlags::spec_from_bits(spec_section_entry_flags(sections[section].flags)),
        });
    assert(kernel_mapping_seq(boot_info)[i] == listed[i]);
}

/// A frame of one of the first `n` sections is among their mappings.
proof fn lemma_in_sections(sections: Seq<ElfSection>, n: int, section: int, frame: int)
    requires
        0 <= section < n <= sections.len(),
        sections[section].spec_is_allocated(),
        sections[section].start_address / 4096 <= frame <= (sections[section].start_address
            + sections[section].size - 1) / 4096,
    ensures
        exists|i: int|
            0 <= i < sections_mappings(sections, n).len() && (#[trigger] sections_mappings(
                sections,
                n,
            )[i]) == (Mapping {
                page: Page { number: frame as u64 },
                frame: Frame { number: frame as u64 },
                flags: EntryFlags::spec_from_bits(spec_section_entry_flags(sections[section].flags)),
            }),
    decreases n,
{
    let before = sections_mappings(sections, n - 1);
    let all = sections_mappings(sections, n);
    let wanted = Mapping {
        page: Page { number: frame as u64 },
        frame: Frame { number: frame as u64 },
        flags: EntryFlags::spec_from_bits(spec_section_entry_flags(sections[section].flags)),
    };
    if section == n - 1 {
        let own = section_mappings(sections[section]);
        let k = frame - sections[section].start_address / 4096;
        assert(own[k] == wanted);
        assert(all[before.len() + k] == wanted);
    } else {
        lemma_in_sections(sections, n - 1, section, frame);
        let i = choose|i: int| 0 <= i < before.len() && (#[trigger] before[i]) == wanted;
        assert(all[i] == wanted);
    }
}

/// Appends the identity mappings of the frames `first` to `last`.
fn push_identity_mappings(list: &mut Vec<Mapping>, first: u64, last: u64, flags: EntryFlags)
    requires
        last < 0x8_0000_0000,
        all_identity(old(list)@),
    ensures
        final(list)@ == old(list)@ + identity_mappings(first as int, last as int, flags),
        all_identity(final(list)@),
{
    let mut number: u64 = first;
    while number <= last
        invariant
            last < 0x8_0000_0000,
            first <= number,
            number <= last + 1 || (last < first && number == first),
            list@ == old(list)@ + identity_mappings(first as int, number - 1, flags),
            all_identity(list@),
        decreases last + 1 - number,
    {
        list.push(Mapping { page: Page { number }, frame: Frame { number }, flags });
        assert(list@ == old(list)@ + identity_mappings(first as int, number as int, flags));
        number += 1;
    }
    assert(identity_mappings(first as int, number - 1, flags) =~= identity_mappings(
        first as int,
        last as int,
        flags,
    ));
}

/// The mappings that the kernel needs after the switch to its own tables.
pub fn kernel_mappings(boot_info: &BootInformation) -> (list: Vec<Mapping>)
    requires
        boot_info.wf(),
    ensures
        list@ == kernel_mapping_seq(*boot_info),
        all_identity(list@),
{
    let mut list: Vec<Mapping> = Vec::new();
    let mut i: usize = 0;
    while i < boot_info.elf_sections.len()
        invariant
            boot_info.wf(),
            i <= boot_info.elf_sections.len(),
            list@ == sections_mappings(boot_info.elf_sections@, i as int),
            all_identity(list@),
        decreases boot_info.elf_sections.len() - i,
    {
        let section = boot_info.elf_sections[i];
        assert(section.wf());
        if section.is_allocated() {
            let flags = EntryFlags::from_elf_section_flags(&section);
            let first = section.start_address / 4096;
            let last = (section.end_address() - 1) / 4096;
            push_identity_mappings(&mut list, first, last, flags);
        } else {
            assert(list@ + Seq::<Mapping>::empty() == list@);
        }
        i += 1;
    }
    let vga = Mapping {
        page: Page { number: VGA_BUFFER_FRAME },
        frame: Frame { number: VGA_BUFFER_FRAME },
        flags: EntryFlags::from_bits_truncate(WRITABLE),
    };
    list.push(vga);
    assert(list@ == sections_mappings(boot_info.elf_sections@, boot_info.elf_sections.len() as int)
        + seq![vga]);
    push_identity_mappings(
        &mut list,
        boot_info.start_address / 4096,
        (boot_info.end_address - 1) / 4096,
        EntryFlags::from_bits_truncate(PRESENT),
    );
    list
}


/// Why the kernel could not be moved to its own page tables.
#[derive(Debug, Clone, Copy, PartialEq, Eq, Structural)]
pub enum RemapError {
    /// A mapping could not be made, in the old hierarchy or in the new one.
    MapFailed(MapError),
    /// The switch was made, but the new hierarchy has no level 1 table for
    /// the page of the old level 4 table, so no guard page could be made.
    GuardPageNotMapped,
}

/// A list of identity mappings stays outside the recursive window.
pub proof fn lemma_identity_outside_window(mappings: Seq<Mapping>)
    requires
        all_identity(mappings),
    ensures
        outside_window(mappings),
        forall|i: int| 0 <= i < mappings.len() ==> (#[trigger] mappings[i]).frame.is_addressable(),
{
    assert forall|i: int| 0 <= i < mappings.len() implies (#[trigger] mappings[i]).page.spec_p4_index()
        != 511 by {
        let n = mappings[i].page.number;
        assert(n < 0x8_0000_0000);
        assert(n / 0x800_0000 < 256);
    }
}

/// What `remap_the_kernel` answers where the active hierarchy is `active`,
/// the page of its level 4 table is `guard`, and `frames` frames can be
/// had: three frames are put by for the temporary page and one is taken for
/// the new level 4 table; the level 1 entry of the temporary page has to be unused;
/// the mappings of the kernel are made in the new hierarchy with the frames
/// that are left; and the new hierarchy has to hold the level 1 table of
/// the guard page.
pub open spec fn remap_result(active: Mapper, frames: nat, boot_info: BootInformation, guard: Page) -> Result<
    (),
    RemapError,
> {
    let temporary = Page { number: REMAP_TEMPORARY_PAGE };
    if frames <= 3 {
        Err(RemapError::MapFailed(MapError::FrameAllocationFailed))
    } else if active.spec_is_in_use(temporary) {
        Err(RemapError::MapFailed(MapError::PageAlreadyMapped))
    } else {
        match active.map_to_result(temporary, 3) {
            Err(e) => Err(RemapError::MapFailed(e)),
            Ok(()) => {
                let built = remap_outcome(frames, boot_info);
                match built.result {
                    Err(e) => Err(RemapError::MapFailed(e)),
                    Ok(()) => if shape_missing(built.shape, guard) == 0 {
                        Ok(())
                    } else {
                        Err(RemapError::GuardPageNotMapped)
                    },
                }
            },
        }
    }
}

/// How making the kernel's mappings in a new hierarchy ends where `frames`
/// frames could be had before any was put by.
pub open spec fn remap_outcome(frames: nat, boot_info: BootInformation) -> Outcome {
    shape_map_all(fresh_shape(), kernel_mapping_seq(boot_info), 0, (frames - 4) as nat)
}

/// Builds a new hierarchy of page tables that maps the kernel's sections,
/// the text-mode frame buffer and the boot loader's report, each at the
/// address it has in physical memory, makes it the active one, and turns
/// the page of the old level 4 table into a guard page. What the list of
/// `kernel_mapping_seq` does not hold is not mapped afterwards.
pub fn remap_the_kernel<A: FrameAllocator>(
    active_table: ActivePageTable,
    allocator: &mut A,
    boot_info: &BootInformation,
) -> (res: Result<ActivePageTable, RemapError>)
    requires
        active_table.wf(),
        active_table.p4_frame().number < 0x8_0000_0000,
        old(allocator).wf(),
        boot_info.wf(),
    ensures
        final(allocator).wf(),
        res is Ok <==> remap_result(
            active_table@,
            old(allocator).remaining(),
            *boot_info,
            Page { number: active_table.p4_frame().number },
        ) is Ok,
        res matches Err(e) ==> remap_result(
            active_table@,
            old(allocator).remaining(),
            *boot_info,
            Page { number: active_table.p4_frame().number },
        ) == Err::<(), RemapError>(e),
        res matches Ok(table) ==> {
            let guard = Page { number: active_table.p4_frame().number };
            let mappings = kernel_mapping_seq(*boot_info);
            let built = remap_outcome(old(allocator).remaining(), *boot_info);
            &&& table.wf()
            &&& all_identity(mappings)
            &&& table@.shape() == shape_after_unmap(built.shape, guard)
            &&& final(allocator).remaining() == built.frames
            &&& table@.leaf(guard) == 0
            &&& table@.translation(guard) is None
            &&& kernel_mapped(table@, mappings, guard)
            &&& forall|q: Page|
                q.spec_p4_index() != 511 && !listed(mappings, mappings.len() as int, q)
                    ==> #[trigger] table@.translation(q) is None
        },
{
    let mut active = active_table;
    let mut temporary_page = TemporaryPage::new(Page { number: REMAP_TEMPORARY_PAGE }, allocator);
    let frame = match allocator.allocate_frame() {
        Some(frame) => frame,
        None => { return Err(RemapError::MapFailed(MapError::FrameAllocationFailed)); },
    };
    let mut new_table = match InactivePageTable::new(frame, &mut active, &mut temporary_page) {
        Ok(table) => table,
        Err(e) => { return Err(RemapError::MapFailed(e)); },
    };
    let mappings = kernel_mappings(boot_info);
    proof {
        lemma_identity_outside_window(mappings@);
    }
    let ghost fresh = new_table@;
    match active.with(&mut new_table, &mut temporary_page, &mappings, allocator) {
        Ok(()) => {},
        Err(e) => { return Err(RemapError::MapFailed(e)); },
    }
    let ghost built = new_table@;
    let old_table = active.switch(new_table);
    let guard = Page::containing_address(old_table.root_frame().start_address());
    proof {
        crate::memory::paging::mapper::lemma_shape_result(built, guard, 0);
    }
    match active.unmap(guard, allocator) {
        Ok(_) => {
            proof {
                lemma_remapped(fresh, built, active@, mappings@, guard);
            }
            Ok(active)
        },
        Err(_) => Err(RemapError::GuardPageNotMapped),
    }
}

/// Whether each page of `mappings`, but the guard page `guard`, is mapped
/// in `table` as its mapping asks: to its frame, with its flags and the
/// present flag.
pub open spec fn kernel_mapped(table: Mapper, mappings: Seq<Mapping>, guard: Page) -> bool {
    forall|i: int|
        0 <= i < mappings.len() && !(#[trigger] mappings[i]).page.same_indices(guard) ==> table.leaf(
            mappings[i].page,
        ) == mapped_entry(mappings[i]) && table.translation(mappings[i].page) == Some(mappings[i].frame)
}

/// What the new hierarchy translates once the guard page is unmapped.
proof fn lemma_remapped(fresh: Mapper, built: Mapper, after: Mapper, mappings: Seq<Mapping>, guard: Page)
    requires
        outside_window(mappings),
        guard.spec_p4_index() != 511,
        forall|page: Page| page.spec_p4_index() != 511 ==> #[trigger] fresh.leaf(page) == 0,
        listed_mapped(built, mappings, mappings.len() as int),
        others_kept(built, fresh, mappings, mappings.len() as int),
        after.same_translations_except(built, guard),
        after.leaf(guard) == 0,
    ensures
        kernel_mapped(after, mappings, guard),
        forall|q: Page|
            q.spec_p4_index() != 511 && !listed(mappings, mappings.len() as int, q)
                ==> #[trigger] after.translation(q) is None,
{
    reveal(listed_mapped);
    reveal(others_kept);
    assert forall|i: int|
        0 <= i < mappings.len() && !(#[trigger] mappings[i]).page.same_indices(
            guard,
        ) implies after.leaf(mappings[i].page) == mapped_entry(mappings[i]) && after.translation(
        mappings[i].page,
    ) == Some(mappings[i].frame) by {
        let p = mappings[i].page;
        assert(built.leaf(p) == mapped_entry(mappings[i]));
        assert(built.translation(p) == Some(mappings[i].frame));
        assert(after.leaf(p) == built.leaf(p));
    }
    assert forall|q: Page|
        q.spec_p4_index() != 511 && !listed(
            mappings,
            mappings.len() as int,
            q,
        ) implies #[trigger] after.translation(q) is None by {
        assert(built.leaf(q) == fresh.leaf(q));
        if q.same_indices(guard) {
            assert(after.leaf(q) == after.leaf(guard));
        } else {
            assert(after.leaf(q) == built.leaf(q));
        }
    }
}

} // verus!
