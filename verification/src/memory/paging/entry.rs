//! One 64-bit entry of a page table.

use vstd::prelude::*;
use crate::memory::frame_allocator::Frame;
use crate::memory::paging::{EntryFlags, ALL_FLAGS, PRESENT};

verus! {

/// The bits of an entry that hold a physical address.
pub const ADDRESS_MASK: u64 = 0x000f_ffff_ffff_f000;

/// The frame that the bits `value` of an entry point at.
pub open spec fn spec_pointed_frame(value: u64) -> Option<Frame> {
    if value & PRESENT == PRESENT {
        Some(Frame { number: (value & ADDRESS_MASK) / 4096 })
    } else {
        None
    }
}

/// The bits of an entry that points at `frame` with the flags `flags`.
pub open spec fn spec_entry_value(frame: Frame, flags: u64) -> u64 {
    ((frame.number * 4096) as u64) | flags
}

/// An entry of a page table: flags in bits 0 to 11 and 63, a frame's address
/// in bits 12 to 51. An entry of all zeroes is unused.
#[derive(Debug, Clone, Copy)]
pub struct Entry(u64);

impl View for Entry {
    type V = u64;

    closed spec fn view(&self) -> u64 {
        self.0
    }
}

impl Entry {
    /// An unused entry.
    pub fn new() -> (entry: Entry)
        ensures
            entry@ == 0,
    {
        Entry(0)
    }

    /// The 64 bits of the entry.
    pub fn bits(&self) -> (bits: u64)
        ensures
            bits == self@,
    {
        self.0
    }

    /// Whether the entry points at nothing.
    pub fn is_unused(&self) -> (res: bool)
        ensures
            res == (self@ == 0),
    {
        self.0 == 0
    }

    /// Clears the entry.
    pub fn set_unused(&mut self)
        ensures
            final(self)@ == 0,
    {
        self.0 = 0;
    }

    /// The flags of the entry.
    pub fn flags(&self) -> (flags: EntryFlags)
        ensures
            flags@ == self@ & ALL_FLAGS,
    {
        EntryFlags::from_bits_truncate(self.0)
    }

    /// The frame that the entry points at, if the entry is present.
    pub fn pointed_frame(&self) -> (res: Option<Frame>)
        ensures
            res == spec_pointed_frame(self@),
            res matches Some(frame) ==> frame.is_addressable(),
    {
        let value: u64 = self.0;
        assert((value & ADDRESS_MASK) / 4096 <= 0xff_ffff_ffff) by (bit_vector);
        if value & PRESENT == PRESENT {
            Some(Frame::containing_address(value & ADDRESS_MASK))
        } else {
            None
        }
    }

    /// Points the entry at `frame` with the flags `flags`.
    pub fn set(&mut self, frame: Frame, flags: EntryFlags)
        requires
            frame.is_addressable(),
        ensures
            final(self)@ == spec_entry_value(frame, flags@),
    {
        self.0 = frame.start_address() | flags.bits();
    }
}

/// An entry written by `set` with the present flag points at the frame it was
/// given and carries the flags it was given.
pub proof fn lemma_set_then_read(frame: Frame, flags: u64)
    requires
        frame.is_addressable(),
        flags & ALL_FLAGS == flags,
    ensures
        spec_pointed_frame(spec_entry_value(frame, flags | PRESENT)) == Some(frame),
        spec_entry_value(frame, flags | PRESENT) & ALL_FLAGS == flags | PRESENT,
        spec_entry_value(frame, flags | PRESENT) != 0,
{
    let n = frame.number;
    let a: u64 = (n * 4096) as u64;
    assert(a == n << 12) by (bit_vector)
        requires
            n <= 0xff_ffff_ffff,
            a == n * 4096,
    ;
    let v: u64 = a | (flags | PRESENT);
    assert(v & PRESENT == PRESENT && (v & ADDRESS_MASK) / 4096 == n
        && v & ALL_FLAGS == flags | PRESENT && v != 0) by (bit_vector)
        requires
            n <= 0xff_ffff_ffff,
            a == n << 12,
            flags & ALL_FLAGS == flags,
            v == a | (flags | PRESENT),
    ;
}

} // verus!
