//! Physical frames and the allocators that hand them out.

use vstd::prelude::*;
use crate::memory::boot_info::{BootInformation, ElfSection, MemoryArea};
use crate::memory::PAGE_SIZE;
use crate::memory::MAX_FRAME_NUMBER;

verus! {

/// A frame of physical memory, named by its address divided by the page size.
#[derive(Debug, Clone, Copy, PartialEq, Eq, PartialOrd, Ord, Structural)]
pub struct Frame {
    pub number: u64,
}

impl Frame {
    /// Whether the frame's address fits the address bits of a page table entry.
    pub open spec fn is_addressable(&self) -> bool {
        self.number <= MAX_FRAME_NUMBER
    }

    /// The frame that holds the physical address `address`.
    pub fn containing_address(address: u64) -> (frame: Frame)
        ensures
            frame.number == address / PAGE_SIZE,
    {
        Frame { number: address / PAGE_SIZE }
    }

    /// The frame with the given number.
    pub fn from_number(number: u64) -> (frame: Frame)
        ensures
            frame.number == number,
    {
        Frame { number }
    }

    /// The first physical address of the frame.
    pub fn start_address(&self) -> (address: u64)
        requires
            self.number * PAGE_SIZE <= u64::MAX,
        ensures
            address == self.number * PAGE_SIZE,
    {
        self.number * PAGE_SIZE
    }

    /// The frames from `start` to `end`, both included, in rising order.
    pub fn range_inclusive(start: Frame, end: Frame) -> (iter: FrameIter)
        ensures
            iter.start == start,
            iter.end == end,
    {
        FrameIter { start, end }
    }
}

/// The frames between two frames, both included, handed out in rising order.
#[derive(Debug, Clone, Copy)]
pub struct FrameIter {
    pub start: Frame,
    pub end: Frame,
}

impl FrameIter {
    /// How many frames are still to come.
    pub open spec fn remaining(&self) -> nat {
        if self.start.number <= self.end.number {
            (self.end.number - self.start.number + 1) as nat
        } else {
            0
        }
    }

    /// The next frame of the range, if one is left.
    pub fn next(&mut self) -> (res: Option<Frame>)
        requires
            old(self).end.number < u64::MAX,
        ensures
            final(self).end == old(self).end,
            old(self).remaining() == 0 ==> res.is_none() && *final(self) == *old(self),
            old(self).remaining() > 0 ==> res == Some(old(self).start)
                && final(self).start.number == old(self).start.number + 1,
    {
        if self.start.number <= self.end.number {
            let frame = self.start;
            self.start.number += 1;
            Some(frame)
        } else {
            None
        }
    }
}


/// A source of physical frames.
pub trait FrameAllocator {
    /// The allocator's own invariant.
    spec fn wf(&self) -> bool;

    /// How many more frames the allocator can hand out.
    spec fn remaining(&self) -> nat;

    /// The frame that is handed out next, if one is left.
    spec fn next_frame(&self) -> Option<Frame>;

    /// Hands out a frame that was not handed out before, if one is left.
    fn allocate_frame(&mut self) -> (res: Option<Frame>)
        requires
            old(self).wf(),
        ensures
            final(self).wf(),
            res == old(self).next_frame(),
            res.is_some() <==> old(self).remaining() > 0,
            res matches Some(frame) ==> frame.is_addressable(),
            res.is_some() ==> final(self).remaining() == old(self).remaining() - 1,
            res.is_none() ==> final(self).remaining() == 0,
    ;
}


/// Whether frame `n` lies in the memory area `area`.
pub open spec fn in_area(area: MemoryArea, n: int) -> bool {
    area.size > 0 && area.start_address / 4096 <= n <= (area.start_address + area.size - 1) / 4096
}

/// Whether frame `n` lies in one of `areas`.
pub open spec fn in_some_area(areas: Seq<MemoryArea>, n: int) -> bool {
    exists|i: int| 0 <= i < areas.len() && in_area(#[trigger] areas[i], n)
}

/// Hands out the frames of the usable memory areas in rising order and
/// leaves out the frames of the kernel and of the boot loader's report.
/// A frame that was passed is never looked at again; nothing is taken back.
#[derive(Debug)]
pub struct AreaFrameAllocator {
    pub next_free_frame: Frame,
    pub memory_areas: Vec<MemoryArea>,
    pub kernel_start: Frame,
    pub kernel_end: Frame,
    pub multiboot_start: Frame,
    pub multiboot_end: Frame,
}

impl AreaFrameAllocator {
    /// Whether frame `n` may be handed out: it lies in a usable area, its
    /// address fits a page table entry, and it holds neither the kernel nor
    /// the boot loader's report.
    pub open spec fn usable(&self, n: int) -> bool {
        &&& 0 <= n <= MAX_FRAME_NUMBER
        &&& in_some_area(self.memory_areas@, n)
        &&& !(self.kernel_start.number <= n <= self.kernel_end.number)
        &&& !(self.multiboot_start.number <= n <= self.multiboot_end.number)
    }

    /// The least usable frame from `from` on, if there is one.
    pub open spec fn first_usable(&self, from: int) -> Option<Frame>
        decreases MAX_FRAME_NUMBER + 1 - from,
    {
        if from < 0 || from > MAX_FRAME_NUMBER {
            None
        } else if self.usable(from) {
            Some(Frame { number: from as u64 })
        } else {
            self.first_usable(from + 1)
        }
    }

    /// How many usable frames there are from `from` on.
    pub open spec fn count_usable(&self, from: int) -> nat
        decreases MAX_FRAME_NUMBER + 1 - from,
    {
        if from < 0 || from > MAX_FRAME_NUMBER {
            0
        } else if self.usable(from) {
            1 + self.count_usable(from + 1)
        } else {
            self.count_usable(from + 1)
        }
    }

    /// No frame from `from` up to `to`, `to` left out, is usable: so what
    /// holds from `from` on holds from `to` on.
    pub proof fn lemma_skip(&self, from: int, to: int)
        requires
            0 <= from <= to,
            forall|n: int| from <= n < to ==> !self.usable(n),
        ensures
            self.first_usable(from) == self.first_usable(to),
            self.count_usable(from) == self.count_usable(to),
        decreases to - from,
    {
        if from < to {
            self.lemma_skip(from + 1, to);
            if from > MAX_FRAME_NUMBER {
                self.lemma_none_beyond(from + 1);
            }
        }
    }

    /// The frame that is handed out after the frame `first` has a greater
    /// number, and both are usable: neither holds the kernel or the boot
    /// loader's report.
    pub proof fn lemma_frames_rise(&self, from: int, first: Frame, second: Frame)
        requires
            0 <= from,
            self.first_usable(from) == Some(first),
            self.first_usable(first.number + 1) == Some(second),
        ensures
            from <= first.number < second.number,
            self.usable(first.number as int),
            self.usable(second.number as int),
    {
        self.lemma_first_usable(from);
        self.lemma_first_usable(first.number + 1);
    }

    /// The frame that call number `n` hands out, counted from 0, where the
    /// cursor stands at `from` before the first call.
    pub open spec fn nth_frame(&self, from: int, n: nat) -> Option<Frame>
        decreases n,
    {
        match self.first_usable(from) {
            None => None,
            Some(frame) => if n == 0 {
                Some(frame)
            } else {
                self.nth_frame(frame.number + 1, (n - 1) as nat)
            },
        }
    }

    /// Every frame that is handed out is usable, so lies in no reserved
    /// range, and is not below the cursor.
    pub proof fn lemma_nth_frame_usable(&self, from: int, n: nat)
        requires
            0 <= from,
        ensures
            self.nth_frame(from, n) matches Some(frame) ==> from <= frame.number && self.usable(
                frame.number as int,
            ),
        decreases n,
    {
        self.lemma_first_usable(from);
        if n > 0 && self.first_usable(from) is Some {
            self.lemma_nth_frame_usable(self.first_usable(from).unwrap().number + 1, (n - 1) as nat);
        }
    }

    /// Of the frames that any two calls hand out, the later call's has the
    /// greater number.
    pub proof fn lemma_frames_rise_all(&self, from: int, earlier: nat, later: nat)
        requires
            0 <= from,
            earlier < later,
            self.nth_frame(from, later) is Some,
        ensures
            self.nth_frame(from, earlier) is Some,
            self.nth_frame(from, earlier).unwrap().number < self.nth_frame(from, later).unwrap().number,
        decreases earlier,
    {
        self.lemma_first_usable(from);
        let first = self.first_usable(from).unwrap();
        if earlier == 0 {
            self.lemma_nth_frame_usable(first.number + 1, (later - 1) as nat);
        } else {
            self.lemma_frames_rise_all(first.number + 1, (earlier - 1) as nat, (later - 1) as nat);
        }
    }

    /// The least usable frame from `from` on is usable and not below `from`.
    pub proof fn lemma_first_usable(&self, from: int)
        requires
            0 <= from,
        ensures
            self.first_usable(from) matches Some(frame) ==> from <= frame.number && self.usable(
                frame.number as int,
            ),
        decreases MAX_FRAME_NUMBER + 1 - from,
    {
        if from <= MAX_FRAME_NUMBER && !self.usable(from) {
            self.lemma_first_usable(from + 1);
        }
    }

    /// Beyond the greatest frame number nothing is usable.
    pub proof fn lemma_none_beyond(&self, from: int)
        requires
            from > MAX_FRAME_NUMBER,
        ensures
            self.first_usable(from) is None,
            self.count_usable(from) == 0,
    {
    }

    /// The allocator for the given areas and reserved ranges before it has
    /// looked at any frame.
    pub open spec fn initial(
        kernel_start: u64,
        kernel_end: u64,
        multiboot_start: u64,
        multiboot_end: u64,
        memory_areas: Vec<MemoryArea>,
    ) -> AreaFrameAllocator {
        AreaFrameAllocator {
            next_free_frame: Frame { number: 0 },
            memory_areas,
            kernel_start: Frame { number: kernel_start / 4096 },
            kernel_end: Frame { number: kernel_end / 4096 },
            multiboot_start: Frame { number: multiboot_start / 4096 },
            multiboot_end: Frame { number: multiboot_end / 4096 },
        }
    }

    /// The allocator for the memory areas `memory_areas`, with the kernel
    /// between the addresses `kernel_start` and `kernel_end` and the boot
    /// loader's report between `multiboot_start` and `multiboot_end`.
    pub fn new(
        kernel_start: u64,
        kernel_end: u64,
        multiboot_start: u64,
        multiboot_end: u64,
        memory_areas: Vec<MemoryArea>,
    ) -> (allocator: AreaFrameAllocator)
        requires
            forall|i: int|
                0 <= i < memory_areas.len() ==> (#[trigger] memory_areas[i]).start_address
                    + memory_areas[i].size <= u64::MAX,
        ensures
            allocator.wf(),
            allocator.memory_areas@ == memory_areas@,
            allocator.kernel_start.number == kernel_start / 4096,
            allocator.kernel_end.number == kernel_end / 4096,
            allocator.multiboot_start.number == multiboot_start / 4096,
            allocator.multiboot_end.number == multiboot_end / 4096,
            allocator.next_frame() == allocator.first_usable(0),
            allocator.remaining() == allocator.count_usable(0),
    {
        let mut allocator = AreaFrameAllocator {
            next_free_frame: Frame::containing_address(0),
            memory_areas,
            kernel_start: Frame::containing_address(kernel_start),
            kernel_end: Frame::containing_address(kernel_end),
            multiboot_start: Frame::containing_address(multiboot_start),
            multiboot_end: Frame::containing_address(multiboot_end),
        };
        let ghost initial = allocator;
        allocator.choose_next_area();
        proof {
            allocator.lemma_same_usable(initial, 0);
        }
        allocator
    }

    /// The allocator for what the boot loader reports: the usable areas are
    /// its memory areas, the kernel reaches from the lowest start address to
    /// the highest end address of its sections, and the report itself is
    /// left out too.
    pub fn from_boot_information(boot_info: &BootInformation) -> (allocator: AreaFrameAllocator)
        requires
            boot_info.wf(),
            boot_info.elf_sections.len() > 0,
        ensures
            allocator.wf(),
            allocator.memory_areas@ == boot_info.memory_areas@,
            allocator.kernel_start.number == lowest_start(
                boot_info.elf_sections@,
                boot_info.elf_sections.len() as int,
            ) / 4096,
            allocator.kernel_end.number == highest_end(
                boot_info.elf_sections@,
                boot_info.elf_sections.len() as int,
            ) / 4096,
            allocator.multiboot_start.number == boot_info.start_address / 4096,
            allocator.multiboot_end.number == boot_info.end_address / 4096,
            allocator.next_frame() == allocator.first_usable(0),
            allocator.remaining() == usable_frames(*boot_info),
    {
        let (kernel_start, kernel_end) = kernel_extent(&boot_info.elf_sections);
        let allocator = AreaFrameAllocator::new(
            kernel_start,
            kernel_end,
            boot_info.start_address,
            boot_info.end_address,
            copy_areas(&boot_info.memory_areas),
        );
        proof {
            let sections = boot_info.elf_sections@;
            allocator.lemma_same_usable(
                AreaFrameAllocator::initial(
                    lowest_start(sections, sections.len() as int) as u64,
                    highest_end(sections, sections.len() as int) as u64,
                    boot_info.start_address,
                    boot_info.end_address,
                    boot_info.memory_areas,
                ),
                0,
            );
        }
        allocator
    }

    /// Moves the cursor to the first frame, from the cursor on, that lies in
    /// a usable area. Says whether there is such a frame; where there is
    /// none, the cursor stays.
    pub fn choose_next_area(&mut self) -> (found: bool)
        requires
            old(self).wf(),
        ensures
            final(self).wf(),
            final(self).memory_areas == old(self).memory_areas,
            final(self).kernel_start == old(self).kernel_start,
            final(self).kernel_end == old(self).kernel_end,
            final(self).multiboot_start == old(self).multiboot_start,
            final(self).multiboot_end == old(self).multiboot_end,
            final(self).next_free_frame.number >= old(self).next_free_frame.number,
            forall|n: int|
                old(self).next_free_frame.number <= n < final(self).next_free_frame.number
                    ==> !in_some_area(old(self).memory_areas@, n),
            found ==> in_some_area(final(self).memory_areas@, final(self).next_free_frame.number as int),
            !found ==> final(self).next_free_frame == old(self).next_free_frame && forall|n: int|
                old(self).next_free_frame.number <= n ==> !in_some_area(old(self).memory_areas@, n),
            final(self).next_frame() == old(self).next_frame(),
            final(self).remaining() == old(self).remaining(),
    {
        let cursor = self.next_free_frame.number;
        let mut best: Option<u64> = None;
        let mut i: usize = 0;
        while i < self.memory_areas.len()
            invariant
                i <= self.memory_areas.len(),
                self.wf(),
                *self == *old(self),
                cursor == self.next_free_frame.number,
                best matches Some(b) ==> b >= cursor && in_some_area(self.memory_areas@, b as int),
                forall|j: int, n: int|
                    0 <= j < i && cursor <= n && #[trigger] in_area(self.memory_areas[j], n) ==> (
                    best matches Some(b) && b <= n),
            decreases self.memory_areas.len() - i,
        {
            let area = self.memory_areas[i];
            if area.size > 0 {
                let end_frame = (area.start_address + area.size - 1) / 4096;
                if end_frame >= cursor {
                    let start_frame = area.start_address / 4096;
                    let candidate = if start_frame < cursor { cursor } else { start_frame };
                    assert(in_area(self.memory_areas[i as int], candidate as int));
                    match best {
                        Some(b) => {
                            if candidate < b {
                                best = Some(candidate);
                            }
                        },
                        None => {
                            best = Some(candidate);
                        },
                    }
                }
            }
            i += 1;
        }
        match best {
            Some(b) => {
                self.next_free_frame = Frame::from_number(b);
                proof {
                    assert forall|n: int| cursor <= n < b implies !old(self).usable(n) by {
                    }
                    old(self).lemma_skip(cursor as int, b as int);
                    self.lemma_same_usable(*old(self), b as int);
                }
                true
            },
            None => false,
        }
    }

    /// Two allocators over the same areas and reserved ranges agree on what
    /// is usable.
    pub proof fn lemma_same_usable(&self, other: AreaFrameAllocator, from: int)
        requires
            self.memory_areas@ == other.memory_areas@,
            self.kernel_start == other.kernel_start,
            self.kernel_end == other.kernel_end,
            self.multiboot_start == other.multiboot_start,
            self.multiboot_end == other.multiboot_end,
        ensures
            self.first_usable(from) == other.first_usable(from),
            self.count_usable(from) == other.count_usable(from),
        decreases MAX_FRAME_NUMBER + 1 - from,
    {
        if 0 <= from <= MAX_FRAME_NUMBER {
            self.lemma_same_usable(other, from + 1);
        }
    }
}

impl FrameAllocator for AreaFrameAllocator {
    open spec fn wf(&self) -> bool {
        forall|i: int|
            0 <= i < self.memory_areas.len() ==> (#[trigger] self.memory_areas[i]).start_address
                + self.memory_areas[i].size <= u64::MAX
    }

    open spec fn remaining(&self) -> nat {
        self.count_usable(self.next_free_frame.number as int)
    }

    open spec fn next_frame(&self) -> Option<Frame> {
        self.first_usable(self.next_free_frame.number as int)
    }

    /// Hands out the least usable frame from the cursor on and moves the
    /// cursor behind it.
    fn allocate_frame(&mut self) -> (res: Option<Frame>)
        ensures
            final(self).memory_areas == old(self).memory_areas,
            final(self).kernel_start == old(self).kernel_start,
            final(self).kernel_end == old(self).kernel_end,
            final(self).multiboot_start == old(self).multiboot_start,
            final(self).multiboot_end == old(self).multiboot_end,
            res matches Some(frame) ==> old(self).usable(frame.number as int)
                && frame.number >= old(self).next_free_frame.number
                && final(self).next_free_frame.number == frame.number + 1,
    {
        loop
            invariant
                self.wf(),
                self.memory_areas == old(self).memory_areas,
                self.kernel_start == old(self).kernel_start,
                self.kernel_end == old(self).kernel_end,
                self.multiboot_start == old(self).multiboot_start,
                self.multiboot_end == old(self).multiboot_end,
                self.next_free_frame.number >= old(self).next_free_frame.number,
                self.next_frame() == old(self).next_frame(),
                self.remaining() == old(self).remaining(),
            decreases MAX_FRAME_NUMBER + 2 - self.next_free_frame.number,
        {
            if !self.choose_next_area() {
                proof {
                    self.lemma_nothing_left(self.next_free_frame.number as int);
                }
                return None;
            }
            let ghost chosen = *self;
            let number = self.next_free_frame.number;
            if number > MAX_FRAME_NUMBER {
                proof {
                    self.lemma_none_beyond(number as int);
                }
                return None;
            }
            if self.kernel_start.number <= number && number <= self.kernel_end.number {
                proof {
                    let to = self.kernel_end.number + 1;
                    assert forall|n: int| number <= n < to implies !self.usable(n) by {
                    }
                    self.lemma_skip(number as int, to);
                    if to > MAX_FRAME_NUMBER {
                        self.lemma_none_beyond(to);
                    }
                }
                if self.kernel_end.number >= MAX_FRAME_NUMBER {
                    return None;
                }
                self.next_free_frame = Frame::from_number(self.kernel_end.number + 1);
                proof {
                    self.lemma_same_usable(chosen, self.next_free_frame.number as int);
                }
                continue ;
            }
            if self.multiboot_start.number <= number && number <= self.multiboot_end.number {
                proof {
                    let to = self.multiboot_end.number + 1;
                    assert forall|n: int| number <= n < to implies !self.usable(n) by {
                    }
                    self.lemma_skip(number as int, to);
                    if to > MAX_FRAME_NUMBER {
                        self.lemma_none_beyond(to);
                    }
                }
                if self.multiboot_end.number >= MAX_FRAME_NUMBER {
                    return None;
                }
                self.next_free_frame = Frame::from_number(self.multiboot_end.number + 1);
                proof {
                    self.lemma_same_usable(chosen, self.next_free_frame.number as int);
                }
                continue ;
            }
            assert(self.usable(number as int));
            self.next_free_frame = Frame::from_number(number + 1);
            proof {
                self.lemma_same_usable(chosen, number as int + 1);
            }
            return Some(Frame::from_number(number));
        }
    }
}

impl AreaFrameAllocator {
    /// Where no frame from `from` on lies in a usable area, nothing is left.
    pub proof fn lemma_nothing_left(&self, from: int)
        requires
            0 <= from,
            forall|n: int| from <= n ==> !in_some_area(self.memory_areas@, n),
        ensures
            self.first_usable(from) is None,
            self.count_usable(from) == 0,
        decreases MAX_FRAME_NUMBER + 1 - from,
    {
        if from <= MAX_FRAME_NUMBER {
            self.lemma_nothing_left(from + 1);
        }
    }
}


/// The lowest start address among the first `n` of `sections`.
pub open spec fn lowest_start(sections: Seq<ElfSection>, n: int) -> int
    decreases n,
{
    if n <= 1 {
        sections[0].start_address as int
    } else if sections[n - 1].start_address < lowest_start(sections, n - 1) {
        sections[n - 1].start_address as int
    } else {
        lowest_start(sections, n - 1)
    }
}

/// The highest end address among the first `n` of `sections`.
pub open spec fn highest_end(sections: Seq<ElfSection>, n: int) -> int
    decreases n,
{
    if n <= 1 {
        sections[0].start_address + sections[0].size
    } else if sections[n - 1].start_address + sections[n - 1].size > highest_end(sections, n - 1) {
        sections[n - 1].start_address + sections[n - 1].size
    } else {
        highest_end(sections, n - 1)
    }
}

/// The lowest start address and the highest end address among `sections`.
pub fn kernel_extent(sections: &Vec<ElfSection>) -> (extent: (u64, u64))
    requires
        sections.len() > 0,
        forall|i: int|
            0 <= i < sections.len() ==> (#[trigger] sections[i]).start_address + sections[i].size
                <= u64::MAX,
    ensures
        extent.0 == lowest_start(sections@, sections.len() as int),
        extent.1 == highest_end(sections@, sections.len() as int),
{
    let mut start = sections[0].start_address;
    let mut end = sections[0].end_address();
    let mut i: usize = 1;
    while i < sections.len()
        invariant
            1 <= i <= sections.len(),
            forall|j: int|
                0 <= j < sections.len() ==> (#[trigger] sections[j]).start_address + sections[j].size
                    <= u64::MAX,
            start == lowest_start(sections@, i as int),
            end == highest_end(sections@, i as int),
        decreases sections.len() - i,
    {
        let section = sections[i];
        if section.start_address < start {
            start = section.start_address;
        }
        if section.end_address() > end {
            end = section.end_address();
        }
        i += 1;
    }
    (start, end)
}

/// A copy of `areas`.
pub fn copy_areas(areas: &Vec<MemoryArea>) -> (copy: Vec<MemoryArea>)
    ensures
        copy@ == areas@,
{
    let mut copy: Vec<MemoryArea> = Vec::new();
    let mut i: usize = 0;
    while i < areas.len()
        invariant
            i <= areas.len(),
            copy@ == areas@.subrange(0, i as int),
        decreases areas.len() - i,
    {
        copy.push(areas[i]);
        assert(copy@ == areas@.subrange(0, i + 1));
        i += 1;
    }
    assert(areas@.subrange(0, areas.len() as int) == areas@);
    copy
}

/// How many frames the allocator that `init` sets up can hand out: those
/// of the usable areas but the frames of the kernel, from its lowest start
/// address to its highest end address, and of the boot loader's report.
pub open spec fn usable_frames(boot_info: BootInformation) -> nat {
    let sections = boot_info.elf_sections@;
    AreaFrameAllocator::initial(
        lowest_start(sections, sections.len() as int) as u64,
        highest_end(sections, sections.len() as int) as u64,
        boot_info.start_address,
        boot_info.end_address,
        boot_info.memory_areas,
    ).count_usable(0)
}

} // verus!
