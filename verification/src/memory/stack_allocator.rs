//! Kernel stacks, each with an unmapped guard page below it.

use vstd::prelude::*;
use crate::memory::frame_allocator::FrameAllocator;
use crate::memory::paging::mapper::{MapError, Mapper};
use crate::memory::paging::page::{ActivePageTable, Page, PageIter};
use crate::memory::paging::shape::{
    shape_after_map_to, shape_map_pages, shape_map_result, shape_missing, EntryKind,
};
use crate::memory::paging::{EntryFlags, PRESENT, WRITABLE};
use crate::memory::PAGE_SIZE;

verus! {

/// A stack: the addresses from `bottom` up to `top`, `top` left out. The
/// page below `bottom` is its guard page.
#[derive(Debug, Clone, Copy, PartialEq, Eq, Structural)]
pub struct Stack {
    top: u64,
    bottom: u64,
}

impl Stack {
    /// The stack between `bottom` and `top`.
    pub fn new(top: u64, bottom: u64) -> (stack: Stack)
        requires
            top > bottom,
        ensures
            stack.top() == top,
            stack.bottom() == bottom,
    {
        Stack { top, bottom }
    }

    /// The first address above the stack.
    pub closed spec fn spec_top(&self) -> u64 {
        self.top
    }

    /// The lowest address of the stack.
    pub closed spec fn spec_bottom(&self) -> u64 {
        self.bottom
    }

    /// The first address above the stack.
    #[verifier::when_used_as_spec(spec_top)]
    pub fn top(&self) -> (top: u64)
        ensures
            top == self.spec_top(),
    {
        self.top
    }

    /// The lowest address of the stack.
    #[verifier::when_used_as_spec(spec_bottom)]
    pub fn bottom(&self) -> (bottom: u64)
        ensures
            bottom == self.spec_bottom(),
    {
        self.bottom
    }
}

/// Whether the pages from `first` to `last` are canonical and lie outside
/// the recursive window: all in the lower half, or all in the upper half
/// below the window.
pub open spec fn mappable_range(first: u64, last: u64) -> bool {
    last < 0x8_0000_0000 || (0xf_fff8_0000_0000 <= first && last < 0xf_ffff_f800_0000)
}

/// Hands out stacks from a range of pages, lowest pages first.
pub struct StackAllocator {
    range: PageIter,
}

impl StackAllocator {
    /// The pages that are left.
    pub closed spec fn range(&self) -> PageIter {
        self.range
    }

    /// The pages that are left can be mapped.
    pub open spec fn wf(&self) -> bool {
        self.range().remaining() > 0 ==> mappable_range(
            self.range().start.number,
            self.range().end.number,
        )
    }

    /// Whether `after` is this allocator less the guard page and the
    /// `size_in_pages` pages of a stack.
    pub open spec fn range_taken(&self, after: StackAllocator, size_in_pages: u64) -> bool {
        &&& after.range().end == self.range().end
        &&& after.range().start.number == self.range().start.number + size_in_pages + 1
    }

    /// The allocator for the pages of `page_range`.
    pub fn new(page_range: PageIter) -> (allocator: StackAllocator)
        ensures
            allocator.range() == page_range,
    {
        StackAllocator { range: page_range }
    }

    /// Takes a guard page and the `size_in_pages` pages of a stack from the
    /// range and maps the stack's pages, writable, to frames of
    /// `frame_allocator`. There is no stack for a size of zero, nor where
    /// fewer than `size_in_pages` pages and one are left: then nothing is
    /// taken and nothing is mapped. The guard page is the lowest page that
    /// was left; it is not mapped, and no later stack can hold it.
    pub fn alloc_stack<FA: FrameAllocator>(
        &mut self,
        active_table: &mut ActivePageTable,
        frame_allocator: &mut FA,
        size_in_pages: u64,
    ) -> (res: Result<Option<Stack>, MapError>)
        requires
            old(self).wf(),
            old(active_table).wf(),
            old(frame_allocator).wf(),
        ensures
            final(self).wf(),
            final(active_table).wf(),
            final(active_table).p4_frame() == old(active_table).p4_frame(),
            final(frame_allocator).wf(),
            size_in_pages == 0 || old(self).range().remaining() <= size_in_pages ==> res == Ok::<
                Option<Stack>,
                MapError,
            >(None) && *final(self) == *old(self) && *final(active_table) == *old(active_table)
                && *final(frame_allocator) == *old(frame_allocator),
            size_in_pages > 0 && old(self).range().remaining() > size_in_pages ==> {
                let guard = old(self).range().start.number;
                let mapped = shape_map_pages(
                    old(active_table)@.shape(),
                    guard + 1,
                    size_in_pages as int,
                    old(frame_allocator).remaining(),
                );
                &&& old(self).range_taken(*final(self), size_in_pages)
                &&& res is Ok <==> mapped.result is Ok
                &&& res matches Err(e) ==> mapped.result == Err::<(), MapError>(e)
                &&& res != Ok::<Option<Stack>, MapError>(None)
                &&& res matches Ok(Some(stack)) ==> stack.bottom() == (guard + 1) * PAGE_SIZE
                    && stack.top() == (guard + 1 + size_in_pages) * PAGE_SIZE && all_mapped(
                    final(active_table)@,
                    guard + 1,
                    guard + 1 + size_in_pages,
                ) && final(frame_allocator).remaining() == mapped.frames
                &&& final(active_table)@.leaf(Page { number: guard }) == old(active_table)@.leaf(
                    Page { number: guard },
                )
                &&& same_outside(
                    final(active_table)@,
                    old(active_table)@,
                    guard + 1,
                    guard + 1 + size_in_pages,
                )
            },
    {
        if size_in_pages == 0 {
            return Ok(None);
        }
        let mut range = self.range;
        if range.end.number == u64::MAX {
            proof {
                assert(self.range().remaining() == 0);
            }
            return Ok(None);
        }
        let guard_page = range.next();
        let stack_start = range.next();
        let stack_end = if size_in_pages == 1 {
            stack_start
        } else {
            range.nth(size_in_pages - 2)
        };
        match (guard_page, stack_start, stack_end) {
            (Some(guard), Some(start), Some(end_page)) => {
                self.range = range;
                proof {
                    lemma_mappable_page(guard.number, end_page.number, start.number);
                }
                let mapped = map_page_range(active_table, frame_allocator, start, end_page);
                proof {
                    lemma_guard_kept(active_table@, old(active_table)@, guard.number, end_page.number);
                }
                match mapped {
                    Ok(()) => Ok(
                        Some(Stack::new(end_page.start_address() + PAGE_SIZE, start.start_address())),
                    ),
                    Err(e) => Err(e),
                }
            },
            _ => Ok(None),
        }
    }
}

/// Maps each of the pages from `first` to `last`, both included, to a frame
/// of `frame_allocator`, writable, and stops at the first page that cannot
/// be mapped. A page whose level 1 entry is in use cannot be.
pub fn map_page_range<FA: FrameAllocator>(
    active_table: &mut ActivePageTable,
    frame_allocator: &mut FA,
    first: Page,
    last: Page,
) -> (res: Result<(), MapError>)
    requires
        old(active_table).wf(),
        old(frame_allocator).wf(),
        first.number <= last.number,
        mappable_range(first.number, last.number),
    ensures
        final(active_table).wf(),
        final(active_table).p4_frame() == old(active_table).p4_frame(),
        final(frame_allocator).wf(),
        res == shape_map_pages(
            old(active_table)@.shape(),
            first.number as int,
            last.number - first.number + 1,
            old(frame_allocator).remaining(),
        ).result,
        res is Ok ==> final(active_table)@.shape() == shape_map_pages(
            old(active_table)@.shape(),
            first.number as int,
            last.number - first.number + 1,
            old(frame_allocator).remaining(),
        ).shape && final(frame_allocator).remaining() == shape_map_pages(
            old(active_table)@.shape(),
            first.number as int,
            last.number - first.number + 1,
            old(frame_allocator).remaining(),
        ).frames,
        same_outside(final(active_table)@, old(active_table)@, first.number as int, last.number + 1),
        res is Ok ==> all_mapped(final(active_table)@, first.number as int, last.number + 1),
        res is Ok ==> none_mapped(old(active_table)@, first.number as int, last.number + 1),
{
    let mut number: u64 = first.number;
    proof {
        lemma_nothing_mapped_yet(active_table@, first.number as int);
    }
    while number <= last.number
        invariant
            mappable_range(first.number, last.number),
            first.number <= number <= last.number + 1,
            active_table.wf(),
            active_table.p4_frame() == old(active_table).p4_frame(),
            frame_allocator.wf(),
            all_mapped(active_table@, first.number as int, number as int),
            none_mapped(old(active_table)@, first.number as int, number as int),
            same_outside(active_table@, old(active_table)@, first.number as int, number as int),
            shape_map_pages(
                old(active_table)@.shape(),
                first.number as int,
                last.number - first.number + 1,
                old(frame_allocator).remaining(),
            ) == shape_map_pages(
                active_table@.shape(),
                number as int,
                last.number + 1 - number,
                frame_allocator.remaining(),
            ),
        decreases last.number + 1 - number,
    {
        let page = Page { number };
        let ghost before = active_table@;
        proof {
            lemma_mappable_page(first.number, last.number, number);
        }
        let mapped = map_stack_page(active_table, frame_allocator, page);
        proof {
            lemma_stack_page_mapped(
                old(active_table)@,
                before,
                active_table@,
                first.number,
                last.number,
                number,
                mapped is Ok,
            );
        }
        match mapped {
            Ok(()) => {},
            Err(e) => {
                proof {
                    lemma_same_outside_wider(
                        active_table@,
                        old(active_table)@,
                        first.number as int,
                        number as int,
                        last.number + 1,
                    );
                }
                return Err(e);
            },
        }
        number += 1;
    }
    Ok(())
}

/// Maps one page to a frame of `frame_allocator`, writable, unless the
/// page's level 1 entry is in use.
fn map_stack_page<FA: FrameAllocator>(
    active_table: &mut ActivePageTable,
    frame_allocator: &mut FA,
    page: Page,
) -> (res: Result<(), MapError>)
    requires
        old(active_table).wf(),
        old(frame_allocator).wf(),
        page.spec_p4_index() != 511,
    ensures
        final(active_table).wf(),
        final(active_table).p4_frame() == old(active_table).p4_frame(),
        final(frame_allocator).wf(),
        final(active_table)@.same_translations_except(old(active_table)@, page),
        res == shape_map_result(old(active_table)@.shape(), page, old(frame_allocator).remaining()),
        res is Ok ==> final(active_table)@.shape() == shape_after_map_to(
            old(active_table)@.shape(),
            page,
            EntryKind::Link,
        ) && final(frame_allocator).remaining() == old(frame_allocator).remaining() - 1 - shape_missing(
            old(active_table)@.shape(),
            page,
        ),
        res is Ok ==> final(active_table)@.translation(page) is Some && final(active_table)@.leaf_flags(page) == PRESENT | WRITABLE,
        res is Ok ==> old(active_table)@.leaf(page) == 0,
        res is Err ==> final(active_table)@.same_translations(old(active_table)@),
{
    proof {
        crate::memory::paging::mapper::lemma_shape_result(active_table@, page, 0);
    }
    if active_table.is_in_use(page) {
        proof {
            reveal_same(active_table@);
        }
        return Err(MapError::PageAlreadyMapped);
    }
    let flags = EntryFlags::from_bits_truncate(WRITABLE);
    assert((2u64 & 0x8000_0000_0000_01ff) & 0x80 == 0 && (2u64 & 0x8000_0000_0000_01ff) | 1 == 1 | 2) by (bit_vector);
    active_table.map(page, flags, frame_allocator)
}

/// A hierarchy keeps its own level 1 entries.
proof fn reveal_same(mapper: Mapper)
    ensures
        mapper.same_translations(mapper),
        forall|page: Page| mapper.same_translations_except(mapper, page),
{
}

/// Whether each of the pages from `first` up to `limit`, `limit` left out,
/// is mapped in `mapper`, present and writable and with no other flag.
#[verifier::opaque]
pub open spec fn all_mapped(mapper: Mapper, first: int, limit: int) -> bool {
    forall|n: int|
        first <= n < limit ==> (#[trigger] mapper.leaf(Page { number: n as u64 })) != 0
            && mapper.translation(Page { number: n as u64 }) is Some && mapper.leaf_flags(
            Page { number: n as u64 },
        ) == PRESENT | WRITABLE
}

/// Whether the level 1 entry of each of the pages from `first` up to
/// `limit`, `limit` left out, is unused in `mapper`.
#[verifier::opaque]
pub open spec fn none_mapped(mapper: Mapper, first: int, limit: int) -> bool {
    forall|n: int| first <= n < limit ==> (#[trigger] mapper.leaf(Page { number: n as u64 })) == 0
}

/// Whether `page` has the table indices of one of the pages from `first` up
/// to `limit`, `limit` left out.
pub open spec fn covered(page: Page, first: int, limit: int) -> bool {
    exists|n: int| first <= n < limit && #[trigger] page.same_indices(Page { number: n as u64 })
}

/// Whether every page outside the recursive window that is none of the
/// pages from `first` up to `limit` translates in `after` as in `before`.
#[verifier::opaque]
pub open spec fn same_outside(after: Mapper, before: Mapper, first: int, limit: int) -> bool {
    forall|q: Page|
        q.spec_p4_index() != 511 && !covered(q, first, limit) ==> #[trigger] after.leaf(q)
            == before.leaf(q)
}

/// Before any page is mapped nothing has changed.
proof fn lemma_nothing_mapped_yet(mapper: Mapper, first: int)
    ensures
        all_mapped(mapper, first, first),
        none_mapped(mapper, first, first),
        same_outside(mapper, mapper, first, first),
{
    reveal(all_mapped);
    reveal(none_mapped);
    reveal(same_outside);
}

/// What one more mapped page keeps of the loop's invariant.
proof fn lemma_stack_page_mapped(
    initial: Mapper,
    before: Mapper,
    after: Mapper,
    first: u64,
    last: u64,
    number: u64,
    ok: bool,
)
    requires
        mappable_range(first, last),
        first <= number <= last,
        all_mapped(before, first as int, number as int),
        none_mapped(initial, first as int, number as int),
        same_outside(before, initial, first as int, number as int),
        after.same_translations_except(before, Page { number }),
        ok ==> after.translation(Page { number }) is Some && after.leaf_flags(Page { number })
            == PRESENT | WRITABLE && before.leaf(Page { number }) == 0,
        !ok ==> after.same_translations(before),
    ensures
        ok ==> all_mapped(after, first as int, number + 1),
        ok ==> none_mapped(initial, first as int, number + 1),
        ok ==> same_outside(after, initial, first as int, number + 1),
        !ok ==> same_outside(after, initial, first as int, number as int),
{
    let page = Page { number };
    reveal(all_mapped);
    reveal(none_mapped);
    reveal(same_outside);
    lemma_mappable_page(first, last, number);
    if ok {
        assert(initial.leaf(page) == 0) by {
            if covered(page, first as int, number as int) {
                let n = choose|n: int|
                    first <= n < number && #[trigger] page.same_indices(Page { number: n as u64 });
                lemma_pages_apart(first, last, page, Page { number: n as u64 });
            }
        }
        assert forall|n: int| first <= n < number + 1 implies (#[trigger] after.leaf(
            Page { number: n as u64 },
        )) != 0 && after.translation(Page { number: n as u64 }) is Some && after.leaf_flags(
            Page { number: n as u64 },
        ) == PRESENT | WRITABLE by {
            let q = Page { number: n as u64 };
            if n < number {
                lemma_mappable_page(first, last, n as u64);
                if q.same_indices(page) {
                    lemma_pages_apart(first, last, q, page);
                }
                assert(after.leaf(q) == before.leaf(q));
            }
        }
        assert forall|q: Page|
            q.spec_p4_index() != 511 && !covered(q, first as int, number + 1) implies #[trigger] after.leaf(
            q,
        ) == initial.leaf(q) by {
            assert(!q.same_indices(Page { number: number as int as u64 }));
            assert(!covered(q, first as int, number as int));
            assert(after.leaf(q) == before.leaf(q));
        }
    } else {
        assert forall|q: Page|
            q.spec_p4_index() != 511 && !covered(q, first as int, number as int) implies #[trigger] after.leaf(
            q,
        ) == initial.leaf(q) by {
            assert(after.leaf(q) == before.leaf(q));
        }
    }
}

/// Pages that are left alone in a range are left alone in a wider one.
proof fn lemma_same_outside_wider(after: Mapper, before: Mapper, first: int, limit: int, wider: int)
    requires
        limit <= wider,
        same_outside(after, before, first, limit),
    ensures
        same_outside(after, before, first, wider),
{
    reveal(same_outside);
    assert forall|q: Page|
        q.spec_p4_index() != 511 && !covered(q, first, wider) implies #[trigger] after.leaf(q)
        == before.leaf(q) by {
        if covered(q, first, limit) {
            let n = choose|n: int| first <= n < limit && #[trigger] q.same_indices(Page { number: n as u64 });
            assert(q.same_indices(Page { number: n as u64 }));
        }
    }
}

/// A page below the pages that are mapped for a stack keeps its
/// translation: the guard page of the stack, and the guard page of every
/// stack that was handed out before.
pub proof fn lemma_guard_kept(after: Mapper, before: Mapper, guard: u64, last: u64)
    requires
        mappable_range(guard, last),
        guard < last,
        same_outside(after, before, guard + 1, last + 1),
    ensures
        after.leaf(Page { number: guard }) == before.leaf(Page { number: guard }),
        after.translation(Page { number: guard }) == before.translation(Page { number: guard }),
{
    lemma_page_below_kept(after, before, guard, guard + 1, last);
}

/// A page below the pages from `first` to `last` is none of them: where
/// they are mapped, it keeps its translation.
pub proof fn lemma_page_below_kept(after: Mapper, before: Mapper, page: u64, first: int, last: u64)
    requires
        mappable_range(page, last),
        page < first <= last + 1,
        same_outside(after, before, first, last + 1),
    ensures
        after.leaf(Page { number: page }) == before.leaf(Page { number: page }),
        after.translation(Page { number: page }) == before.translation(Page { number: page }),
{
    let g = Page { number: page };
    reveal(same_outside);
    lemma_mappable_page(page, last, page);
    if covered(g, first, last + 1) {
        let n = choose|n: int| first <= n < last + 1 && #[trigger] g.same_indices(Page { number: n as u64 });
        lemma_pages_apart(page, last, g, Page { number: n as u64 });
    }
}

/// A page of a mappable range lies outside the recursive window.
pub proof fn lemma_mappable_page(first: u64, last: u64, number: u64)
    requires
        mappable_range(first, last),
        first <= number <= last,
    ensures
        (Page { number }).spec_p4_index() != 511,
        number <= crate::memory::paging::page::MAX_PAGE_NUMBER,
{
}

/// Two pages of a mappable range with the same table indices are the same
/// page.
pub proof fn lemma_pages_apart(first: u64, last: u64, p: Page, q: Page)
    requires
        mappable_range(first, last),
        first <= p.number <= last,
        first <= q.number <= last,
        p.same_indices(q),
    ensures
        p == q,
{
    lemma_indices_number(p);
    lemma_indices_number(q);
    let a = p.number as int;
    let b = q.number as int;
    assert(a % 0x10_0000_0000 == b % 0x10_0000_0000);
    assert(a == b) by (nonlinear_arith)
        requires
            a % 0x10_0000_0000 == b % 0x10_0000_0000,
            (0 <= a < 0x8_0000_0000 && 0 <= b < 0x8_0000_0000) || (0xf_fff8_0000_0000 <= a
                < 0xf_ffff_f800_0000 && 0xf_fff8_0000_0000 <= b < 0xf_ffff_f800_0000),
    ;
}

/// The four table indices of a page are the low 36 bits of its number.
pub proof fn lemma_indices_number(p: Page)
    ensures
        p.number % 0x10_0000_0000 == ((p.spec_p4_index() * 512 + p.spec_p3_index()) * 512
            + p.spec_p2_index()) * 512 + p.spec_p1_index(),
{
    let n = p.number as int;
    assert(n % 0x10_0000_0000 == (((n / 0x800_0000) % 512) * 512 + (n / 0x4_0000) % 512) * 512 * 512
        + ((n / 0x200) % 512) * 512 + n % 512) by (nonlinear_arith);
}

} // verus!
