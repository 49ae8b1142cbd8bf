//! What decides whether pages can be mapped: of each entry of each table,
//! only whether it is unused, points at a table, or maps a huge page.

use vstd::prelude::*;
use crate::memory::paging::mapper::{p1_address, p2_address, p3_address, MapError, Mapping};
use crate::memory::paging::page::Page;
use crate::memory::paging::table::{is_table_link, P4_TABLE_ADDRESS};
use crate::memory::paging::HUGE_PAGE;

verus! {

/// What an entry is to a walk through the tables.
pub enum EntryKind {
    /// All bits are zero.
    Unused,
    /// Present and no huge page: a walk goes on in the table below.
    Link,
    /// No link, with the huge page flag.
    Huge,
    /// No link and no huge page flag, but not all zero.
    Other,
}

/// What the entry with the bits `value` is to a walk.
pub open spec fn entry_kind(value: u64) -> EntryKind {
    if is_table_link(value) {
        EntryKind::Link
    } else if value & HUGE_PAGE != 0 {
        EntryKind::Huge
    } else if value == 0 {
        EntryKind::Unused
    } else {
        EntryKind::Other
    }
}

/// What the entry of a page is to a walk, once the page is mapped with the
/// flags `flags`.
pub open spec fn leaf_kind(flags: u64) -> EntryKind {
    if flags & HUGE_PAGE != 0 {
        EntryKind::Huge
    } else {
        EntryKind::Link
    }
}

/// The kind of every entry of every table of a hierarchy, by the address of
/// the table and the index of the entry.
pub type Shape = spec_fn(u64, int) -> EntryKind;

/// The shape of a hierarchy that holds its recursive entry alone.
pub open spec fn fresh_shape() -> Shape {
    |address: u64, index: int|
        if address == P4_TABLE_ADDRESS && index == 511 {
            EntryKind::Link
        } else {
            EntryKind::Unused
        }
}

/// How many tables are missing on the walk to `page`.
pub open spec fn shape_missing(shape: Shape, page: Page) -> nat {
    if !(shape(P4_TABLE_ADDRESS, page.spec_p4_index() as int) is Link) {
        3
    } else if !(shape(p3_address(page), page.spec_p3_index() as int) is Link) {
        2
    } else if !(shape(p2_address(page), page.spec_p2_index() as int) is Link) {
        1
    } else {
        0
    }
}

/// The kind of the first entry on the walk to `page` that is no link.
pub open spec fn shape_blocking(shape: Shape, page: Page) -> EntryKind {
    if !(shape(P4_TABLE_ADDRESS, page.spec_p4_index() as int) is Link) {
        shape(P4_TABLE_ADDRESS, page.spec_p4_index() as int)
    } else if !(shape(p3_address(page), page.spec_p3_index() as int) is Link) {
        shape(p3_address(page), page.spec_p3_index() as int)
    } else {
        shape(p2_address(page), page.spec_p2_index() as int)
    }
}

/// What mapping `page` answers in a hierarchy of the shape `shape` when
/// `frames` frames can still be had.
pub open spec fn shape_map_to_result(shape: Shape, page: Page, frames: nat) -> Result<(), MapError> {
    if shape_missing(shape, page) == 0 {
        if shape(p1_address(page), page.spec_p1_index() as int) is Unused {
            Ok(())
        } else {
            Err(MapError::PageAlreadyMapped)
        }
    } else if shape_blocking(shape, page) is Huge {
        Err(MapError::ParentEntryHugePage)
    } else if frames >= shape_missing(shape, page) {
        Ok(())
    } else {
        Err(MapError::FrameAllocationFailed)
    }
}

/// The shape once the entry `index` of the table at `address` points at a
/// table: where it did not before, it does now, and the table at `next` that
/// it points at holds unused entries.
pub open spec fn shape_make_table(shape: Shape, address: u64, index: int, next: u64) -> Shape {
    if shape(address, index) is Link {
        shape
    } else {
        |a: u64, i: int|
            if a == next {
                EntryKind::Unused
            } else if a == address && i == index {
                EntryKind::Link
            } else {
                shape(a, i)
            }
    }
}

/// The shape once `page` is mapped and its entry is of the kind `leaf`: the
/// tables that were missing on the walk to the page are made, from the top
/// down.
pub open spec fn shape_after_map_to(shape: Shape, page: Page, leaf: EntryKind) -> Shape {
    let with_p3 = shape_make_table(shape, P4_TABLE_ADDRESS, page.spec_p4_index() as int, p3_address(page));
    let with_p2 = shape_make_table(with_p3, p3_address(page), page.spec_p3_index() as int, p2_address(page));
    let with_p1 = shape_make_table(with_p2, p2_address(page), page.spec_p2_index() as int, p1_address(page));
    |a: u64, i: int|
        if a == p1_address(page) && i == page.spec_p1_index() {
            leaf
        } else {
            with_p1(a, i)
        }
}

/// How a run of mappings ends: the answer, and where the answer is `Ok` the
/// shape of the hierarchy and the frames that can still be had.
pub struct Outcome {
    pub result: Result<(), MapError>,
    pub shape: Shape,
    pub frames: nat,
}

/// How making the mappings of `mappings` from index `from` on ends, in a
/// hierarchy of the shape `shape` with `frames` frames to be had: they are
/// made in turn up to the first that cannot be made.
pub open spec fn shape_map_all(shape: Shape, mappings: Seq<Mapping>, from: int, frames: nat) -> Outcome
    decreases mappings.len() - from,
{
    if from < 0 || from >= mappings.len() {
        Outcome { result: Ok(()), shape, frames }
    } else {
        let page = mappings[from].page;
        match shape_map_to_result(shape, page, frames) {
            Err(e) => Outcome { result: Err(e), shape, frames },
            Ok(()) => shape_map_all(
                shape_after_map_to(shape, page, leaf_kind(mappings[from].flags@)),
                mappings,
                from + 1,
                (frames - shape_missing(shape, page)) as nat,
            ),
        }
    }
}

/// Whether the level 1 entry of `page` holds anything.
pub open spec fn shape_in_use(shape: Shape, page: Page) -> bool {
    shape_missing(shape, page) == 0 && !(shape(p1_address(page), page.spec_p1_index() as int) is Unused)
}

/// What mapping `page` to a frame that is yet to be taken answers: a page
/// whose entry is in use is not mapped; for any other the frame is taken
/// first, the frames for missing tables after it.
pub open spec fn shape_map_result(shape: Shape, page: Page, frames: nat) -> Result<(), MapError> {
    if shape_in_use(shape, page) {
        Err(MapError::PageAlreadyMapped)
    } else if frames == 0 {
        Err(MapError::FrameAllocationFailed)
    } else {
        shape_map_to_result(shape, page, (frames - 1) as nat)
    }
}

/// How mapping the `count` pages from `first` on ends, each to a frame of
/// its own, in a hierarchy of the shape `shape` with `frames` frames to be
/// had: they are mapped in turn up to the first that cannot be mapped.
pub open spec fn shape_map_pages(shape: Shape, first: int, count: int, frames: nat) -> Outcome
    decreases count,
{
    if count <= 0 {
        Outcome { result: Ok(()), shape, frames }
    } else {
        let page = Page { number: first as u64 };
        match shape_map_result(shape, page, frames) {
            Err(e) => Outcome { result: Err(e), shape, frames },
            Ok(()) => shape_map_pages(
                shape_after_map_to(shape, page, EntryKind::Link),
                first + 1,
                count - 1,
                (frames - 1 - shape_missing(shape, page)) as nat,
            ),
        }
    }
}

/// The shape once the entry of `page` is cleared.
pub open spec fn shape_after_unmap(shape: Shape, page: Page) -> Shape {
    |a: u64, i: int|
        if a == p1_address(page) && i == page.spec_p1_index() {
            EntryKind::Unused
        } else {
            shape(a, i)
        }
}

} // verus!
