//! The kernel heap: a first-fit free list over one flat region, without
//! merging of freed blocks.

use vstd::prelude::*;
use std::collections::HashMap;
use crate::util::align_up;

verus! {

broadcast use vstd::std_specs::hash::group_hash_axioms;

/// Payload sizes are rounded up to a multiple of this many bytes.
pub const CHUNK: u64 = 16;

/// The bytes that the header of a block takes in front of its payload.
pub const NODE_SIZE_ALIGNED: u64 = 32;

/// The address of a block's header.
#[derive(Debug, Clone, Copy, PartialEq, Eq, Structural)]
pub struct NodePointer(pub u64);

impl NodePointer {
    /// The address of the header.
    pub fn addr(&self) -> (addr: u64)
        ensures
            addr == self.0,
    {
        self.0
    }
}

/// What the header of a block records: the size of the payload behind it,
/// and whether the block is free.
#[derive(Debug, Clone, Copy, PartialEq, Eq, Structural)]
pub struct Node {
    pub size: u64,
    pub is_free: bool,
}

/// The payload size that a request for `size` bytes takes: `size` rounded up
/// to a multiple of the chunk size.
pub open spec fn padded(size: u64) -> int {
    if size % CHUNK == 0 {
        size as int
    } else {
        size + CHUNK - size % CHUNK
    }
}

/// Whether the blocks at `a` and `b` of `nodes` share no byte.
pub open spec fn blocks_apart(nodes: Map<u64, Node>, a: u64, b: u64) -> bool {
    a + NODE_SIZE_ALIGNED + nodes[a].size <= b || b + NODE_SIZE_ALIGNED + nodes[b].size <= a
}

/// The index of the first block of `free_list` whose payload holds
/// `payload` bytes, searched from index `from` on.
pub open spec fn first_fit(nodes: Map<u64, Node>, free_list: Seq<u64>, payload: int, from: int) -> Option<int>
    decreases free_list.len() - from,
{
    if from < 0 || from >= free_list.len() {
        None
    } else if nodes[free_list[from]].size >= payload {
        Some(from)
    } else {
        first_fit(nodes, free_list, payload, from + 1)
    }
}

/// What a heap holds: every block, by the address of its header, and the
/// addresses of the free blocks, the head of the list first.
pub struct HeapState {
    pub nodes: Map<u64, Node>,
    pub free_list: Seq<u64>,
}

/// What a request for `size` bytes gives in the heap `heap`, and the heap
/// after it: the first free block whose payload holds the padded size is
/// taken. Where that block also has room for another header, the room is
/// cut from its end and the block stays free with what is left; else the
/// block itself is handed out and leaves the free list.
pub open spec fn heap_allocate(heap: HeapState, size: u64) -> (Option<u64>, HeapState) {
    match first_fit(heap.nodes, heap.free_list, padded(size), 0) {
        None => (None, heap),
        Some(i) => {
            let a = heap.free_list[i];
            let node = heap.nodes[a];
            if node.size - padded(size) >= NODE_SIZE_ALIGNED {
                let rest = (node.size - NODE_SIZE_ALIGNED - padded(size)) as u64;
                let cut = (a + NODE_SIZE_ALIGNED + rest) as u64;
                (
                    Some((cut + NODE_SIZE_ALIGNED) as u64),
                    HeapState {
                        nodes: heap.nodes.insert(a, Node { size: rest, is_free: true }).insert(
                            cut,
                            Node { size: padded(size) as u64, is_free: false },
                        ),
                        free_list: heap.free_list,
                    },
                )
            } else {
                (
                    Some((a + NODE_SIZE_ALIGNED) as u64),
                    HeapState {
                        nodes: heap.nodes.insert(a, Node { size: node.size, is_free: false }),
                        free_list: heap.free_list.remove(i),
                    },
                )
            }
        },
    }
}

/// The heap `heap` after the block with the payload at `ptr` is given back:
/// the block is free and is the head of the free list.
pub open spec fn heap_deallocate(heap: HeapState, ptr: u64) -> HeapState {
    let a = (ptr - NODE_SIZE_ALIGNED) as u64;
    HeapState {
        nodes: heap.nodes.insert(a, Node { size: heap.nodes[a].size, is_free: true }),
        free_list: seq![a] + heap.free_list,
    }
}

/// A block that is given back is handed out again to the next request that
/// it fits without room for another header: a request for as many bytes as
/// the block was made for gets the same address again.
pub proof fn lemma_freed_block_is_reused(heap: HeapState, ptr: u64, size: u64)
    requires
        ptr >= NODE_SIZE_ALIGNED,
        heap.nodes.contains_key((ptr - NODE_SIZE_ALIGNED) as u64),
        padded(size) <= heap.nodes[(ptr - NODE_SIZE_ALIGNED) as u64].size < padded(size)
            + NODE_SIZE_ALIGNED,
    ensures
        heap_allocate(heap_deallocate(heap, ptr), size).0 == Some(ptr),
{
    let freed = heap_deallocate(heap, ptr);
    assert(freed.free_list[0] == (ptr - NODE_SIZE_ALIGNED) as u64);
}

/// Where no free block holds the padded size, a request fails and the heap
/// stays as it is.
pub proof fn lemma_exhausted_heap_refuses(heap: HeapState, size: u64)
    requires
        forall|i: int|
            0 <= i < heap.free_list.len() ==> heap.nodes[#[trigger] heap.free_list[i]].size < padded(size),
    ensures
        heap_allocate(heap, size) == (None::<u64>, heap),
{
    lemma_nothing_fits(heap.nodes, heap.free_list, padded(size), 0);
}

/// Where every free block is too small, none is found.
pub proof fn lemma_nothing_fits(nodes: Map<u64, Node>, free_list: Seq<u64>, payload: int, from: int)
    requires
        0 <= from,
        forall|i: int| 0 <= i < free_list.len() ==> nodes[#[trigger] free_list[i]].size < payload,
    ensures
        first_fit(nodes, free_list, payload, from) is None,
    decreases free_list.len() - from,
{
    if from < free_list.len() {
        lemma_nothing_fits(nodes, free_list, payload, from + 1);
    }
}

/// The heap: every block that was carved out of the region, and the free
/// blocks in the order in which they are searched.
pub struct HeapAllocator {
    nodes: HashMap<u64, Node>,
    free_list: Vec<u64>,
    start: u64,
    end: u64,
}

impl HeapAllocator {
    /// Every block of the heap, by the address of its header.
    pub closed spec fn nodes(&self) -> Map<u64, Node> {
        self.nodes@
    }

    /// The addresses of the free blocks, the head of the list first.
    pub closed spec fn free_list(&self) -> Seq<u64> {
        self.free_list@
    }

    /// What the heap holds.
    pub open spec fn state(&self) -> HeapState {
        HeapState { nodes: self.nodes(), free_list: self.free_list() }
    }

    /// The first address of the region.
    pub closed spec fn start(&self) -> u64 {
        self.start
    }

    /// The first address behind the region.
    pub closed spec fn end(&self) -> u64 {
        self.end
    }

    /// The free list holds exactly the free blocks, each once, and the
    /// blocks lie in the region and share no byte.
    pub open spec fn wf(&self) -> bool {
        &&& self.start() <= self.end()
        &&& forall|i: int|
            0 <= i < self.free_list().len() ==> self.nodes().contains_key(#[trigger] self.free_list()[i])
                && self.nodes()[self.free_list()[i]].is_free
        &&& forall|i: int, j: int|
            0 <= i < j < self.free_list().len() ==> self.free_list()[i] != self.free_list()[j]
        &&& forall|a: u64| #[trigger]
            self.nodes().contains_key(a) && self.nodes()[a].is_free ==> self.free_list().contains(a)
        &&& forall|a: u64| #[trigger]
            self.nodes().contains_key(a) ==> self.start() <= a && a + NODE_SIZE_ALIGNED
                + self.nodes()[a].size <= self.end()
        &&& forall|a: u64, b: u64|
            self.nodes().contains_key(a) && self.nodes().contains_key(b) && a != b
                ==> #[trigger] blocks_apart(self.nodes(), a, b)
    }

    /// Every block starts at a multiple of the chunk size and has a payload
    /// of a multiple of the chunk size: so does every payload start at one.
    pub open spec fn aligned(&self) -> bool {
        forall|a: u64| #[trigger]
            self.nodes().contains_key(a) ==> a % CHUNK == 0 && self.nodes()[a].size % CHUNK == 0
    }

    /// The payloads of two blocks that are in use lie in the region and share
    /// no byte: what is written to one cannot change the other, nor a header.
    pub proof fn lemma_payloads_apart(&self, p: u64, q: u64)
        requires
            self.wf(),
            self.spec_is_allocated(p),
            self.spec_is_allocated(q),
            p != q,
        ensures
            self.start() + NODE_SIZE_ALIGNED <= p,
            p + self.nodes()[(p - NODE_SIZE_ALIGNED) as u64].size <= self.end(),
            p + self.nodes()[(p - NODE_SIZE_ALIGNED) as u64].size <= q - NODE_SIZE_ALIGNED || q
                + self.nodes()[(q - NODE_SIZE_ALIGNED) as u64].size <= p - NODE_SIZE_ALIGNED,
    {
        let a = (p - NODE_SIZE_ALIGNED) as u64;
        let b = (q - NODE_SIZE_ALIGNED) as u64;
        assert(self.nodes().contains_key(a));
        assert(self.nodes().contains_key(b));
        assert(blocks_apart(self.nodes(), a, b));
    }

    /// Whether `ptr` is the payload address of a block that is in use.
    pub open spec fn spec_is_allocated(&self, ptr: u64) -> bool {
        &&& ptr >= NODE_SIZE_ALIGNED
        &&& self.nodes().contains_key((ptr - NODE_SIZE_ALIGNED) as u64)
        &&& !self.nodes()[(ptr - NODE_SIZE_ALIGNED) as u64].is_free
    }

    /// A heap without a region: every request fails until `init` is called.
    pub fn new() -> (heap: HeapAllocator)
        ensures
            heap.wf(),
            heap.nodes() == Map::<u64, Node>::empty(),
            heap.free_list() == Seq::<u64>::empty(),
    {
        HeapAllocator { nodes: HashMap::new(), free_list: Vec::new(), start: 0, end: 0 }
    }

    /// Makes the `heap_size` bytes from `heap_start` on the heap's region:
    /// one free block that spans all of it.
    pub fn init(&mut self, heap_start: u64, heap_size: u64)
        requires
            heap_size >= NODE_SIZE_ALIGNED,
            heap_start + heap_size <= u64::MAX,
        ensures
            final(self).wf(),
            final(self).start() == heap_start,
            final(self).end() == heap_start + heap_size,
            final(self).nodes() == Map::<u64, Node>::empty().insert(
                heap_start,
                Node { size: (heap_size - NODE_SIZE_ALIGNED) as u64, is_free: true },
            ),
            final(self).free_list() == seq![heap_start],
            heap_start % CHUNK == 0 && heap_size % CHUNK == 0 ==> final(self).aligned(),
    {
        let mut nodes: HashMap<u64, Node> = HashMap::new();
        nodes.insert(heap_start, Node { size: heap_size - NODE_SIZE_ALIGNED, is_free: true });
        let mut free_list: Vec<u64> = Vec::new();
        free_list.push(heap_start);
        self.nodes = nodes;
        self.free_list = free_list;
        self.start = heap_start;
        self.end = heap_start + heap_size;
        assert(self.free_list@ == seq![heap_start]);
        assert(self.free_list@[0] == heap_start);
    }

    /// Whether `ptr` is the payload address of a block that is in use.
    #[verifier::when_used_as_spec(spec_is_allocated)]
    pub fn is_allocated(&self, ptr: u64) -> (res: bool)
        ensures
            res == self.spec_is_allocated(ptr),
    {
        if ptr < NODE_SIZE_ALIGNED {
            return false;
        }
        match self.nodes.get(&(ptr - NODE_SIZE_ALIGNED)) {
            Some(node) => !node.is_free,
            None => false,
        }
    }
}


impl HeapAllocator {
    /// Finds room for `size` bytes: the first free block whose payload holds
    /// the padded size is taken. Where that block also has room for another
    /// header, the room is cut from its end and the block stays free with
    /// what is left; else the block itself is handed out and leaves the
    /// free list. Gives the address of the payload, or nothing where no
    /// free block is large enough.
    pub fn allocate(&mut self, size: u64) -> (res: Option<u64>)
        requires
            old(self).wf(),
        ensures
            final(self).wf(),
            final(self).start() == old(self).start(),
            final(self).end() == old(self).end(),
            (res, final(self).state()) == heap_allocate(old(self).state(), size),
            old(self).aligned() ==> final(self).aligned() && (res matches Some(ptr) ==> ptr % CHUNK == 0),
            res matches Some(ptr) ==> final(self).spec_is_allocated(ptr) && !old(self).spec_is_allocated(ptr) && final(self).nodes()[(ptr - NODE_SIZE_ALIGNED) as u64].size
                >= size,
            forall|ptr: u64| old(self).spec_is_allocated(ptr) ==> final(self).spec_is_allocated(ptr),
    {
        if size > u64::MAX - 15 {
            proof {
                lemma_no_fit(self.nodes(), self.free_list(), padded(size), 0);
            }
            return None;
        }
        assert(16u64 & ((16u64 - 1) as u64) == 0) by (bit_vector);
        let payload = align_up(size, CHUNK);
        assert(payload == padded(size));
        let mut i: usize = 0;
        while i < self.free_list.len()
            invariant
                i <= self.free_list.len(),
                *self == *old(self),
                self.wf(),
                payload == padded(size),
                first_fit(self.nodes(), self.free_list(), padded(size), 0) == first_fit(
                    self.nodes(),
                    self.free_list(),
                    padded(size),
                    i as int,
                ),
            decreases self.free_list.len() - i,
        {
            let a = self.free_list[i];
            assert(self.nodes().contains_key(self.free_list()[i as int]));
            let node = match self.nodes.get(&a) {
                Some(node) => *node,
                None => vstd::pervasive::unreached(),
            };
            if node.is_free && node.size >= payload {
                if node.size - payload >= NODE_SIZE_ALIGNED {
                    let rest = node.size - NODE_SIZE_ALIGNED - payload;
                    let cut = a + NODE_SIZE_ALIGNED + rest;
                    assert(!self.nodes().contains_key(cut)) by {
                        if self.nodes().contains_key(cut) {
                            assert(blocks_apart(self.nodes(), a, cut));
                        }
                    }
                    self.nodes.insert(a, Node { size: rest, is_free: true });
                    self.nodes.insert(cut, Node { size: payload, is_free: false });
                    proof {
                        let before = old(self).nodes();
                        let after = self.nodes();
                        assert forall|x: u64, y: u64|
                            after.contains_key(x) && after.contains_key(y) && x != y implies #[trigger] blocks_apart(
                            after,
                            x,
                            y,
                        ) by {
                            if x != cut && x != a && y != cut && y != a {
                                assert(blocks_apart(before, x, y));
                            } else if x != cut && x != a {
                                assert(blocks_apart(before, x, a));
                            } else if y != cut && y != a {
                                assert(blocks_apart(before, a, y));
                            }
                        }
                        assert forall|x: u64| #[trigger]
                            after.contains_key(x) && after[x].is_free implies self.free_list().contains(
                            x,
                        ) by {
                            assert(before.contains_key(x) && before[x].is_free);
                        }
                        assert forall|ptr: u64| old(self).spec_is_allocated(ptr) implies self.spec_is_allocated(
                            ptr,
                        ) by {
                        }
                    }
                    return Some(cut + NODE_SIZE_ALIGNED);
                } else {
                    self.nodes.insert(a, Node { size: node.size, is_free: false });
                    self.free_list.remove(i);
                    proof {
                        let before = old(self).nodes();
                        let after = self.nodes();
                        let old_list = old(self).free_list();
                        let list = self.free_list();
                        assert forall|x: u64, y: u64|
                            after.contains_key(x) && after.contains_key(y) && x != y implies #[trigger] blocks_apart(
                            after,
                            x,
                            y,
                        ) by {
                            assert(blocks_apart(before, x, y));
                        }
                        assert forall|k: int| 0 <= k < list.len() implies after.contains_key(
                            #[trigger] list[k],
                        ) && after[list[k]].is_free by {
                            if k < i {
                                assert(list[k] == old_list[k]);
                            } else {
                                assert(list[k] == old_list[k + 1]);
                            }
                        }
                        assert forall|k: int, l: int| 0 <= k < l < list.len() implies list[k] != list[l] by {
                            let kk = if k < i { k } else { k + 1 };
                            let ll = if l < i { l } else { l + 1 };
                            assert(list[k] == old_list[kk] && list[l] == old_list[ll]);
                        }
                        assert forall|x: u64| #[trigger]
                            after.contains_key(x) && after[x].is_free implies list.contains(x) by {
                            assert(old_list.contains(x));
                            let k = choose|k: int| 0 <= k < old_list.len() && old_list[k] == x;
                            if k < i {
                                assert(list[k] == x);
                            } else {
                                assert(list[k - 1] == x);
                            }
                        }
                        assert forall|ptr: u64| old(self).spec_is_allocated(ptr) implies self.spec_is_allocated(
                            ptr,
                        ) by {
                        }
                    }
                    return Some(a + NODE_SIZE_ALIGNED);
                }
            }
            i += 1;
        }
        None
    }

    /// Takes back the block whose payload lies at `ptr`: the block is marked
    /// free and becomes the head of the free list. Freed blocks are not
    /// merged with their neighbours.
    pub fn deallocate(&mut self, ptr: u64)
        requires
            old(self).wf(),
            old(self).spec_is_allocated(ptr),
        ensures
            final(self).wf(),
            final(self).start() == old(self).start(),
            final(self).end() == old(self).end(),
            final(self).state() == heap_deallocate(old(self).state(), ptr),
            old(self).aligned() ==> final(self).aligned(),
            !final(self).spec_is_allocated(ptr),
    {
        let a = ptr - NODE_SIZE_ALIGNED;
        let node = match self.nodes.get(&a) {
            Some(node) => *node,
            None => vstd::pervasive::unreached(),
        };
        self.nodes.insert(a, Node { size: node.size, is_free: true });
        self.free_list.insert(0, a);
        proof {
            let before = old(self).nodes();
            let after = self.nodes();
            let old_list = old(self).free_list();
            let list = self.free_list();
            assert(list == seq![a] + old_list);
            assert forall|x: u64, y: u64|
                after.contains_key(x) && after.contains_key(y) && x != y implies #[trigger] blocks_apart(
                after,
                x,
                y,
            ) by {
                assert(blocks_apart(before, x, y));
            }
            assert forall|k: int| 0 <= k < list.len() implies after.contains_key(#[trigger] list[k])
                && after[list[k]].is_free by {
                if k > 0 {
                    assert(list[k] == old_list[k - 1]);
                }
            }
            assert forall|k: int, l: int| 0 <= k < l < list.len() implies list[k] != list[l] by {
                assert(list[l] == old_list[l - 1]);
                if k > 0 {
                    assert(list[k] == old_list[k - 1]);
                } else {
                    if list[l] == a {
                        assert(before[old_list[l - 1]].is_free);
                    }
                }
            }
            assert forall|x: u64| #[trigger] after.contains_key(x) && after[x].is_free implies list.contains(
                x,
            ) by {
                if x == a {
                    assert(list[0] == a);
                } else {
                    assert(old_list.contains(x));
                    let k = choose|k: int| 0 <= k < old_list.len() && old_list[k] == x;
                    assert(list[k + 1] == x);
                }
            }
        }
    }
}

/// No block holds a payload of more bytes than an address can count.
pub proof fn lemma_no_fit(nodes: Map<u64, Node>, free_list: Seq<u64>, payload: int, from: int)
    requires
        payload > u64::MAX,
        0 <= from,
    ensures
        first_fit(nodes, free_list, payload, from) is None,
    decreases free_list.len() - from,
{
    if from < free_list.len() {
        lemma_no_fit(nodes, free_list, payload, from + 1);
    }
}


/// A heap that hands out the bytes of its region one after the other and
/// takes nothing back.
#[derive(Debug)]
pub struct BumpAllocator {
    heap_start: u64,
    heap_end: u64,
    next: u64,
}

impl BumpAllocator {
    /// The first address that was not handed out.
    pub closed spec fn next(&self) -> u64 {
        self.next
    }

    /// The first address behind the region.
    pub closed spec fn heap_end(&self) -> u64 {
        self.heap_end
    }

    /// The heap over the addresses from `heap_start` up to `heap_end`.
    pub fn new(heap_start: u64, heap_end: u64) -> (heap: BumpAllocator)
        ensures
            heap.next() == heap_start,
            heap.heap_end() == heap_end,
    {
        BumpAllocator { heap_start, heap_end, next: heap_start }
    }

    /// Hands out `size` bytes at the next address that is a multiple of
    /// `align`, where they end within the region.
    pub fn allocate(&mut self, size: u64, align: u64) -> (res: Option<u64>)
        requires
            crate::util::is_power_of_two(align),
            old(self).next() + align - 1 <= u64::MAX,
        ensures
            final(self).heap_end() == old(self).heap_end(),
            res == if crate::util::spec_align_up(old(self).next(), align) + size <= old(self).heap_end() {
                Some(crate::util::spec_align_up(old(self).next(), align))
            } else {
                None::<u64>
            },
            final(self).next() == if res is Some {
                (crate::util::spec_align_up(old(self).next(), align) + size) as u64
            } else {
                old(self).next()
            },
    {
        let alloc_start = align_up(self.next, align);
        let alloc_end = alloc_start.saturating_add(size);
        if alloc_end <= self.heap_end {
            if alloc_start as u128 + size as u128 > u64::MAX as u128 {
                return None;
            }
            self.next = alloc_end;
            Some(alloc_start)
        } else {
            None
        }
    }

    /// Does nothing: what was handed out stays handed out.
    pub fn deallocate(&mut self, ptr: u64)
        ensures
            *final(self) == *old(self),
    {
    }
}

} // verus!
