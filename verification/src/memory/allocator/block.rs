//! A fixed-size-block allocator: freed blocks of each size class are kept in
//! a list of their own and handed out again before the fallback heap is used.
//!
//! The free lists are intrusive: each free block holds the address of the next
//! free block of its class. This module keeps the head of each list and decides
//! every step; whoever owns the memory reads and writes the links it names.
use vstd::prelude::*;
use vstd::arithmetic::power2::{pow2, lemma2_to64, lemma_pow2_adds, lemma_pow2_pos, lemma_pow2_strictly_increases};
use crate::memory::allocator::{is_power_of_two, HEAP_SIZE, HEAP_START};

verus! {

/// The number of block size classes.
pub const BLOCK_CLASS_COUNT: usize = 9;

/// The block sizes of the classes, smallest first.
pub open spec fn block_sizes() -> Seq<usize> {
    seq![8, 16, 32, 64, 128, 256, 512, 1024, 2048]
}

/// The block size of class `index`.
pub fn block_size(index: usize) -> (r: usize)
    requires
        index < BLOCK_CLASS_COUNT,
    ensures
        r == block_sizes()[index as int],
{
    let sizes: [usize; 9] = [8, 16, 32, 64, 128, 256, 512, 1024, 2048];
    assert(sizes@ == block_sizes());
    sizes[index]
}

/// The size a block must have to serve a request: the larger of its size
/// and its alignment.
pub open spec fn required_block_size(size: usize, align: usize) -> usize {
    if size >= align {
        size
    } else {
        align
    }
}

/// The first class, from `i` on, whose blocks are at least `required` bytes.
pub open spec fn class_from(required: usize, i: int) -> Option<usize>
    decreases BLOCK_CLASS_COUNT - i,
{
    if i < 0 || i >= BLOCK_CLASS_COUNT {
        None
    } else if block_sizes()[i] >= required {
        Some(i as usize)
    } else {
        class_from(required, i + 1)
    }
}

/// The class that serves a request of `size` bytes aligned to `align`: the
/// first whose blocks are large enough, if any is.
pub open spec fn size_class(size: usize, align: usize) -> Option<usize> {
    class_from(required_block_size(size, align), 0)
}

proof fn lemma_class_from(required: usize, i: int)
    requires
        0 <= i <= BLOCK_CLASS_COUNT,
        forall|j: int| 0 <= j < i ==> block_sizes()[j] < required,
    ensures
        match class_from(required, i) {
            Some(c) => c < BLOCK_CLASS_COUNT && block_sizes()[c as int] >= required && forall|j: int|
                0 <= j < c ==> block_sizes()[j] < required,
            None => forall|j: int| 0 <= j < BLOCK_CLASS_COUNT ==> block_sizes()[j] < required,
        },
    decreases BLOCK_CLASS_COUNT - i,
{
    if i < BLOCK_CLASS_COUNT && block_sizes()[i] < required {
        lemma_class_from(required, i + 1);
    }
}

/// The class of a request is the first class whose blocks are large enough.
pub proof fn lemma_size_class(size: usize, align: usize)
    ensures
        match size_class(size, align) {
            Some(c) => c < BLOCK_CLASS_COUNT && block_sizes()[c as int] >= required_block_size(
                size,
                align,
            ) && forall|j: int|
                0 <= j < c ==> block_sizes()[j] < required_block_size(size, align),
            None => required_block_size(size, align) > 2048,
        },
{
    lemma_class_from(required_block_size(size, align), 0);
    if size_class(size, align) is None {
        assert(block_sizes()[8] < required_block_size(size, align));
    }
}

/// The index of the free list that serves a request of `size` bytes aligned
/// to `align`, or `None` when the request is larger than every block.
pub fn list_index(size: usize, align: usize) -> (r: Option<usize>)
    ensures
        r == size_class(size, align),
        r matches Some(c) ==> c < BLOCK_CLASS_COUNT,
{
    let required = if size >= align {
        size
    } else {
        align
    };
    let mut i: usize = 0;
    while i < BLOCK_CLASS_COUNT
        invariant
            i <= BLOCK_CLASS_COUNT,
            required == required_block_size(size, align),
            class_from(required, 0) == class_from(required, i as int),
        decreases BLOCK_CLASS_COUNT - i,
    {
        if block_size(i) >= required {
            return Some(i);
        }
        i = i + 1;
    }
    None
}

/// A request mapped to a class is served by a block of that class: the block
/// is at least as large as the request, and since the blocks of a class are
/// aligned to their size, they are aligned as the request asks.
pub proof fn lemma_class_block_fits(size: usize, align: usize)
    requires
        is_power_of_two(align),
        size_class(size, align) is Some,
    ensures
        block_sizes()[size_class(size, align)->0 as int] >= size,
        block_sizes()[size_class(size, align)->0 as int] % align == 0,
{
    lemma_size_class(size, align);
    let c = size_class(size, align)->0;
    let k = choose|k: nat| k < usize::BITS && #[trigger] pow2(k) == align;
    let m: nat = (c + 3) as nat;
    assert(pow2(m) == block_sizes()[c as int]) by {
        lemma2_to64();
    }
    if k > m {
        lemma_pow2_strictly_increases(m, k);
    }
    assert(k <= m);
    lemma_pow2_adds(k, (m - k) as nat);
    assert(pow2(m) == pow2(k) * pow2((m - k) as nat));
    lemma_pow2_pos(k);
    vstd::arithmetic::div_mod::lemma_mod_multiples_basic(pow2((m - k) as nat) as int, pow2(k) as int);
    vstd::arithmetic::mul::lemma_mul_is_commutative(pow2(k) as int, pow2((m - k) as nat) as int);
}

/// Every block can hold a free-list link, one 64-bit address: it has at least
/// 8 bytes and is aligned to 8.
pub proof fn lemma_blocks_hold_a_link(c: int)
    requires
        0 <= c < BLOCK_CLASS_COUNT,
    ensures
        block_sizes()[c] >= 8,
        block_sizes()[c] % 8 == 0,
{
}

/// A request that no block class serves goes to the fallback heap unchanged;
/// any request that goes to the fallback heap asks it for at least the
/// requested size, and for an alignment that is a multiple of the requested
/// (power of two) alignment.
pub proof fn lemma_fallback_keeps_the_layout(heads: Seq<Option<usize>>, size: usize, align: usize)
    requires
        heads.len() == BLOCK_CLASS_COUNT,
    ensures
        size_class(size, align) is None ==> alloc_step(heads, size, align) == (AllocStep::Fallback {
            size,
            align,
        }),
        alloc_step(heads, size, align) matches AllocStep::Fallback { size: s, align: a } ==> s
            >= size && a >= align && (is_power_of_two(align) ==> a % align == 0),
{
    lemma_size_class(size, align);
    if let Some(c) = size_class(size, align) {
        if is_power_of_two(align) {
            lemma_class_block_fits(size, align);
        }
    } else if is_power_of_two(align) {
        let k = choose|k: nat| k < usize::BITS && #[trigger] pow2(k) == align;
        lemma_pow2_pos(k);
        vstd::arithmetic::div_mod::lemma_mod_self_0(align as int);
    }
}

/// What serving an allocation request takes.
#[derive(Debug, Clone, Copy, PartialEq, Eq, Structural)]
pub enum AllocStep {
    /// Hand out `block`, the head of free list `index`. Its link (the address
    /// of the next free block) must then be read and given to
    /// [`FixedBlockAllocator::pop_head`].
    Reuse { index: usize, block: usize },
    /// Allocate `size` bytes aligned to `align` from the fallback heap.
    Fallback { size: usize, align: usize },
}

/// What releasing a block takes.
#[derive(Debug, Clone, Copy, PartialEq, Eq, Structural)]
pub enum DeallocStep {
    /// The block is now the head of free list `index`; write `next` into it as
    /// its link.
    Link { index: usize, next: Option<usize> },
    /// Give the block back to the fallback heap.
    Fallback,
}

/// The step that serves a request, given the heads of the free lists.
pub open spec fn alloc_step(heads: Seq<Option<usize>>, size: usize, align: usize) -> AllocStep {
    match size_class(size, align) {
        Some(c) => match heads[c as int] {
            Some(b) => AllocStep::Reuse { index: c, block: b },
            None => AllocStep::Fallback {
                size: block_sizes()[c as int],
                align: block_sizes()[c as int],
            },
        },
        None => AllocStep::Fallback { size, align },
    }
}

/// The heads of the free lists after `block`, allocated for a request of
/// `size` bytes aligned to `align`, is released.
pub open spec fn heads_after_dealloc(
    heads: Seq<Option<usize>>,
    block: usize,
    size: usize,
    align: usize,
) -> Seq<Option<usize>> {
    match size_class(size, align) {
        Some(c) => heads.update(c as int, Some(block)),
        None => heads,
    }
}

/// The step that releases a block, given the heads of the free lists.
pub open spec fn dealloc_step(heads: Seq<Option<usize>>, size: usize, align: usize) -> DeallocStep {
    match size_class(size, align) {
        Some(c) => DeallocStep::Link { index: c, next: heads[c as int] },
        None => DeallocStep::Fallback,
    }
}

/// The first block of a free list, if it has one.
pub open spec fn head_of(list: Seq<usize>) -> Option<usize> {
    if list.len() > 0 {
        Some(list[0])
    } else {
        None
    }
}

/// Whether the block at `a` of `size_a` bytes and the block at `b` of
/// `size_b` bytes share no byte.
pub open spec fn blocks_apart(a: usize, size_a: int, b: usize, size_b: int) -> bool {
    a + size_a <= b || b + size_b <= a
}

/// Whether the block at `block` of `size` bytes lies inside the kernel heap.
pub open spec fn in_heap(block: usize, size: int) -> bool {
    HEAP_START <= block && block + size <= HEAP_START + HEAP_SIZE
}

/// Whether `block` may join the free list of class `c`: it lies inside the
/// heap, is aligned to the class's block size and shares no byte with a block
/// on any free list.
pub open spec fn may_list(lists: Seq<Seq<usize>>, block: usize, c: int) -> bool {
    &&& in_heap(block, block_sizes()[c] as int)
    &&& block % block_sizes()[c] == 0
    &&& forall|d: int, j: int|
        0 <= d < BLOCK_CLASS_COUNT && 0 <= j < lists[d].len() ==> blocks_apart(
            block,
            block_sizes()[c] as int,
            #[trigger] lists[d][j],
            block_sizes()[d] as int,
        )
}

/// The invariant of the free lists: one list per class, whose head is the
/// stored head; every listed block lies inside the heap and is aligned to its
/// class's block size; and no two listed blocks (on one list or on two) share
/// a byte.
pub open spec fn free_lists_wf(heads: Seq<Option<usize>>, lists: Seq<Seq<usize>>) -> bool {
    &&& heads.len() == BLOCK_CLASS_COUNT
    &&& lists.len() == BLOCK_CLASS_COUNT
    &&& forall|c: int| 0 <= c < BLOCK_CLASS_COUNT ==> #[trigger] heads[c] == head_of(lists[c])
    &&& forall|c: int, i: int|
        0 <= c < BLOCK_CLASS_COUNT && 0 <= i < lists[c].len() ==> #[trigger] lists[c][i]
            % block_sizes()[c] == 0 && in_heap(lists[c][i], block_sizes()[c] as int)
    &&& forall|c: int, i: int, d: int, j: int|
        0 <= c < BLOCK_CLASS_COUNT && 0 <= i < lists[c].len() && 0 <= d < BLOCK_CLASS_COUNT && 0
            <= j < lists[d].len() && (c != d || i != j) ==> blocks_apart(
            #[trigger] lists[c][i],
            block_sizes()[c] as int,
            #[trigger] lists[d][j],
            block_sizes()[d] as int,
        )
}

/// The free lists of a fixed-size-block allocator: the head of each list is
/// kept here, the links live in the free blocks themselves.
pub struct FixedBlockAllocator {
    heads: [Option<usize>; 9],
    lists: Ghost<Seq<Seq<usize>>>,
}

impl View for FixedBlockAllocator {
    type V = Seq<Option<usize>>;

    closed spec fn view(&self) -> Seq<Option<usize>> {
        self.heads@
    }
}

impl FixedBlockAllocator {
    /// The free blocks of each class, head first.
    pub closed spec fn free_lists(&self) -> Seq<Seq<usize>> {
        self.lists@
    }

    /// The invariant of the free lists holds.
    pub open spec fn wf(&self) -> bool {
        free_lists_wf(self@, self.free_lists())
    }

    /// There is one head per class.
    pub proof fn lemma_one_head_per_class(&self)
        ensures
            self@.len() == BLOCK_CLASS_COUNT,
    {
    }

    /// An allocator whose free lists are all empty.
    pub fn new() -> (r: Self)
        ensures
            r.wf(),
            r@ == Seq::new(BLOCK_CLASS_COUNT as nat, |i: int| None::<usize>),
            r.free_lists() == Seq::new(BLOCK_CLASS_COUNT as nat, |i: int| Seq::<usize>::empty()),
    {
        let r = FixedBlockAllocator {
            heads: [None; 9],
            lists: Ghost(Seq::new(BLOCK_CLASS_COUNT as nat, |i: int| Seq::<usize>::empty())),
        };
        assert(r@ =~= Seq::new(BLOCK_CLASS_COUNT as nat, |i: int| None::<usize>));
        r
    }

    /// Decides how to serve a request of `size` bytes aligned to `align`:
    /// reuse the head of the request's free list, or fall back to the heap
    /// (for a request that fits a class, with the class's block size as both
    /// size and alignment). A reused block is the first of its class's list,
    /// inside the heap, at least as large as the request, aligned as the
    /// request asks, and shares no byte with any other free block.
    pub fn allocate(&self, size: usize, align: usize) -> (r: AllocStep)
        requires
            self.wf(),
        ensures
            r == alloc_step(self@, size, align),
            size_class(size, align) is None ==> r == (AllocStep::Fallback { size, align }),
            r matches AllocStep::Fallback { size: s, align: a } ==> s >= size && a >= align && (
            is_power_of_two(align) ==> a % align == 0),
            r matches AllocStep::Reuse { index, block } ==> {
                &&& index < BLOCK_CLASS_COUNT
                &&& self.free_lists()[index as int].len() > 0
                &&& block == self.free_lists()[index as int][0]
                &&& block % block_sizes()[index as int] == 0
                &&& in_heap(block, block_sizes()[index as int] as int)
                &&& block_sizes()[index as int] >= size
                &&& is_power_of_two(align) ==> block % align == 0
                &&& forall|d: int, j: int|
                    0 <= d < BLOCK_CLASS_COUNT && 0 <= j < self.free_lists()[d].len() && (d
                        != index || j != 0) ==> blocks_apart(
                        block,
                        block_sizes()[index as int] as int,
                        #[trigger] self.free_lists()[d][j],
                        block_sizes()[d] as int,
                    )
            },
    {
        proof {
            lemma_size_class(size, align);
            lemma_fallback_keeps_the_layout(self@, size, align);
        }
        match list_index(size, align) {
            Some(index) => match self.heads[index] {
                Some(block) => {
                    proof {
                        assert(self@[index as int] == head_of(self.free_lists()[index as int]));
                        let list = self.free_lists()[index as int];
                        assert(list[0] % block_sizes()[index as int] == 0);
                        if is_power_of_two(align) {
                            let k = choose|k: nat| k < usize::BITS && #[trigger] pow2(k) == align;
                            lemma_pow2_pos(k);
                            lemma_class_block_fits(size, align);
                            lemma_mod_of_multiple(
                                block as int,
                                block_sizes()[index as int] as int,
                                align as int,
                            );
                        }
                    }
                    AllocStep::Reuse { index, block }
                },
                None => {
                    let bs = block_size(index);
                    AllocStep::Fallback { size: bs, align: bs }
                },
            },
            None => AllocStep::Fallback { size, align },
        }
    }

    /// Removes the head of free list `index` after it was handed out: `next`
    /// is the link that was read from it, the second block of the list.
    pub fn pop_head(&mut self, index: usize, next: Option<usize>)
        requires
            old(self).wf(),
            index < BLOCK_CLASS_COUNT,
            old(self).free_lists()[index as int].len() > 0,
            next == head_of(old(self).free_lists()[index as int].drop_first()),
        ensures
            final(self).wf(),
            final(self)@ == old(self)@.update(index as int, next),
            final(self).free_lists() == old(self).free_lists().update(
                index as int,
                old(self).free_lists()[index as int].drop_first(),
            ),
    {
        let ghost old_lists = self.lists@;
        let ghost new_lists = old_lists.update(
            index as int,
            old_lists[index as int].drop_first(),
        );
        self.heads[index] = next;
        self.lists = Ghost(new_lists);
        proof {
            assert forall|c: int, i: int|
                0 <= c < BLOCK_CLASS_COUNT && 0 <= i < new_lists[c].len() implies (c == index
                ==> new_lists[c][i] == old_lists[c][i + 1]) && (c != index ==> new_lists[c][i]
                == old_lists[c][i]) by {}
            assert forall|c: int, i: int|
                0 <= c < BLOCK_CLASS_COUNT && 0 <= i < new_lists[c].len() implies #[trigger] new_lists[c][i]
                    % block_sizes()[c] == 0 && in_heap(new_lists[c][i], block_sizes()[c] as int) by {
                if c == index {
                    assert(old_lists[c][i + 1] % block_sizes()[c] == 0 && in_heap(
                        old_lists[c][i + 1],
                        block_sizes()[c] as int,
                    ));
                } else {
                    assert(old_lists[c][i] % block_sizes()[c] == 0 && in_heap(
                        old_lists[c][i],
                        block_sizes()[c] as int,
                    ));
                }
            }
            assert forall|c: int, i: int, d: int, j: int|
                0 <= c < BLOCK_CLASS_COUNT && 0 <= i < new_lists[c].len() && 0 <= d
                    < BLOCK_CLASS_COUNT && 0 <= j < new_lists[d].len() && (c != d || i != j) implies blocks_apart(
                #[trigger] new_lists[c][i],
                block_sizes()[c] as int,
                #[trigger] new_lists[d][j],
                block_sizes()[d] as int,
            ) by {
                let oi = if c == index { i + 1 } else { i };
                let oj = if d == index { j + 1 } else { j };
                assert(new_lists[c][i] == old_lists[c][oi]);
                assert(new_lists[d][j] == old_lists[d][oj]);
                assert(blocks_apart(
                    old_lists[c][oi],
                    block_sizes()[c] as int,
                    old_lists[d][oj],
                    block_sizes()[d] as int,
                ));
            }
            assert forall|c: int| 0 <= c < BLOCK_CLASS_COUNT implies #[trigger] self.heads@[c]
                == head_of(new_lists[c]) by {
                if c != index {
                    assert(old(self).heads@[c] == head_of(old_lists[c]));
                }
            }
        }
    }

    /// Releases `block`, which was allocated for a request of `size` bytes
    /// aligned to `align` and not released since: it becomes the head of its
    /// class's free list, or goes back to the fallback heap. A block of a
    /// class is aligned to the class's block size and shares no byte with a
    /// free block, as every block that this allocator hands out for the class is.
    pub fn deallocate(&mut self, block: usize, size: usize, align: usize) -> (r: DeallocStep)
        requires
            old(self).wf(),
            size_class(size, align) matches Some(c) ==> may_list(
                old(self).free_lists(),
                block,
                c as int,
            ),
        ensures
            final(self).wf(),
            r == dealloc_step(old(self)@, size, align),
            final(self)@ == heads_after_dealloc(old(self)@, block, size, align),
            final(self).free_lists() == (match size_class(size, align) {
                Some(c) => old(self).free_lists().update(
                    c as int,
                    seq![block] + old(self).free_lists()[c as int],
                ),
                None => old(self).free_lists(),
            }),
    {
        proof {
            lemma_size_class(size, align);
        }
        match list_index(size, align) {
            Some(index) => {
                let ghost old_lists = self.lists@;
                let ghost new_lists = old_lists.update(
                    index as int,
                    seq![block] + old_lists[index as int],
                );
                let next = self.heads[index];
                self.heads[index] = Some(block);
                self.lists = Ghost(new_lists);
                proof {
                    assert forall|c: int, i: int|
                        0 <= c < BLOCK_CLASS_COUNT && 0 <= i < new_lists[c].len() implies (
                    c == index && i == 0 ==> new_lists[c][i] == block) && (c == index && i > 0
                        ==> new_lists[c][i] == old_lists[c][i - 1]) && (c != index
                        ==> new_lists[c][i] == old_lists[c][i]) by {}
                    assert forall|c: int, i: int|
                        0 <= c < BLOCK_CLASS_COUNT && 0 <= i < new_lists[c].len() implies #[trigger] new_lists[c][i]
                            % block_sizes()[c] == 0 && in_heap(
                            new_lists[c][i],
                            block_sizes()[c] as int,
                        ) by {
                        if c == index && i > 0 {
                            assert(old_lists[c][i - 1] % block_sizes()[c] == 0 && in_heap(
                                old_lists[c][i - 1],
                                block_sizes()[c] as int,
                            ));
                        } else if c != index {
                            assert(old_lists[c][i] % block_sizes()[c] == 0 && in_heap(
                                old_lists[c][i],
                                block_sizes()[c] as int,
                            ));
                        }
                    }
                    assert forall|c: int, i: int, d: int, j: int|
                        0 <= c < BLOCK_CLASS_COUNT && 0 <= i < new_lists[c].len() && 0 <= d
                            < BLOCK_CLASS_COUNT && 0 <= j < new_lists[d].len() && (c != d || i
                            != j) implies blocks_apart(
                        #[trigger] new_lists[c][i],
                        block_sizes()[c] as int,
                        #[trigger] new_lists[d][j],
                        block_sizes()[d] as int,
                    ) by {
                        let c_new = c == index && i == 0;
                        let d_new = d == index && j == 0;
                        let oi = if c == index { i - 1 } else { i };
                        let oj = if d == index { j - 1 } else { j };
                        if c_new {
                            assert(new_lists[d][j] == old_lists[d][oj]);
                            assert(blocks_apart(
                                block,
                                block_sizes()[c] as int,
                                old_lists[d][oj],
                                block_sizes()[d] as int,
                            ));
                        } else if d_new {
                            assert(new_lists[c][i] == old_lists[c][oi]);
                            assert(blocks_apart(
                                block,
                                block_sizes()[d] as int,
                                old_lists[c][oi],
                                block_sizes()[c] as int,
                            ));
                        } else {
                            assert(new_lists[c][i] == old_lists[c][oi]);
                            assert(new_lists[d][j] == old_lists[d][oj]);
                            assert(blocks_apart(
                                old_lists[c][oi],
                                block_sizes()[c] as int,
                                old_lists[d][oj],
                                block_sizes()[d] as int,
                            ));
                        }
                    }
                    assert forall|c: int| 0 <= c < BLOCK_CLASS_COUNT implies #[trigger] self.heads@[c]
                        == head_of(new_lists[c]) by {
                        if c != index {
                            assert(old(self).heads@[c] == head_of(old_lists[c]));
                        }
                    }
                    assert(next == old(self)@[index as int]);
                }
                DeallocStep::Link { index, next }
            },
            None => DeallocStep::Fallback,
        }
    }
}

/// A multiple of `b`, where `b` is a multiple of `c`, is a multiple of `c`.
proof fn lemma_mod_of_multiple(a: int, b: int, c: int)
    requires
        b > 0,
        c > 0,
        a % b == 0,
        b % c == 0,
    ensures
        a % c == 0,
{
    vstd::arithmetic::div_mod::lemma_fundamental_div_mod(a, b);
    vstd::arithmetic::div_mod::lemma_fundamental_div_mod(b, c);
    let q1 = a / b;
    let q2 = b / c;
    assert(a == c * (q2 * q1)) by (nonlinear_arith)
        requires
            a == b * q1,
            b == c * q2,
    ;
    vstd::arithmetic::div_mod::lemma_mod_multiples_basic(q2 * q1, c);
    vstd::arithmetic::mul::lemma_mul_is_commutative(c, q2 * q1);
}

/// A block released for a request and then asked for again by the same
/// request is handed out again, and unlinking it (with the link written when
/// it was released) restores the free lists as they were.
pub proof fn lemma_dealloc_then_alloc(
    heads: Seq<Option<usize>>,
    block: usize,
    size: usize,
    align: usize,
)
    requires
        heads.len() == BLOCK_CLASS_COUNT,
        size_class(size, align) is Some,
    ensures
        ({
            let after = heads_after_dealloc(heads, block, size, align);
            let c = size_class(size, align)->0;
            &&& dealloc_step(heads, size, align) == (DeallocStep::Link { index: c, next: heads[c as int] })
            &&& alloc_step(after, size, align) == (AllocStep::Reuse { index: c, block })
            &&& after.update(c as int, heads[c as int]) == heads
        }),
{
    lemma_size_class(size, align);
    let c = size_class(size, align)->0;
    let after = heads_after_dealloc(heads, block, size, align);
    assert(after.update(c as int, heads[c as int]) =~= heads);
}

} // verus!
