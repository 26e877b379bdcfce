//! What holds of the page allocator as a whole.

use crate::free_memory::{FreeMemory, Range};
use crate::memory_allocator::{MemoryAllocator, MemoryError};
use vstd::prelude::*;

verus! {

/// The pool, the chain and the free lists agree: the free ranges by address and by size are the
/// same ranges, no two of them touch, the free lists ascend by size, and the free size is the
/// sum of the sizes.
pub proof fn allocator_is_consistent(allocator: MemoryAllocator)
    requires
        allocator.wf(),
    ensures
        allocator@.valid(),
        allocator.free_size == allocator@.total(),
        allocator@.by_address.len() <= 64,
{
    let memory = allocator@;
    let pool = allocator.memory_entry_pool@;
    let chain = allocator.chain@;
    let sized = allocator.sized@;
    let sizes = crate::memory_allocator::sizes_of(pool);
    crate::memory_allocator::lemma_lists_basics(pool, allocator.free_list@, sized, sizes);
    crate::memory_allocator::lemma_pool_full(allocator);
    crate::memory_allocator::lemma_same_length(chain, sized);
    assert forall|i: int| 0 <= i < memory.by_size.len() implies memory.by_address.contains(
        #[trigger] memory.by_size[i],
    ) by {
        assert(sized.contains(sized[i]));
        let k = chain.index_of(sized[i]);
        assert(memory.by_address[k] == memory.by_size[i]);
    }
    assert forall|i: int| 0 <= i < memory.by_address.len() implies memory.by_size.contains(
        #[trigger] memory.by_address[i],
    ) by {
        assert(chain.contains(chain[i]));
        assert(sized.contains(chain[i]));
        let k = sized.index_of(chain[i]);
        assert(memory.by_size[k] == memory.by_address[i]);
    }
    assert forall|i: int, j: int| 0 <= i < j < memory.by_size.len() implies (
    #[trigger] memory.by_size[i]).size() <= (#[trigger] memory.by_size[j]).size()
        && memory.by_size[i] != memory.by_size[j] by {
        assert(sizes[sized[i] as int] <= sizes[sized[j] as int]);
        assert(sized.contains(sized[i]) && sized.contains(sized[j]));
        let a = chain.index_of(sized[i]);
        let b = chain.index_of(sized[j]);
        assert(a != b);
        assert(memory.by_address[a] == memory.by_size[i]);
        assert(memory.by_address[b] == memory.by_size[j]);
    }
}

/// An allocated block is aligned, lies below the limit, was free as a whole, and is exactly what
/// is no longer free; the free size shrinks by its size.
pub proof fn allocation_takes_its_block(
    memory: FreeMemory,
    size: int,
    align_order: nat,
    address_limit: int,
)
    requires
        memory.valid(),
        0 <= address_limit <= usize::MAX,
        size >= 0,
        memory.allocated(size, align_order, address_limit) is Ok,
    ensures
        ({
            let (address, after) = memory.allocated(size, align_order, address_limit)->Ok_0;
            &&& address % (vstd::arithmetic::power2::pow2(align_order) as int) == 0
            &&& 0 <= address
            &&& address + size <= address_limit
            &&& forall|a: int| address <= a < address + size ==> #[trigger] memory.is_free(a)
            &&& forall|a: int|
                #[trigger] after.is_free(a) <==> memory.is_free(a) && !(address <= a < address
                    + size)
            &&& after.valid()
            &&& after.total() == memory.total() - size
        }),
{
    let (address, after) = memory.allocated(size, align_order, address_limit)->Ok_0;
    let i = lemma_allocated_range(memory, size, align_order, address_limit);
    crate::free_memory::lemma_carved(memory, i, address, address + size - 1);
    crate::free_memory::lemma_carved_addresses(memory, i, address, address + size - 1);
    assert forall|a: int| address <= a < address + size implies #[trigger] memory.is_free(a) by {
        assert(memory.by_address[i].contains(a));
    }
}

/// The range that an allocated block is taken from.
proof fn lemma_allocated_range(
    memory: FreeMemory,
    size: int,
    align_order: nat,
    address_limit: int,
) -> (i: int)
    requires
        memory.valid(),
        0 <= address_limit,
        size >= 0,
        memory.allocated(size, align_order, address_limit) is Ok,
    ensures
        ({
            let (address, after) = memory.allocated(size, align_order, address_limit)->Ok_0;
            &&& size > 0
            &&& 0 <= i < memory.by_address.len()
            &&& memory.by_address[i].start <= address
            &&& address + size - 1 <= memory.by_address[i].end
            &&& address + size <= address_limit
            &&& 0 <= address
            &&& address % (vstd::arithmetic::power2::pow2(align_order) as int) == 0
            &&& memory.is_free(address)
            &&& memory.index_of_address(address) == i
            &&& after == memory.carved(i, address, address + size - 1)
        }),
{
    let (address, after) = memory.allocated(size, align_order, address_limit)->Ok_0;
    let f = crate::free_memory::fit_from(memory.by_size, size, align_order, address_limit, 0);
    crate::free_memory::lemma_fit_from(memory.by_size, size, align_order, address_limit, 0);
    let range = memory.by_size[f];
    assert(range.placement(size, align_order, address_limit) is Some);
    assert(memory.by_address.contains(range));
    let i = memory.by_address.index_of(range);
    assert(memory.by_address[i] == range);
    crate::bits::lemma_align_up(range.start, align_order);
    crate::memory_allocator::lemma_index_of_address(memory, i, address);
    i
}

/// Two blocks that are allocated one after the other do not overlap.
pub proof fn allocations_do_not_overlap(
    memory: FreeMemory,
    size: int,
    align_order: nat,
    address_limit: int,
    next_size: int,
    next_align_order: nat,
    next_address_limit: int,
)
    requires
        memory.valid(),
        0 <= address_limit <= usize::MAX,
        0 <= next_address_limit <= usize::MAX,
        size >= 0,
        next_size >= 0,
        memory.allocated(size, align_order, address_limit) is Ok,
        memory.allocated(size, align_order, address_limit)->Ok_0.1.allocated(
            next_size,
            next_align_order,
            next_address_limit,
        ) is Ok,
    ensures
        ({
            let (address, after) = memory.allocated(size, align_order, address_limit)->Ok_0;
            let (next_address, _) = after.allocated(
                next_size,
                next_align_order,
                next_address_limit,
            )->Ok_0;
            address + size <= next_address || next_address + next_size <= address
        }),
{
    let (address, after) = memory.allocated(size, align_order, address_limit)->Ok_0;
    let i = lemma_allocated_range(memory, size, align_order, address_limit);
    crate::free_memory::lemma_carved_addresses(memory, i, address, address + size - 1);
    let (next_address, _) = after.allocated(
        next_size,
        next_align_order,
        next_address_limit,
    )->Ok_0;
    let j = lemma_allocated_range(after, next_size, next_align_order, next_address_limit);
    let a = if address < next_address {
        next_address
    } else {
        address
    };
    if address + size > next_address && next_address + next_size > address {
        assert(after.by_address[j].contains(a));
        assert(after.is_free(a));
    }
}

/// Freeing an allocated block restores the free ranges, and so the free size, exactly.
pub proof fn free_undoes_allocation(
    memory: FreeMemory,
    size: int,
    align_order: nat,
    address_limit: int,
)
    requires
        memory.valid(),
        memory.by_address.len() <= 64,
        0 <= address_limit <= usize::MAX,
        size >= 0,
        memory.allocated(size, align_order, address_limit) is Ok,
    ensures
        ({
            let (address, after) = memory.allocated(size, align_order, address_limit)->Ok_0;
            &&& after.freed(address, size) is Ok
            &&& after.freed(address, size)->Ok_0.by_address == memory.by_address
            &&& after.freed(address, size)->Ok_0.total() == memory.total()
        }),
{
    let (address, after) = memory.allocated(size, align_order, address_limit)->Ok_0;
    let i = lemma_allocated_range(memory, size, align_order, address_limit);
    let end = address + size - 1;
    let block = Range { start: address, end };
    crate::free_memory::lemma_carved(memory, i, address, end);
    lemma_carved_is_disjoint(memory, i, block);
    if after.by_address.len() > 0 {
        crate::free_memory::lemma_disjoint_is_added(after, block);
    }
    lemma_join_undoes_carve(memory, i, block);
}

/// Putting back what was taken out of a free range restores the free ranges. Where the range is
/// still there in part, the block joins that part.
proof fn lemma_join_undoes_carve(memory: FreeMemory, i: int, block: Range)
    requires
        memory.separated(),
        0 <= i < memory.by_address.len(),
        memory.by_address[i].start <= block.start <= block.end <= memory.by_address[i].end,
    ensures
        ({
            let after = memory.carved(i, block.start, block.end);
            &&& after.joined(block).by_address == memory.by_address
            &&& after.by_address.len() >= memory.by_address.len() ==> after.joins_left(block)
                || after.joins_right(block)
        }),
{
    let ranges = memory.by_address;
    let range = ranges[i];
    let after = memory.carved(i, block.start, block.end);
    lemma_carved_position(memory, i, block);
    if range.start < block.start {
        assert(after.by_address[i] == (Range { start: range.start, end: block.start - 1 }));
        assert(after.joins_left(block));
        if block.end < range.end {
            assert(after.by_address[i + 1] == (Range { start: block.end + 1, end: range.end }));
            assert(after.joins_right(block));
            assert(after.joined(block).by_address =~= ranges);
        } else {
            if i + 1 < ranges.len() {
                assert(after.by_address[i + 1] == ranges[i + 1]);
            }
            assert(!after.joins_right(block));
            assert(after.joined(block).by_address =~= ranges);
        }
    } else {
        if i > 0 {
            assert(after.by_address[i - 1] == ranges[i - 1]);
        }
        assert(!after.joins_left(block));
        if block.end < range.end {
            assert(after.by_address[i] == (Range { start: block.end + 1, end: range.end }));
            assert(after.joins_right(block));
            assert(after.joined(block).by_address =~= ranges);
        } else {
            if i + 1 < ranges.len() {
                assert(after.by_address[i] == ranges[i + 1]);
            }
            assert(!after.joins_right(block));
            assert(after.joined(block).by_address =~= ranges);
        }
    }
}

/// What is taken out of a free range is no longer part of one.
proof fn lemma_carved_is_disjoint(memory: FreeMemory, i: int, block: Range)
    requires
        memory.separated(),
        0 <= i < memory.by_address.len(),
        memory.by_address[i].start <= block.start <= block.end <= memory.by_address[i].end,
    ensures
        memory.carved(i, block.start, block.end).is_disjoint(block),
{
    let range = memory.by_address[i];
    let after = memory.carved(i, block.start, block.end);
    let shift = after.by_address.len() - memory.by_address.len();
    assert forall|a: int| 0 <= a < after.by_address.len() implies (
    #[trigger] after.by_address[a]).end < block.start || block.end < after.by_address[a].start by {
        if a < i {
            assert(after.by_address[a] == memory.by_address[a]);
        } else if a > i + shift {
            assert(after.by_address[a] == memory.by_address[a - shift]);
        }
    }
}

/// Where a block that was taken out of the range at index `i` goes back.
proof fn lemma_carved_position(memory: FreeMemory, i: int, block: Range)
    requires
        memory.separated(),
        0 <= i < memory.by_address.len(),
        memory.by_address[i].start <= block.start <= block.end <= memory.by_address[i].end,
    ensures
        crate::free_memory::index_from(
            memory.carved(i, block.start, block.end).by_address,
            block.start,
            0,
        ) == if memory.by_address[i].start < block.start {
            i + 1
        } else {
            i
        },
{
    let range = memory.by_address[i];
    let ranges = memory.by_address;
    let after = memory.carved(i, block.start, block.end).by_address;
    crate::free_memory::lemma_index_from(after, block.start, 0);
    let j = crate::free_memory::index_from(after, block.start, 0);
    let shift = after.len() - ranges.len();
    let expected = if range.start < block.start {
        i + 1
    } else {
        i
    };
    assert forall|a: int| 0 <= a < i implies (#[trigger] after[a]).start < block.start by {
        assert(after[a] == ranges[a]);
    }
    if j < expected {
        assert(after[j].start >= block.start);
    }
    if j > expected {
        assert(after[expected].start < block.start);
        if expected > i + shift {
            assert(after[expected] == ranges[expected - shift]);
        }
    }
}

/// Freeing memory none of which is free makes exactly that memory free: the free size grows by
/// its size, and only a full pool can refuse it.
pub proof fn free_adds_its_range(memory: FreeMemory, start: int, size: int)
    requires
        memory.valid(),
        0 <= start,
        0 < size,
        start + size <= usize::MAX,
        memory.is_disjoint((Range { start, end: start + size - 1 })),
    ensures
        match memory.freed(start, size) {
            Ok(after) => {
                &&& forall|a: int|
                    #[trigger] after.is_free(a) <==> memory.is_free(a) || start <= a < start + size
                &&& after.total() == memory.total() + size
                &&& after.valid()
            },
            Err(error) => error == MemoryError::NoEntry && memory.is_full(),
        },
{
    let range = Range { start, end: start + size - 1 };
    if memory.by_address.len() > 0 {
        crate::free_memory::lemma_disjoint_is_added(memory, range);
    }
    crate::free_memory::lemma_joined(memory, range);
    crate::free_memory::lemma_joined_addresses(memory, range);
}

/// Memory that is free cannot be freed again.
pub proof fn double_free_is_rejected(memory: FreeMemory, start: int, size: int)
    requires
        memory.separated(),
        0 < size,
        memory.covers((Range { start, end: start + size - 1 })),
    ensures
        memory.freed(start, size) == Err::<FreeMemory, MemoryError>(MemoryError::InvalidRequest),
{
    crate::free_memory::lemma_covered_is_rejected(memory, Range { start, end: start + size - 1 });
}

/// A reservation takes what is still free of the request in the free range that holds its start,
/// and nothing else.
pub proof fn reservation_takes_what_is_free(memory: FreeMemory, start: int, size: int)
    requires
        memory.valid(),
        0 < size,
        memory.reserved(start, size, 0) is Ok,
    ensures
        ({
            let after = memory.reserved(start, size, 0)->Ok_0;
            let end = memory.end_of_request(start, size);
            &&& start <= end < start + size
            &&& end < start + size - 1 ==> !memory.is_free(end + 1)
            &&& forall|a: int| start <= a <= end ==> #[trigger] memory.is_free(a)
            &&& forall|a: int|
                #[trigger] after.is_free(a) <==> memory.is_free(a) && !(start <= a <= end)
            &&& after.valid()
            &&& after.total() == memory.total() - (end - start + 1)
        }),
{
    let i = memory.index_of_address(start);
    let end = memory.end_of_request(start, size);
    assert(memory.by_address[i].contains(start));
    crate::free_memory::lemma_carved(memory, i, start, end);
    crate::free_memory::lemma_carved_addresses(memory, i, start, end);
    assert forall|a: int| start <= a <= end implies #[trigger] memory.is_free(a) by {
        assert(memory.by_address[i].contains(a));
    }
    if end < start + size - 1 && memory.is_free(end + 1) {
        let j = memory.index_of_address(end + 1);
        assert(memory.by_address[j].contains(end + 1));
        assert(memory.by_address[i].end == end);
    }
}

/// All the free memory is below `limit`.
pub open spec fn is_below(memory: FreeMemory, limit: int) -> bool {
    forall|i: int| 0 <= i < memory.by_address.len() ==> (#[trigger] memory.by_address[i]).end < limit
}

/// Where the free memory ends a page before the address space does, any request for whole pages
/// can be tried.
pub proof fn page_allocations_can_be_tried(
    allocator: MemoryAllocator,
    size: int,
    address_limit: int,
)
    requires
        allocator.wf(),
        is_below(allocator@, usize::MAX - 0x1000),
    ensures
        allocator.can_allocate(size, 12, address_limit),
{
    allocator_is_consistent(allocator);
    let memory = allocator@;
    vstd::arithmetic::power2::lemma2_to64();
    assert forall|i: int| 0 <= i < memory.by_size.len() implies (
    #[trigger] memory.by_size[i]).can_be_aligned(size, 12, address_limit) by {
        let range = memory.by_size[i];
        assert(memory.by_address.contains(range));
        let k = memory.by_address.index_of(range);
        assert(memory.by_address[k] == range);
        crate::bits::lemma_align_up(range.start, 12);
    }
}

/// Allocating leaves the free memory below what it was below.
pub proof fn allocation_stays_below(
    memory: FreeMemory,
    size: int,
    align_order: nat,
    address_limit: int,
    limit: int,
)
    requires
        memory.valid(),
        0 <= address_limit <= usize::MAX,
        size >= 0,
        is_below(memory, limit),
        memory.allocated(size, align_order, address_limit) is Ok,
    ensures
        is_below(memory.allocated(size, align_order, address_limit)->Ok_0.1, limit),
{
    let (address, after) = memory.allocated(size, align_order, address_limit)->Ok_0;
    let k = lemma_allocated_range(memory, size, align_order, address_limit);
    crate::free_memory::lemma_carved_addresses(memory, k, address, address + size - 1);
    assert forall|i: int| 0 <= i < after.by_address.len() implies (
    #[trigger] after.by_address[i]).end < limit by {
        let a = after.by_address[i].end;
        assert(after.by_address[i].contains(a));
        assert(after.is_free(a));
        assert(memory.is_free(a));
        let j = memory.index_of_address(a);
        assert(memory.by_address[j].contains(a));
    }
}

/// The free memory once `n` pages were allocated, one after the other. `None` where there were not
/// so many.
pub open spec fn after_pages(memory: FreeMemory, n: nat) -> Option<FreeMemory>
    decreases n,
{
    if n == 0 {
        Some(memory)
    } else {
        match memory.allocated(0x1000, 12, usize::MAX as int) {
            Ok((_, after)) => after_pages(after, (n - 1) as nat),
            Err(_) => None,
        }
    }
}

/// There is not even a page left.
pub open spec fn has_no_page(memory: FreeMemory) -> bool {
    memory.allocated(0x1000, 12, usize::MAX as int) is Err
}

/// To allocate a page is to take one page.
pub proof fn lemma_page_taken(memory: FreeMemory)
    requires
        memory.allocated(0x1000, 12, usize::MAX as int) is Ok,
    ensures
        after_pages(memory, 1) == Some(memory.allocated(0x1000, 12, usize::MAX as int)->Ok_0.1),
{
    reveal_with_fuel(after_pages, 2);
}

/// Pages that are taken in turn are taken together.
pub proof fn lemma_after_pages(memory: FreeMemory, n: nat, m: nat)
    requires
        after_pages(memory, n) is Some,
    ensures
        after_pages(memory, n + m) == after_pages(after_pages(memory, n)->Some_0, m),
    decreases n,
{
    if n > 0 {
        let after = memory.allocated(0x1000, 12, usize::MAX as int)->Ok_0.1;
        lemma_after_pages(after, (n - 1) as nat, m);
    }
}

/// Where there are pages enough for more, there are enough for fewer.
pub proof fn fewer_pages_can_be_taken(memory: FreeMemory, n: nat, more: nat)
    requires
        n <= more,
        after_pages(memory, more) is Some,
    ensures
        after_pages(memory, n) is Some,
    decreases n,
{
    if n > 0 {
        let after = memory.allocated(0x1000, 12, usize::MAX as int)->Ok_0.1;
        fewer_pages_can_be_taken(after, (n - 1) as nat, (more - 1) as nat);
    }
}

/// What was in use stays in use while pages are taken.
pub proof fn taking_pages_frees_nothing(before: FreeMemory, after: FreeMemory, n: nat)
    requires
        before.valid(),
        after_pages(before, n) == Some(after),
    ensures
        after.valid(),
        forall|a: int| #[trigger] after.is_free(a) ==> before.is_free(a),
        after.total() == before.total() - 0x1000 * n,
{
    lemma_after_pages_is_free(before, n);
}

proof fn lemma_after_pages_is_free(memory: FreeMemory, n: nat)
    requires
        memory.valid(),
        after_pages(memory, n) is Some,
    ensures
        ({
            let after = after_pages(memory, n)->Some_0;
            &&& after.valid()
            &&& forall|a: int| #[trigger] after.is_free(a) ==> memory.is_free(a)
            &&& after.total() == memory.total() - 0x1000 * n
        }),
    decreases n,
{
    if n > 0 {
        allocation_takes_its_block(memory, 0x1000, 12, usize::MAX as int);
        let middle = memory.allocated(0x1000, 12, usize::MAX as int)->Ok_0.1;
        lemma_after_pages_is_free(middle, (n - 1) as nat);
        let after = after_pages(memory, n)->Some_0;
        assert forall|a: int| #[trigger] after.is_free(a) implies memory.is_free(a) by {
            assert(middle.is_free(a));
        }
    }
}

} // verus!
