//! The machine's memory: what is handed to the allocator at boot, and whole pages out of it.

use crate::free_memory::{FreeMemory, Range};
use crate::memory_allocator::{MemoryAllocator, MemoryError};
use vstd::prelude::*;

verus! {

/// The size of the stack of one CPU.
pub const STACK_SIZE: usize = 0x1_0000;

pub const STACK_PAGES: usize = 16;

/// The devices reach memory below this address only.
pub const DMA_ADDRESS_LIMIT: u64 = 0x1_0000_0000;

/// What could not be set up.
#[derive(Clone, Copy, PartialEq, Eq, Debug, Structural)]
pub enum SetupError {
    /// A RAM bank could not be made free.
    Ram,
    /// The DTB could not be reserved.
    Dtb,
    /// A segment of the hypervisor could not be reserved.
    Segment,
    /// The stack could not be reserved.
    Stack,
}

/// The allocator takes a request to free `size` bytes at `start`.
pub open spec fn can_be_freed(memory: FreeMemory, start: int, size: int) -> bool {
    &&& start + size <= usize::MAX
    &&& memory.total() == 0 ==> size > 0
    &&& memory.total() > 0 && size > 0 ==> !(memory.free_effect(
        (Range { start, end: start + size - 1 }),
    ) is Unsupported)
}

/// The allocator takes a request to reserve `size` bytes at `start`.
pub open spec fn can_be_reserved(memory: FreeMemory, start: int, size: int) -> bool {
    0 < size <= memory.total() && memory.is_free(start) ==> start + size <= usize::MAX
}

/// Every free range can be rounded up as an allocation may ask for.
pub open spec fn can_be_allocated(
    memory: FreeMemory,
    size: int,
    align_order: nat,
    address_limit: int,
) -> bool {
    forall|i: int|
        0 <= i < memory.by_address.len() ==> (#[trigger] memory.by_address[i]).can_be_aligned(
            size,
            align_order,
            address_limit,
        )
}

/// The pairs are the ends of the ranges.
pub open spec fn are_ranges(pairs: Seq<(usize, usize)>, ranges: Seq<Range>) -> bool {
    &&& pairs.len() == ranges.len()
    &&& forall|i: int|
        0 <= i < ranges.len() ==> (#[trigger] ranges[i]) == (Range {
            start: pairs[i].0 as int,
            end: pairs[i].1 as int,
        })
}

impl MemoryAllocator {
    /// The free ranges by ascending address: the first and the last address of each.
    pub fn free_ranges(&self) -> (ranges: Vec<(usize, usize)>)
        requires
            self.wf(),
        ensures
            are_ranges(ranges@, self@.by_address),
    {
        let ghost pool = self.memory_entry_pool@;
        let ghost chain = self.chain@;
        let mut ranges: Vec<(usize, usize)> = Vec::new();
        let mut current: Option<u32> = self.first_entry;
        while current.is_some()
            invariant
                self.wf(),
                pool == self.memory_entry_pool@,
                chain == self.chain@,
                ranges@.len() <= chain.len(),
                current == crate::memory_allocator::at(chain, ranges@.len() as int),
                forall|i: int|
                    0 <= i < ranges@.len() ==> (#[trigger] self@.by_address[i]) == (Range {
                        start: ranges@[i].0 as int,
                        end: ranges@[i].1 as int,
                    }),
            decreases chain.len() - ranges@.len(),
        {
            let id: u32 = current.unwrap();
            let ghost k = ranges@.len() as int;
            assert(chain[k] == id);
            assert(pool[chain[k] as int].next == crate::memory_allocator::at(chain, k + 1));
            ranges.push(
                (
                    self.memory_entry_pool[id as usize].start,
                    self.memory_entry_pool[id as usize].end,
                ),
            );
            current = self.memory_entry_pool[id as usize].next;
        }
        ranges
    }

    /// Whether a request to free `size` bytes at `start` can be handled.
    pub fn accepts_free(&self, start: usize, size: usize) -> (accepted: bool)
        requires
            self.wf(),
        ensures
            accepted == self.can_free(start as int, size as int),
            accepted == can_be_freed(self@, start as int, size as int),
    {
        if start.checked_add(size).is_none() {
            return false;
        }
        if self.free_size == 0 {
            return size > 0;
        }
        if size == 0 {
            return true;
        }
        let end: usize = start + (size - 1);
        let ranges: Vec<(usize, usize)> = self.free_ranges();
        let n: usize = ranges.len();
        let ghost memory = self@;
        proof {
            crate::free_memory::lemma_total_bounds(memory);
        }
        let mut i: usize = 0;
        while i < n && ranges[i].0 < start
            invariant
                n == ranges@.len(),
                i <= n,
                are_ranges(ranges@, memory.by_address),
                crate::free_memory::index_from(memory.by_address, start as int, 0)
                    == crate::free_memory::index_from(memory.by_address, start as int, i as int),
            decreases n - i,
        {
            assert(memory.by_address[i as int].start < start);
            i = i + 1;
        }
        assert(n > 0) by {
            if n == 0 {
                assert(memory.by_address =~= Seq::empty());
            }
        }
        if i == 0 {
            assert(memory.by_address[0] == memory.by_address[i as int]);
            let first: (usize, usize) = ranges[0];
            return (first.0 == start && first.1 >= end) || first.1 == end || end < first.0;
        }
        let before: (usize, usize) = ranges[i - 1];
        assert(memory.by_address[i - 1].end == before.1);
        if before.1 >= end {
            return true;
        }
        if before.1 >= start {
            if i == 1 {
                return false;
            }
            assert(i < n ==> memory.by_address[i as int].start == ranges@[i as int].0);
            return i == n || ranges[i].0 > end;
        }
        if i == n {
            return true;
        }
        let next: (usize, usize) = ranges[i];
        assert(memory.by_address[i as int].start == next.0);
        if next.0 > end {
            return true;
        }
        if next.0 != start {
            return false;
        }
        assert(i + 1 < n ==> memory.by_address[i + 1].start == ranges@[i + 1].0);
        next.1 >= end || i + 1 == n || ranges[i + 1].0 > end
    }

    /// Whether a request to reserve `size` bytes at `start` can be handled.
    pub fn accepts_reserve(&self, start: usize, size: usize) -> (accepted: bool)
        requires
            self.wf(),
        ensures
            accepted == self.can_reserve(start as int, size as int, 0),
            accepted == can_be_reserved(self@, start as int, size as int),
    {
        if size == 0 || size > self.free_size {
            return true;
        }
        if start.checked_add(size).is_some() {
            return true;
        }
        let ghost memory = self@;
        let ranges: Vec<(usize, usize)> = self.free_ranges();
        let mut i: usize = 0;
        while i < ranges.len()
            invariant
                i <= ranges@.len(),
                are_ranges(ranges@, memory.by_address),
                memory == self@,
                self.wf(),
                0 < size <= self.free_size,
                start + size > usize::MAX,
                forall|k: int|
                    0 <= k < i ==> !(#[trigger] memory.by_address[k]).contains(start as int),
            decreases ranges@.len() - i,
        {
            assert(memory.by_address[i as int].start == ranges@[i as int].0);
            if ranges[i].0 <= start && start <= ranges[i].1 {
                assert(memory.is_free(start as int));
                return false;
            }
            i = i + 1;
        }
        true
    }

    /// Whether every free range can be rounded up as an allocation may ask for.
    pub fn accepts_allocate(&self, size: usize, align_order: usize, address_limit: usize) -> (accepted:
        bool)
        requires
            self.wf(),
        ensures
            accepted == can_be_allocated(
                self@,
                size as int,
                align_order as nat,
                address_limit as int,
            ),
            accepted ==> self.can_allocate(size as int, align_order as nat, address_limit as int),
    {
        let ghost memory = self@;
        let ranges: Vec<(usize, usize)> = self.free_ranges();
        let mut i: usize = 0;
        while i < ranges.len()
            invariant
                i <= ranges@.len(),
                are_ranges(ranges@, memory.by_address),
                memory == self@,
                self.wf(),
                forall|k: int|
                    0 <= k < i ==> (#[trigger] memory.by_address[k]).can_be_aligned(
                        size as int,
                        align_order as nat,
                        address_limit as int,
                    ),
            decreases ranges@.len() - i,
        {
            let (start, end): (usize, usize) = ranges[i];
            assert(memory.by_address[i as int] == Range { start: start as int, end: end as int });
            if !Self::can_align(start, end, size, align_order, address_limit) {
                return false;
            }
            i = i + 1;
        }
        proof {
            crate::allocator_laws::allocator_is_consistent(*self);
            assert forall|k: int| 0 <= k < memory.by_size.len() implies (
            #[trigger] memory.by_size[k]).can_be_aligned(
                size as int,
                align_order as nat,
                address_limit as int,
            ) by {
                let range = memory.by_size[k];
                assert(memory.by_address.contains(range));
                let j = memory.by_address.index_of(range);
                assert(memory.by_address[j] == range);
            }
        }
        true
    }

    /// Whether the start of a free range can be rounded up.
    fn can_align(
        start: usize,
        end: usize,
        size: usize,
        align_order: usize,
        address_limit: usize,
    ) -> (possible: bool)
        requires
            start <= end < usize::MAX,
        ensures
            possible == (Range { start: start as int, end: end as int }).can_be_aligned(
                size as int,
                align_order as nat,
                address_limit as int,
            ),
    {
        let available: usize = if address_limit <= start {
            0
        } else if end < address_limit {
            end - start + 1
        } else {
            address_limit - start
        };
        if size > available || align_order == 0 || start == 0 {
            return true;
        }
        if align_order >= usize::BITS as usize {
            return false;
        }
        proof {
            crate::bits::lemma_mask_aligns_down((start - 1) as usize, align_order);
            crate::bits::lemma_align_down(start - 1, align_order as nat);
        }
        let block: usize = 1usize << align_order;
        let down: usize = (start - 1) & !(block - 1);
        down.checked_add(block).is_some()
    }
}

/// The free memory with the RAM banks in it. A bank without bytes and one beyond the reach of the
/// devices are passed over, and one that reaches beyond it is cut.
pub open spec fn with_ram(memory: FreeMemory, banks: Seq<(u64, u64)>) -> Result<
    FreeMemory,
    SetupError,
>
    decreases banks.len(),
{
    if banks.len() == 0 {
        Ok(memory)
    } else {
        let (start, size) = banks[0];
        if size == 0 || start >= DMA_ADDRESS_LIMIT {
            with_ram(memory, banks.skip(1))
        } else {
            let usable = usable_size(start, size);
            if !can_be_freed(memory, start as int, usable) {
                Err(SetupError::Ram)
            } else {
                match memory.freed(start as int, usable) {
                    Ok(after) => with_ram(after, banks.skip(1)),
                    Err(_) => Err(SetupError::Ram),
                }
            }
        }
    }
}

/// How many bytes of a bank the devices reach.
pub open spec fn usable_size(start: u64, size: u64) -> int {
    if size <= DMA_ADDRESS_LIMIT - start {
        size as int
    } else {
        DMA_ADDRESS_LIMIT - start
    }
}

/// The free memory without `size` bytes at `start`.
pub open spec fn without(memory: FreeMemory, start: int, size: int, error: SetupError) -> Result<
    FreeMemory,
    SetupError,
> {
    if !can_be_reserved(memory, start, size) {
        Err(error)
    } else {
        match memory.reserved(start, size, 0) {
            Ok(after) => Ok(after),
            Err(_) => Err(error),
        }
    }
}

/// The free memory without the segments of the hypervisor.
pub open spec fn without_segments(memory: FreeMemory, segments: Seq<(usize, usize)>) -> Result<
    FreeMemory,
    SetupError,
>
    decreases segments.len(),
{
    if segments.len() == 0 {
        Ok(memory)
    } else {
        match without(memory, segments[0].0 as int, segments[0].1 as int, SetupError::Segment) {
            Ok(after) => without_segments(after, segments.skip(1)),
            Err(error) => Err(error),
        }
    }
}

/// The stack: what ends at the first page boundary from `stack_pointer` on.
pub open spec fn stack_start(stack_pointer: int) -> int {
    crate::bits::align_up(stack_pointer, 12) - STACK_SIZE
}

/// The free memory without the stack.
pub open spec fn without_stack(memory: FreeMemory, stack_pointer: int) -> Result<
    FreeMemory,
    SetupError,
> {
    if stack_pointer == 0 || crate::bits::align_up(stack_pointer, 12) > usize::MAX || stack_start(
        stack_pointer,
    ) < 0 {
        Err(SetupError::Stack)
    } else {
        without(memory, stack_start(stack_pointer), STACK_SIZE as int, SetupError::Stack)
    }
}

/// The free memory once the machine is set up.
pub open spec fn memory_set_up(
    memory: FreeMemory,
    banks: Seq<(u64, u64)>,
    dtb_address: int,
    dtb_size: int,
    segments: Seq<(usize, usize)>,
    stack_pointer: int,
) -> Result<FreeMemory, SetupError> {
    match with_ram(memory, banks) {
        Ok(ram) => match without(ram, dtb_address, dtb_size, SetupError::Dtb) {
            Ok(no_dtb) => match without_segments(no_dtb, segments) {
                Ok(no_segments) => without_stack(no_segments, stack_pointer),
                Err(error) => Err(error),
            },
            Err(error) => Err(error),
        },
        Err(error) => Err(error),
    }
}

/// Makes the RAM banks free.
fn register_ram(allocator: &mut MemoryAllocator, banks: &[(u64, u64)]) -> (result: Result<
    (),
    SetupError,
>)
    requires
        old(allocator).wf(),
    ensures
        final(allocator).wf(),
        match with_ram(old(allocator)@, banks@) {
            Ok(memory) => result is Ok && final(allocator)@ == memory,
            Err(error) => result == Err::<(), SetupError>(error),
        },
{
    let ghost before = allocator@;
    let mut i: usize = 0;
    assert(banks@.skip(0) =~= banks@);
    while i < banks.len()
        invariant
            allocator.wf(),
            before == old(allocator)@,
            i <= banks@.len(),
            with_ram(before, banks@) == with_ram(allocator@, banks@.skip(i as int)),
        decreases banks@.len() - i,
    {
        let (start, size): (u64, u64) = banks[i];
        let ghost rest = banks@.skip(i as int);
        assert(rest[0] == (start, size));
        assert(rest.skip(1) =~= banks@.skip(i + 1));
        i = i + 1;
        if size == 0 || start >= DMA_ADDRESS_LIMIT {
            continue;
        }
        let usable: u64 = if size <= DMA_ADDRESS_LIMIT - start {
            size
        } else {
            DMA_ADDRESS_LIMIT - start
        };
        if start + usable > usize::MAX as u64 {
            return Err(SetupError::Ram);
        }
        if !allocator.accepts_free(start as usize, usable as usize) {
            return Err(SetupError::Ram);
        }
        if allocator.free(start as usize, usable as usize).is_err() {
            return Err(SetupError::Ram);
        }
    }
    Ok(())
}

/// Takes `size` bytes at `start` out of the free memory.
fn exclude(allocator: &mut MemoryAllocator, start: usize, size: usize, error: SetupError) -> (result:
    Result<(), SetupError>)
    requires
        old(allocator).wf(),
    ensures
        final(allocator).wf(),
        match without(old(allocator)@, start as int, size as int, error) {
            Ok(memory) => result is Ok && final(allocator)@ == memory,
            Err(error) => result == Err::<(), SetupError>(error),
        },
{
    if !allocator.accepts_reserve(start, size) {
        return Err(error);
    }
    match allocator.reserve_memory(start, size, 0) {
        Ok(_) => Ok(()),
        Err(_) => Err(error),
    }
}

/// Takes the segments of the hypervisor out of the free memory.
fn exclude_segments(allocator: &mut MemoryAllocator, segments: &[(usize, usize)]) -> (result: Result<
    (),
    SetupError,
>)
    requires
        old(allocator).wf(),
    ensures
        final(allocator).wf(),
        match without_segments(old(allocator)@, segments@) {
            Ok(memory) => result is Ok && final(allocator)@ == memory,
            Err(error) => result == Err::<(), SetupError>(error),
        },
{
    let ghost before = allocator@;
    let mut i: usize = 0;
    assert(segments@.skip(0) =~= segments@);
    while i < segments.len()
        invariant
            allocator.wf(),
            before == old(allocator)@,
            i <= segments@.len(),
            without_segments(before, segments@) == without_segments(
                allocator@,
                segments@.skip(i as int),
            ),
        decreases segments@.len() - i,
    {
        let (start, size): (usize, usize) = segments[i];
        let ghost rest = segments@.skip(i as int);
        assert(rest[0] == (start, size));
        assert(rest.skip(1) =~= segments@.skip(i + 1));
        i = i + 1;
        match exclude(allocator, start, size, SetupError::Segment) {
            Ok(_) => {},
            Err(error) => {
                return Err(error);
            },
        }
    }
    Ok(())
}

/// Hands the machine's RAM to the allocator, but for the DTB, the segments of the hypervisor and
/// its stack. `banks` holds the start and the size of each bank that the DTB describes, `segments`
/// the physical address and the size of each loaded segment.
pub fn setup_memory(
    allocator: &mut MemoryAllocator,
    banks: &[(u64, u64)],
    dtb_address: usize,
    dtb_size: usize,
    segments: &[(usize, usize)],
    stack_pointer: usize,
) -> (result: Result<(), SetupError>)
    requires
        old(allocator).wf(),
    ensures
        final(allocator).wf(),
        match memory_set_up(
            old(allocator)@,
            banks@,
            dtb_address as int,
            dtb_size as int,
            segments@,
            stack_pointer as int,
        ) {
            Ok(memory) => result is Ok && final(allocator)@ == memory,
            Err(error) => result == Err::<(), SetupError>(error),
        },
{
    match register_ram(allocator, banks) {
        Ok(_) => {},
        Err(error) => {
            return Err(error);
        },
    }
    match exclude(allocator, dtb_address, dtb_size, SetupError::Dtb) {
        Ok(_) => {},
        Err(error) => {
            return Err(error);
        },
    }
    match exclude_segments(allocator, segments) {
        Ok(_) => {},
        Err(error) => {
            return Err(error);
        },
    }
    if stack_pointer == 0 {
        return Err(SetupError::Stack);
    }
    let last: usize = stack_pointer - 1;
    proof {
        vstd::arithmetic::power2::lemma2_to64();
        crate::bits::lemma_mask_aligns_down(last, 12);
        assert(1usize << 12usize == 0x1000) by (bit_vector);
    }
    let stack_end: usize = match (last & !(0x1000usize - 1)).checked_add(0x1000) {
        Some(stack_end) => stack_end,
        None => {
            return Err(SetupError::Stack);
        },
    };
    if stack_end < STACK_SIZE {
        return Err(SetupError::Stack);
    }
    exclude(allocator, stack_end - STACK_SIZE, STACK_SIZE, SetupError::Stack)
}

/// Allocates whole pages, aligned to `2^align` bytes.
pub fn allocate_pages(allocator: &mut MemoryAllocator, number_of_pages: usize, align: usize) -> (result:
    Result<usize, MemoryError>)
    requires
        old(allocator).wf(),
        number_of_pages * 0x1000 <= usize::MAX,
        old(allocator).can_allocate(number_of_pages * 0x1000, align as nat, usize::MAX as int),
    ensures
        final(allocator).wf(),
        match old(allocator)@.allocated(number_of_pages * 0x1000, align as nat, usize::MAX as int) {
            Ok((address, memory)) => {
                &&& result matches Ok(found) && found == address
                &&& final(allocator)@ == memory
            },
            Err(error) => {
                &&& result == Err::<usize, MemoryError>(error)
                &&& final(allocator)@ == old(allocator)@
            },
        },
{
    allocator.allocate(number_of_pages * 0x1000, align)
}

/// Where whole pages go, and the free memory without them. `None` where there is no room.
#[verifier::opaque]
pub open spec fn pages_taken(memory: FreeMemory, pages: int, align_order: nat) -> Option<
    (int, FreeMemory),
> {
    if pages * 4096 > usize::MAX || !can_be_allocated(
        memory,
        pages * 4096,
        align_order,
        usize::MAX as int,
    ) {
        None
    } else {
        match memory.allocated(pages * 4096, align_order, usize::MAX as int) {
            Ok((address, after)) => Some((address, after)),
            Err(_) => None,
        }
    }
}

/// What was allocated is aligned, inside the address space, and no longer free.
pub proof fn lemma_pages_taken(memory: FreeMemory, pages: int, align_order: nat)
    requires
        memory.valid(),
        pages >= 0,
        pages_taken(memory, pages, align_order) is Some,
    ensures
        ({
            let (address, after) = pages_taken(memory, pages, align_order)->0;
            &&& after.valid()
            &&& 0 <= address
            &&& address + pages * 4096 <= usize::MAX
            &&& address % (vstd::arithmetic::power2::pow2(align_order) as int) == 0
        }),
{
    reveal(pages_taken);
    crate::allocator_laws::allocation_takes_its_block(
        memory,
        pages * 4096,
        align_order,
        usize::MAX as int,
    );
}

/// Allocates whole pages, where there is room for them.
pub fn try_allocate_pages(allocator: &mut MemoryAllocator, number_of_pages: usize, align: usize) -> (result:
    Option<usize>)
    requires
        old(allocator).wf(),
    ensures
        final(allocator).wf(),
        match pages_taken(old(allocator)@, number_of_pages as int, align as nat) {
            Some((address, memory)) => {
                &&& result matches Some(found) && found == address
                &&& final(allocator)@ == memory
            },
            None => result is None && final(allocator)@ == old(allocator)@,
        },
{
    proof {
        reveal(pages_taken);
    }
    if number_of_pages > usize::MAX / 4096 {
        return None;
    }
    if !allocator.accepts_allocate(number_of_pages * 4096, align, usize::MAX) {
        return None;
    }
    match allocate_pages(allocator, number_of_pages, align) {
        Ok(address) => Some(address),
        Err(_) => None,
    }
}

/// Allocates whole pages that the devices reach.
pub fn allocate_dma_pages(allocator: &mut MemoryAllocator, number_of_pages: usize, align: usize) -> (result:
    Result<usize, MemoryError>)
    requires
        old(allocator).wf(),
        number_of_pages * 0x1000 <= usize::MAX,
        old(allocator).can_allocate(number_of_pages * 0x1000, align as nat, dma_limit()),
    ensures
        final(allocator).wf(),
        match old(allocator)@.allocated(number_of_pages * 0x1000, align as nat, dma_limit()) {
            Ok((address, memory)) => {
                &&& result matches Ok(found) && found == address
                &&& final(allocator)@ == memory
            },
            Err(error) => {
                &&& result == Err::<usize, MemoryError>(error)
                &&& final(allocator)@ == old(allocator)@
            },
        },
{
    let limit: usize = if DMA_ADDRESS_LIMIT <= usize::MAX as u64 {
        DMA_ADDRESS_LIMIT as usize
    } else {
        usize::MAX
    };
    allocator.allocate_below(number_of_pages * 0x1000, align, limit)
}

/// The first address that the devices do not reach, or the end of the address space.
pub open spec fn dma_limit() -> int {
    if DMA_ADDRESS_LIMIT <= usize::MAX {
        DMA_ADDRESS_LIMIT as int
    } else {
        usize::MAX as int
    }
}

/// Frees whole pages. A request that the allocator refuses has no effect.
pub fn free_pages(allocator: &mut MemoryAllocator, address: usize, number_of_pages: usize)
    requires
        old(allocator).wf(),
        number_of_pages * 0x1000 <= usize::MAX,
        old(allocator).can_free(address as int, number_of_pages * 0x1000),
    ensures
        final(allocator).wf(),
        final(allocator)@ == match old(allocator)@.freed(address as int, number_of_pages * 0x1000) {
            Ok(memory) => memory,
            Err(_) => old(allocator)@,
        },
{
    let _ = allocator.free(address, number_of_pages * 0x1000);
}

/// What is excluded from the free memory is in use afterwards: the first byte in any case, and all
/// of it where it was free as a whole. Nothing becomes free.
pub proof fn excluded_memory_is_in_use(memory: FreeMemory, start: int, size: int, error: SetupError)
    requires
        memory.valid(),
        0 < size,
        without(memory, start, size, error) is Ok,
    ensures
        ({
            let after = without(memory, start, size, error)->Ok_0;
            &&& after.valid()
            &&& !after.is_free(start)
            &&& forall|a: int| #[trigger] after.is_free(a) ==> memory.is_free(a)
            &&& memory.covers((Range { start, end: start + size - 1 })) ==> forall|a: int|
                start <= a < start + size ==> !#[trigger] after.is_free(a)
        }),
{
    crate::allocator_laws::reservation_takes_what_is_free(memory, start, size);
    let range = Range { start, end: start + size - 1 };
    if memory.covers(range) {
        let end = memory.end_of_request(start, size);
        let k = choose|k: int|
            0 <= k < memory.by_address.len() && (#[trigger] memory.by_address[k]).start
                <= range.start && range.end <= memory.by_address[k].end;
        if end < range.end {
            assert(memory.by_address[k].contains(end + 1));
            assert(memory.is_free(end + 1));
        }
    }
}

/// Excluding the segments makes nothing free.
proof fn lemma_segments_only_take(memory: FreeMemory, segments: Seq<(usize, usize)>)
    requires
        memory.valid(),
        without_segments(memory, segments) is Ok,
    ensures
        ({
            let after = without_segments(memory, segments)->Ok_0;
            &&& after.valid()
            &&& forall|a: int| #[trigger] after.is_free(a) ==> memory.is_free(a)
        }),
    decreases segments.len(),
{
    if segments.len() > 0 {
        let (start, size) = segments[0];
        excluded_memory_is_in_use(memory, start as int, size as int, SetupError::Segment);
        lemma_segments_only_take(
            without(memory, start as int, size as int, SetupError::Segment)->Ok_0,
            segments.skip(1),
        );
    }
}

/// Once the machine is set up, what is free is RAM, and neither the beginning of the DTB nor that
/// of the stack. All of the stack is in use where it was still free before it was excluded.
pub proof fn set_up_memory_is_ram(
    memory: FreeMemory,
    banks: Seq<(u64, u64)>,
    dtb_address: int,
    dtb_size: int,
    segments: Seq<(usize, usize)>,
    stack_pointer: int,
)
    requires
        memory.valid(),
        with_ram(memory, banks) is Ok,
        with_ram(memory, banks)->Ok_0.valid(),
        memory_set_up(memory, banks, dtb_address, dtb_size, segments, stack_pointer) is Ok,
        dtb_size >= 0,
    ensures
        ({
            let ram = with_ram(memory, banks)->Ok_0;
            let no_dtb = without(ram, dtb_address, dtb_size, SetupError::Dtb)->Ok_0;
            let no_segments = without_segments(no_dtb, segments)->Ok_0;
            let after = memory_set_up(
                memory,
                banks,
                dtb_address,
                dtb_size,
                segments,
                stack_pointer,
            )->Ok_0;
            let stack = stack_start(stack_pointer);
            &&& after.valid()
            &&& forall|a: int| #[trigger] after.is_free(a) ==> ram.is_free(a)
            &&& !after.is_free(dtb_address)
            &&& !after.is_free(stack)
            &&& no_segments.covers((Range { start: stack, end: stack + STACK_SIZE - 1 })) ==> forall|
                a: int,
            |
                stack <= a < stack + STACK_SIZE ==> !#[trigger] after.is_free(a)
        }),
{
    let ram = with_ram(memory, banks)->Ok_0;
    excluded_memory_is_in_use(ram, dtb_address, dtb_size, SetupError::Dtb);
    let no_dtb = without(ram, dtb_address, dtb_size, SetupError::Dtb)->Ok_0;
    lemma_segments_only_take(no_dtb, segments);
    let no_segments = without_segments(no_dtb, segments)->Ok_0;
    excluded_memory_is_in_use(
        no_segments,
        stack_start(stack_pointer),
        STACK_SIZE as int,
        SetupError::Stack,
    );
}

/// The RAM that is made free can be reached by the devices.
pub proof fn ram_is_within_reach(memory: FreeMemory, banks: Seq<(u64, u64)>)
    requires
        memory.valid(),
        crate::allocator_laws::is_below(memory, DMA_ADDRESS_LIMIT as int),
        with_ram(memory, banks) is Ok,
    ensures
        with_ram(memory, banks)->Ok_0.valid(),
        crate::allocator_laws::is_below(with_ram(memory, banks)->Ok_0, DMA_ADDRESS_LIMIT as int),
    decreases banks.len(),
{
    if banks.len() > 0 {
        let (start, size) = banks[0];
        if size == 0 || start >= DMA_ADDRESS_LIMIT {
            ram_is_within_reach(memory, banks.skip(1));
        } else {
            let usable = usable_size(start, size);
            let range = Range { start: start as int, end: start + usable - 1 };
            let after = memory.freed(start as int, usable)->Ok_0;
            crate::free_memory::lemma_total_bounds(memory);
            let added = if memory.by_address.len() == 0 {
                range
            } else {
                memory.free_effect(range)->Added_0
            };
            if memory.by_address.len() > 0 {
                crate::free_memory::lemma_added_is_disjoint(memory, range);
                crate::free_memory::lemma_index_from(memory.by_address, range.start, 0);
            }
            crate::free_memory::lemma_joined_addresses(memory, added);
            assert forall|i: int| 0 <= i < after.by_address.len() implies (
            #[trigger] after.by_address[i]).end < DMA_ADDRESS_LIMIT as int by {
                let a = after.by_address[i].end;
                assert(after.by_address[i].contains(a));
                assert(after.is_free(a));
                if memory.is_free(a) {
                    let j = memory.index_of_address(a);
                    assert(memory.by_address[j].contains(a));
                }
            }
            ram_is_within_reach(after, banks.skip(1));
        }
    }
}

/// Where nothing but reachable memory is free, a request for whole pages can be tried.
pub proof fn reachable_pages_can_be_tried(allocator: MemoryAllocator, size: int, address_limit: int)
    requires
        allocator.wf(),
        crate::allocator_laws::is_below(allocator@, DMA_ADDRESS_LIMIT as int),
        usize::MAX > DMA_ADDRESS_LIMIT + 0x1000,
    ensures
        allocator.can_allocate(size, 12, address_limit),
        allocator.can_allocate(size, 0, address_limit),
{
    crate::allocator_laws::page_allocations_can_be_tried(allocator, size, address_limit);
}

} // verus!
