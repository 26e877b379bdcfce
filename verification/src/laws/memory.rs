//! The memory of the machine: what is given out, taken back and kept.

use crate::free_memory::{FreeMemory, Range};
use crate::memory::{
    allocate_dma_pages, allocate_pages, free_pages, setup_memory, try_allocate_pages, SetupError,
};
use crate::memory_allocator::{MemoryAllocator, MemoryError};
use crate::smp::{finish_parking, park_secondary_cpus_for_smp, CpuNode, SmpCpus, StartPlan};
use crate::psci::PsciErrorCodes;
use vstd::prelude::*;

verus! {

/// From `before` to `after` exactly the `size` bytes at `address` are given out, all of which were free.
pub open spec fn gives_out(before: FreeMemory, after: FreeMemory, address: int, size: int) -> bool {
    &&& forall|a: int| address <= a < address + size ==> #[trigger] before.is_free(a)
    &&& forall|a: int|
        #[trigger] after.is_free(a) <==> before.is_free(a) && !(address <= a < address + size)
}

/// A block that is given out is aligned, below the limit and was free. Only it is no longer free.
pub proof fn block_is_given_out(
    allocator: &mut MemoryAllocator,
    size: usize,
    align_order: usize,
    limit: usize,
    result: Result<usize, MemoryError>,
)
    requires
        old(allocator).wf(),
        old(allocator).can_allocate(size as int, align_order as nat, limit as int),
        call_ensures(MemoryAllocator::allocate_below, (allocator, size, align_order, limit), result),
    ensures
        size == 0 ==> result is Err,
        result is Err ==> final(allocator)@ == old(allocator)@,
        result matches Ok(address) ==> {
            &&& address as int % vstd::arithmetic::power2::pow2(align_order as nat) as int == 0
            &&& address + size <= limit
            &&& gives_out(old(allocator)@, final(allocator)@, address as int, size as int)
        },
{
    crate::allocator_laws::allocator_is_consistent(*old(allocator));
    if result is Ok {
        crate::allocator_laws::allocation_takes_its_block(
            old(allocator)@,
            size as int,
            align_order as nat,
            limit as int,
        );
    }
}

/// Where a free range holds an aligned block below the limit, a block is given out: only a full table of ranges is in
/// the way.
pub proof fn block_is_given_out_where_there_is_room(
    allocator: &mut MemoryAllocator,
    size: usize,
    align_order: usize,
    limit: usize,
    result: Result<usize, MemoryError>,
    range: Range,
    address: int,
)
    requires
        old(allocator).wf(),
        old(allocator).can_allocate(size as int, align_order as nat, limit as int),
        call_ensures(MemoryAllocator::allocate_below, (allocator, size, align_order, limit), result),
        size > 0,
        old(allocator)@.by_address.len() < 64,
        old(allocator)@.by_address.contains(range),
        range.start <= address,
        address + size - 1 <= range.end,
        address + size <= limit,
        address % (vstd::arithmetic::power2::pow2(align_order as nat) as int) == 0,
    ensures
        result is Ok,
{
    let memory = old(allocator)@;
    let order = align_order as nat;
    let n = size as int;
    let p = vstd::arithmetic::power2::pow2(order) as int;
    crate::allocator_laws::allocator_is_consistent(*old(allocator));
    crate::free_memory::lemma_total_bounds(memory);
    let i = memory.by_address.index_of(range);
    assert(memory.by_address[i] == range);
    crate::bits::lemma_align_up(range.start, order);
    let up = crate::bits::align_up(range.start, order);
    lemma_least_multiple(up, address, range.start, p);
    assert(range.placement(n, order, limit as int) is Some);
    assert(memory.by_size.contains(range));
    let k = memory.by_size.index_of(range);
    assert(memory.by_size[k] == range);
    crate::free_memory::lemma_fit_from(memory.by_size, n, order, limit as int, 0);
    let f = crate::free_memory::fit_from(memory.by_size, n, order, limit as int, 0);
    assert(f < memory.by_size.len());
    let chosen = memory.by_size[f];
    assert(memory.by_address.contains(chosen));
    let c = memory.by_address.index_of(chosen);
    assert(memory.by_address[c] == chosen);
    crate::bits::lemma_align_up(chosen.start, order);
    crate::memory_allocator::lemma_index_of_address(
        memory,
        c,
        crate::bits::align_up(chosen.start, order),
    );
}

proof fn lemma_least_multiple(up: int, address: int, start: int, p: int)
    requires
        p >= 1,
        up % p == 0,
        address % p == 0,
        up < start + p,
        start <= address,
    ensures
        up <= address,
{
    vstd::arithmetic::div_mod::lemma_fundamental_div_mod(up, p);
    vstd::arithmetic::div_mod::lemma_fundamental_div_mod(address, p);
    let k = up / p;
    let m = address / p;
    if up > address {
        assert(k > m) by (nonlinear_arith)
            requires
                p * k > p * m,
                p >= 1,
        ;
        assert(p * k >= p * m + p) by (nonlinear_arith)
            requires
                k >= m + 1,
                p >= 1,
        ;
    }
}

/// Memory that was in use is free once it is given back, and nothing else becomes free.
pub proof fn block_is_taken_back(
    allocator: &mut MemoryAllocator,
    start: usize,
    size: usize,
    result: Result<(), MemoryError>,
)
    requires
        old(allocator).wf(),
        old(allocator).can_free(start as int, size as int),
        size > 0,
        start + size <= usize::MAX,
        old(allocator)@.is_disjoint((Range { start: start as int, end: start + size - 1 })),
        call_ensures(MemoryAllocator::free, (allocator, start, size), result),
    ensures
        old(allocator)@.by_address.len() < 64 ==> result is Ok,
        result is Err ==> final(allocator)@ == old(allocator)@,
        result is Ok ==> forall|a: int|
            #[trigger] final(allocator)@.is_free(a) <==> old(allocator)@.is_free(a) || start <= a
                < start + size,
{
    crate::allocator_laws::allocator_is_consistent(*old(allocator));
    crate::allocator_laws::free_adds_its_range(old(allocator)@, start as int, size as int);
}

/// What is reserved is in use from its first byte on, as far as it was free without a gap, and nothing else.
pub proof fn reserved_memory_is_in_use(
    allocator: &mut MemoryAllocator,
    start: usize,
    size: usize,
    result: Result<(), MemoryError>,
    address: int,
)
    requires
        old(allocator).wf(),
        old(allocator).can_reserve(start as int, size as int, 0),
        size > 0,
        call_ensures(MemoryAllocator::reserve_memory, (allocator, start, size, 0usize), result),
    ensures
        result is Ok ==> {
            &&& old(allocator)@.is_free(start as int)
            &&& !final(allocator)@.is_free(start as int)
            &&& !(start <= address < start + size) ==> final(allocator)@.is_free(address) == old(allocator)@.is_free(address)
            &&& start <= address < start + size && (forall|a: int|
                start <= a <= address ==> #[trigger] old(allocator)@.is_free(a)) ==> !final(allocator)@.is_free(address)
        },
        result is Err ==> final(allocator)@ == old(allocator)@,
{
    crate::allocator_laws::allocator_is_consistent(*old(allocator));
    if result is Ok {
        let memory = old(allocator)@;
        crate::allocator_laws::reservation_takes_what_is_free(memory, start as int, size as int);
        let end = memory.end_of_request(start as int, size as int);
        assert(memory.is_free(start as int));
        if start <= address < start + size && (forall|a: int|
            start <= a <= address ==> #[trigger] memory.is_free(a)) && address > end {
            assert(memory.is_free(end + 1));
        }
    }
}

/// Pages are given out whole, 4 KiB each, and for devices below 4 GiB.
pub proof fn pages_are_given_out(
    allocator: &mut MemoryAllocator,
    pages: usize,
    align: usize,
    result: Result<usize, MemoryError>,
    for_devices: bool,
)
    requires
        old(allocator).wf(),
        pages * 0x1000 <= usize::MAX,
        old(allocator).can_allocate(
            pages * 0x1000,
            align as nat,
            if for_devices && 0x1_0000_0000 <= usize::MAX {
                0x1_0000_0000int
            } else {
                usize::MAX as int
            },
        ),
        for_devices ==> call_ensures(allocate_dma_pages, (allocator, pages, align), result),
        !for_devices ==> call_ensures(allocate_pages, (allocator, pages, align), result),
    ensures
        result is Err ==> final(allocator)@ == old(allocator)@,
        result matches Ok(address) ==> {
            &&& address as int % vstd::arithmetic::power2::pow2(align as nat) as int == 0
            &&& for_devices ==> address + pages * 4096 <= 0x1_0000_0000
            &&& gives_out(old(allocator)@, final(allocator)@, address as int, pages * 4096)
        },
{
    crate::allocator_laws::allocator_is_consistent(*old(allocator));
    if result is Ok {
        crate::allocator_laws::allocation_takes_its_block(
            old(allocator)@,
            pages * 0x1000,
            align as nat,
            if for_devices {
                crate::memory::dma_limit()
            } else {
                usize::MAX as int
            },
        );
    }
}

/// Pages that are tried for are given out, or nothing changes.
pub proof fn pages_are_tried_for(
    allocator: &mut MemoryAllocator,
    pages: usize,
    align: usize,
    result: Option<usize>,
)
    requires
        old(allocator).wf(),
        call_ensures(try_allocate_pages, (allocator, pages, align), result),
    ensures
        result is None ==> final(allocator)@ == old(allocator)@,
        result matches Some(address) ==> {
            &&& address as int % vstd::arithmetic::power2::pow2(align as nat) as int == 0
            &&& gives_out(old(allocator)@, final(allocator)@, address as int, pages * 4096)
        },
{
    crate::allocator_laws::allocator_is_consistent(*old(allocator));
    if result is Some {
        reveal(crate::memory::pages_taken);
        crate::allocator_laws::allocation_takes_its_block(
            old(allocator)@,
            pages * 4096,
            align as nat,
            usize::MAX as int,
        );
    }
}

/// Pages that are given back are free.
pub proof fn pages_are_taken_back(allocator: &mut MemoryAllocator, address: usize, pages: usize)
    requires
        old(allocator).wf(),
        0 < pages,
        pages * 0x1000 <= usize::MAX,
        address + pages * 0x1000 <= usize::MAX,
        old(allocator).can_free(address as int, pages * 0x1000),
        old(allocator)@.by_address.len() < 64,
        old(allocator)@.is_disjoint(
            (Range { start: address as int, end: address + pages * 0x1000 - 1 }),
        ),
        call_ensures(free_pages, (allocator, address, pages), ()),
    ensures
        gives_out(final(allocator)@, old(allocator)@, address as int, pages * 4096),
{
    crate::allocator_laws::allocator_is_consistent(*old(allocator));
    crate::allocator_laws::free_adds_its_range(old(allocator)@, address as int, pages * 0x1000);
    let range = Range { start: address as int, end: address + pages * 0x1000 - 1 };
    assert forall|a: int| #[trigger] old(allocator)@.is_free(a) implies !(range.start <= a
        <= range.end) by {
        let i = old(allocator)@.index_of_address(a);
        assert(old(allocator)@.by_address[i].contains(a));
    }
}

/// The address is in one of the banks, below 4 GiB.
pub open spec fn is_in_a_bank(banks: Seq<(u64, u64)>, address: int) -> bool {
    exists|i: int|
        0 <= i < banks.len() && (#[trigger] banks[i]).0 <= address < banks[i].0 + banks[i].1
            && address < 0x1_0000_0000
}

proof fn lemma_only_banks(memory: FreeMemory, banks: Seq<(u64, u64)>, address: int)
    requires
        memory.valid(),
        crate::memory::with_ram(memory, banks) is Ok,
        crate::memory::with_ram(memory, banks)->Ok_0.is_free(address),
        crate::allocator_laws::is_below(memory, 0x1_0000_0000),
    ensures
        memory.is_free(address) || is_in_a_bank(banks, address),
    decreases banks.len(),
{
    if banks.len() > 0 {
        let (start, size) = banks[0];
        let rest = banks.skip(1);
        let next = if size == 0 || start >= 0x1_0000_0000 {
            memory
        } else {
            let usable = crate::memory::usable_size(start, size);
            let after = memory.freed(start as int, usable)->Ok_0;
            lemma_freed_only(memory, start as int, usable, address);
            assert(banks.take(1)[0] == banks[0]);
            crate::memory::ram_is_within_reach(memory, banks.take(1));
            assert(banks.take(1).skip(1) =~= Seq::empty());
            assert(crate::memory::with_ram(after, banks.take(1).skip(1)) == Ok::<
                FreeMemory,
                SetupError,
            >(after));
            assert(crate::memory::with_ram(memory, banks.take(1)) == Ok::<FreeMemory, SetupError>(
                after,
            ));
            after
        };
        lemma_only_banks(next, rest, address);
        if next.is_free(address) && !memory.is_free(address) {
            assert(banks[0].0 <= address < banks[0].0 + banks[0].1);
        }
        if is_in_a_bank(rest, address) {
            let i = choose|i: int|
                0 <= i < rest.len() && (#[trigger] rest[i]).0 <= address < rest[i].0 + rest[i].1
                    && address < 0x1_0000_0000;
            assert(banks[i + 1] == rest[i]);
        }
    }
}

/// What freeing makes free is in the request.
proof fn lemma_freed_only(memory: FreeMemory, start: int, size: int, address: int)
    requires
        memory.valid(),
        0 <= start,
        0 < size,
        start + size <= usize::MAX,
        memory.freed(start, size) is Ok,
    ensures
        memory.freed(start, size)->Ok_0.is_free(address) ==> memory.is_free(address) || start
            <= address < start + size,
{
    let range = Range { start, end: start + size - 1 };
    crate::free_memory::lemma_total_bounds(memory);
    let added = if memory.by_address.len() == 0 {
        range
    } else {
        memory.free_effect(range)->Added_0
    };
    if memory.by_address.len() > 0 {
        crate::free_memory::lemma_added_is_disjoint(memory, range);
        crate::free_memory::lemma_index_from(memory.by_address, range.start, 0);
    }
    crate::free_memory::lemma_joined_addresses(memory, added);
}

/// Once the machine is set up, what is free is in a bank of its RAM below 4 GiB. The first bytes of the devicetree and
/// of the stack are in use: the stack ends at the first page boundary from the stack pointer on, and is 64 KiB long.
pub proof fn free_memory_is_ram(
    allocator: &mut MemoryAllocator,
    banks: &[(u64, u64)],
    dtb_address: usize,
    dtb_size: usize,
    segments: &[(usize, usize)],
    stack_pointer: usize,
    address: int,
)
    requires
        old(allocator).wf(),
        old(allocator)@.by_address.len() == 0,
        call_ensures(
            setup_memory,
            (allocator, banks, dtb_address, dtb_size, segments, stack_pointer),
            Ok(()),
        ),
    ensures
        final(allocator)@.is_free(address) ==> {
            &&& is_in_a_bank(banks@, address)
            &&& address != dtb_address
            &&& address != (stack_pointer + 4095) as int / 4096 * 4096 - 0x1_0000
        },
{
    let memory = old(allocator)@;
    crate::allocator_laws::allocator_is_consistent(*old(allocator));
    let ram = crate::memory::with_ram(memory, banks@)->Ok_0;
    crate::memory::ram_is_within_reach(memory, banks@);
    let no_dtb = crate::memory::without(
        ram,
        dtb_address as int,
        dtb_size as int,
        SetupError::Dtb,
    )->Ok_0;
    crate::memory::set_up_memory_is_ram(
        memory,
        banks@,
        dtb_address as int,
        dtb_size as int,
        segments@,
        stack_pointer as int,
    );
    vstd::arithmetic::power2::lemma2_to64();
    crate::bits::lemma_align_up(stack_pointer as int, 12);
    assert(crate::bits::align_up(stack_pointer as int, 12) == (stack_pointer + 4095) as int / 4096
        * 4096);
    if final(allocator)@.is_free(address) {
        assert(ram.is_free(address));
        lemma_only_banks(memory, banks@, address);
    }
}

/// A CPU that is parked gets a stack of 64 KiB, whose top it is given. A CPU that is not started leaves the memory as it
/// was.
pub proof fn parked_cpu_gets_a_stack(
    allocator: &mut MemoryAllocator,
    current: u64,
    cpu: &CpuNode,
    has_psci: bool,
    plan: StartPlan,
    top: u64,
)
    requires
        old(allocator).wf(),
        call_ensures(
            park_secondary_cpus_for_smp,
            (allocator, current, cpu, has_psci),
            Ok((plan, top)),
        ),
    ensures
        plan is Skip || plan is NoReleaseAddress || plan is NoPsci ==> top == 0 && final(allocator)@.by_address == old(allocator)@.by_address,
        !(plan is Skip || plan is NoReleaseAddress || plan is NoPsci) ==> gives_out(
            old(allocator)@,
            final(allocator)@,
            top - 0x1_0000,
            0x1_0000,
        ),
{
    crate::allocator_laws::allocator_is_consistent(*old(allocator));
    if !(plan is Skip || plan is NoReleaseAddress || plan is NoPsci) {
        reveal(crate::memory::pages_taken);
        crate::memory::lemma_pages_taken(old(allocator)@, 16, 0);
        crate::allocator_laws::allocation_takes_its_block(
            old(allocator)@,
            0x1_0000,
            0,
            usize::MAX as int,
        );
    }
}

/// The stack of a CPU that was started is remembered for it. That of one that was not is free again.
pub proof fn stack_is_remembered_or_free(
    cpus: &mut SmpCpus,
    allocator: &mut MemoryAllocator,
    affinity: u64,
    stack_top: usize,
    started: Result<(), PsciErrorCodes>,
    lookup: Option<u64>,
)
    requires
        old(allocator).wf(),
        stack_top >= 0x1_0000,
        started is Err ==> old(allocator).can_free(stack_top - 0x1_0000, 0x1_0000),
        old(allocator)@.by_address.len() < 64,
        old(allocator)@.is_disjoint((Range { start: stack_top - 0x1_0000, end: stack_top - 1 })),
        old(cpus).stack_tops@.len() == 0,
        call_ensures(finish_parking, (cpus, allocator, affinity, stack_top, started), ()),
        call_ensures(SmpCpus::stack_top, (&*final(cpus), affinity), lookup),
    ensures
        started is Ok ==> lookup == Some(stack_top as u64) && final(allocator)@ == old(allocator)@,
        started is Err ==> lookup is None && gives_out(
            final(allocator)@,
            old(allocator)@,
            stack_top - 0x1_0000,
            0x1_0000,
        ),
{
    reveal_with_fuel(crate::smp::stack_from, 2);
    if started is Err {
        let start = stack_top - 0x1_0000;
        crate::allocator_laws::allocator_is_consistent(*old(allocator));
        crate::allocator_laws::free_adds_its_range(old(allocator)@, start, 0x1_0000);
        assert forall|a: int| #[trigger] old(allocator)@.is_free(a) implies !(start <= a
            < stack_top) by {
            let i = old(allocator)@.index_of_address(a);
            assert(old(allocator)@.by_address[i].contains(a));
        }
    }
}

} // verus!
