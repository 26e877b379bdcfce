//! Memory that a driver shares with a device.

use crate::free_memory::FreeMemory;
use crate::memory_allocator::MemoryAllocator;
use vstd::prelude::*;

verus! {

/// One access of a driver to a register or to memory that it shares with a device. The accesses of
/// a sequence are made in its order.
#[derive(Clone, Copy, PartialEq, Eq, Debug, Structural)]
pub enum IoOp {
    /// The 32 bits at `address` become `value`.
    Write { address: u64, value: u32 },
    /// The 16 bits at `address` become `value`.
    Write16 { address: u64, value: u16 },
    /// The bits of `clear` in the 32 bits at `address` go to zero, then those of `set` to one.
    Modify { address: u64, clear: u32, set: u32 },
    /// The bits of `clear` in the 16 bits at `address` go to zero, then those of `set` to one.
    Modify16 { address: u64, clear: u16, set: u16 },
    /// The `size` bytes at `address` become zero.
    Zero { address: u64, size: u64 },
    /// The `size` bytes at `to` become those at `from`.
    Copy { from: u64, to: u64, size: u64 },
    /// What the CPU holds in its cache of the `size` bytes at `address` goes to memory.
    Clean { address: u64, size: u64 },
    /// What the CPU holds in its cache of the `size` bytes at `address` is dropped.
    Invalidate { address: u64, size: u64 },
    /// Everything before takes effect before anything after.
    Barrier,
}

/// The two halves of a 64-bit value, the lower one first.
pub open spec fn write64_ops(address: int, value: u64) -> Seq<IoOp> {
    seq![
        IoOp::Write { address: address as u64, value: (value % 0x1_0000_0000) as u32 },
        IoOp::Write { address: (address + 4) as u64, value: (value / 0x1_0000_0000) as u32 },
    ]
}

/// Appends the two writes of a 64-bit value.
pub fn write64(ops: &mut Vec<IoOp>, address: u64, value: u64)
    requires
        address + 4 <= u64::MAX,
    ensures
        final(ops)@ == old(ops)@ + write64_ops(address as int, value),
{
    ops.push(IoOp::Write { address, value: (value % 0x1_0000_0000) as u32 });
    ops.push(IoOp::Write { address: address + 4, value: (value / 0x1_0000_0000) as u32 });
    assert(ops@ =~= old(ops)@ + write64_ops(address as int, value));
}

/// Pages that a device reads and writes.
#[derive(Clone, Copy, PartialEq, Eq, Debug, Structural)]
pub struct DmaRegion {
    pub address: u64,
    pub size: u64,
    pub pages: u64,
}

/// How many pages hold `size` bytes; one at least.
pub open spec fn pages_for(size: int) -> int {
    if size == 0 {
        1
    } else {
        (size + 4095) / 4096
    }
}

/// Where pages for a device go, and the free memory without them.
#[verifier::opaque]
pub open spec fn dma_allocated(memory: FreeMemory, pages: int, align_order: nat) -> Option<
    (int, FreeMemory),
> {
    let limit = crate::memory::dma_limit();
    if pages * 4096 > usize::MAX || !crate::memory::can_be_allocated(
        memory,
        pages * 4096,
        align_order,
        limit,
    ) {
        None
    } else {
        match memory.allocated(pages * 4096, align_order, limit) {
            Ok((address, after)) => Some((address, after)),
            Err(_) => None,
        }
    }
}

impl DmaRegion {
    /// The bytes of the pages.
    pub open spec fn bytes(self) -> int {
        self.pages * 4096
    }

    /// The region, shifted to the device's addresses, is inside the address space.
    pub open spec fn fits(self, dma_offset: u64) -> bool {
        self.address + self.bytes() + dma_offset <= u64::MAX
    }

    /// The whole region goes to memory.
    pub open spec fn clean_op(self) -> IoOp {
        IoOp::Clean { address: self.address, size: self.bytes() as u64 }
    }

    pub open spec fn invalidate_op(self) -> IoOp {
        IoOp::Invalidate { address: self.address, size: self.bytes() as u64 }
    }

    /// What prepares the region for the device: it is zero, in memory too.
    pub open spec fn prepare_ops(self) -> Seq<IoOp> {
        seq![IoOp::Zero { address: self.address, size: self.bytes() as u64 }, self.clean_op()]
    }

    /// Allocates a region of `size` bytes, aligned to `2^align_order`, and appends what prepares
    /// it to `ops`.
    pub fn new(
        allocator: &mut MemoryAllocator,
        size: u64,
        align_order: usize,
        ops: &mut Vec<IoOp>,
    ) -> (result: Result<Self, ()>)
        requires
            old(allocator).wf(),
        ensures
            final(allocator).wf(),
            match dma_allocated(old(allocator)@, pages_for(size as int), align_order as nat) {
                Some((address, memory)) => {
                    &&& result matches Ok(region) && region.address == address && region.size
                        == size && region.pages == pages_for(size as int)
                    &&& final(allocator)@ == memory
                    &&& final(ops)@ == old(ops)@ + (result->Ok_0).prepare_ops()
                },
                None => {
                    &&& result is Err
                    &&& final(allocator)@ == old(allocator)@
                    &&& final(ops)@ == old(ops)@
                },
            },
            result is Ok ==> (result->Ok_0).bytes() <= usize::MAX,
    {
        proof {
            reveal(dma_allocated);
        }
        let pages: u64 = if size == 0 {
            1
        } else {
            (size - 1) / 4096 + 1
        };
        assert(pages == pages_for(size as int));
        if pages > (usize::MAX / 4096) as u64 {
            return Err(());
        }
        let bytes: usize = pages as usize * 4096;
        let limit: usize = if crate::memory::DMA_ADDRESS_LIMIT <= usize::MAX as u64 {
            crate::memory::DMA_ADDRESS_LIMIT as usize
        } else {
            usize::MAX
        };
        if !allocator.accepts_allocate(bytes, align_order, limit) {
            return Err(());
        }
        match crate::memory::allocate_dma_pages(allocator, pages as usize, align_order) {
            Ok(address) => {
                let region = DmaRegion { address: address as u64, size, pages };
                ops.push(IoOp::Zero { address: region.address, size: bytes as u64 });
                ops.push(IoOp::Clean { address: region.address, size: bytes as u64 });
                assert(ops@ =~= old(ops)@ + region.prepare_ops());
                Ok(region)
            },
            Err(_) => Err(()),
        }
    }

    pub fn clean(&self) -> (op: IoOp)
        requires
            self.bytes() <= u64::MAX,
        ensures
            op == self.clean_op(),
    {
        IoOp::Clean { address: self.address, size: self.pages * 4096 }
    }

    pub fn invalidate(&self) -> (op: IoOp)
        requires
            self.bytes() <= u64::MAX,
        ensures
            op == self.invalidate_op(),
    {
        IoOp::Invalidate { address: self.address, size: self.pages * 4096 }
    }

    /// Where the device has the region.
    pub open spec fn bus_address(self, dma_offset: u64) -> u64 {
        (self.address + dma_offset) as u64
    }

    pub fn to_bus(&self, dma_offset: u64) -> (address: u64)
        requires
            self.address + dma_offset <= u64::MAX,
        ensures
            address == self.bus_address(dma_offset),
    {
        self.address + dma_offset
    }
}

/// The regions of the given sizes, allocated one by one on page boundaries as long as there is
/// memory, and the free memory without them.
pub open spec fn regions_allocated(memory: FreeMemory, sizes: Seq<u64>) -> (
    Seq<DmaRegion>,
    FreeMemory,
)
    decreases sizes.len(),
{
    if sizes.len() == 0 {
        (Seq::empty(), memory)
    } else {
        let (regions, after) = regions_allocated(memory, sizes.drop_last());
        let pages = pages_for(sizes.last() as int);
        if regions.len() < sizes.len() - 1 {
            (regions, after)
        } else {
            match dma_allocated(after, pages, 12) {
                Some((address, rest)) => (
                    regions.push(
                        DmaRegion { address: address as u64, size: sizes.last(), pages: pages as u64 },
                    ),
                    rest,
                ),
                None => (regions, after),
            }
        }
    }
}

/// The accesses that prepare all of the regions.
pub open spec fn prepare_all(regions: Seq<DmaRegion>) -> Seq<IoOp>
    decreases regions.len(),
{
    if regions.len() == 0 {
        Seq::empty()
    } else {
        prepare_all(regions.drop_last()) + regions.last().prepare_ops()
    }
}

/// Pages for a device are where it reaches them.
pub proof fn lemma_region_fits(memory: FreeMemory, pages: int, align_order: nat)
    requires
        memory.valid(),
        pages >= 0,
        dma_allocated(memory, pages, align_order) is Some,
    ensures
        ({
            let (address, after) = dma_allocated(memory, pages, align_order)->0;
            &&& after.valid()
            &&& 0 <= address
            &&& address + pages * 4096 <= 0x1_0000_0000
        }),
{
    reveal(dma_allocated);
    crate::allocator_laws::allocation_takes_its_block(
        memory,
        pages * 4096,
        align_order,
        crate::memory::dma_limit(),
    );
}

/// Allocates regions of the given sizes, as long as there is memory.
pub fn allocate_regions(allocator: &mut MemoryAllocator, sizes: &[u64], ops: &mut Vec<IoOp>) -> (regions:
    Vec<DmaRegion>)
    requires
        old(allocator).wf(),
    ensures
        final(allocator).wf(),
        regions@ == regions_allocated(old(allocator)@, sizes@).0,
        final(allocator)@ == regions_allocated(old(allocator)@, sizes@).1,
        final(ops)@ == old(ops)@ + prepare_all(regions@),
        regions@.len() <= sizes@.len(),
        forall|i: int|
            0 <= i < regions@.len() ==> {
                &&& (#[trigger] regions@[i]).address + regions@[i].bytes() <= 0x1_0000_0000
                &&& regions@[i].size == sizes@[i]
                &&& regions@[i].pages == pages_for(sizes@[i] as int)
            },
{
    let ghost memory = allocator@;
    let ghost first = ops@;
    let mut regions: Vec<DmaRegion> = Vec::new();
    let mut i: usize = 0;
    proof {
        crate::allocator_laws::allocator_is_consistent(*allocator);
        assert(first + prepare_all(Seq::empty()) =~= first);
        assert(sizes@.take(0) =~= Seq::empty());
    }
    while i < sizes.len()
        invariant
            allocator.wf(),
            allocator@.valid(),
            i <= sizes@.len(),
            regions@.len() == i,
            regions@ == regions_allocated(memory, sizes@.take(i as int)).0,
            allocator@ == regions_allocated(memory, sizes@.take(i as int)).1,
            ops@ == first + prepare_all(regions@),
            forall|k: int|
                0 <= k < i ==> {
                    &&& (#[trigger] regions@[k]).address + regions@[k].bytes() <= 0x1_0000_0000
                    &&& regions@[k].size == sizes@[k]
                    &&& regions@[k].pages == pages_for(sizes@[k] as int)
                },
            memory == old(allocator)@,
            first == old(ops)@,
        decreases sizes@.len() - i,
    {
        let ghost before = allocator@;
        let ghost taken = regions@;
        let size: u64 = sizes[i];
        proof {
            assert(sizes@.take(i + 1).drop_last() =~= sizes@.take(i as int));
            assert(sizes@.take(i + 1).last() == size);
        }
        match DmaRegion::new(allocator, size, 12, ops) {
            Ok(region) => {
                proof {
                    lemma_region_fits(before, pages_for(size as int), 12);
                }
                regions.push(region);
                proof {
                    assert(regions@.drop_last() =~= taken);
                    assert(ops@ =~= first + prepare_all(regions@));
                }
                i = i + 1;
            },
            Err(_) => {
                proof {
                    lemma_allocation_stops(memory, sizes@, i as int);
                }
                return regions;
            },
        }
    }
    assert(sizes@.take(i as int) =~= sizes@);
    regions
}

/// Once there is no memory for a region, nothing more is allocated.
proof fn lemma_allocation_stops(memory: FreeMemory, sizes: Seq<u64>, i: int)
    requires
        0 <= i < sizes.len(),
        regions_allocated(memory, sizes.take(i)).0.len() == i,
        regions_allocated(memory, sizes.take(i + 1)).0.len() == i,
    ensures
        regions_allocated(memory, sizes) == regions_allocated(memory, sizes.take(i)),
    decreases sizes.len(),
{
    if i + 1 == sizes.len() {
        assert(sizes.take(i + 1) =~= sizes);
        assert(sizes.drop_last() =~= sizes.take(i));
    } else {
        assert(sizes.drop_last().take(i) =~= sizes.take(i));
        assert(sizes.drop_last().take(i + 1) =~= sizes.take(i + 1));
        lemma_allocation_stops(memory, sizes.drop_last(), i);
    }
}

} // verus!
