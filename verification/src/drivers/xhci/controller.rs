//! The controller itself: its registers, its rings, and how it is brought up.

use crate::dma::{DmaRegion, IoOp};
use crate::drivers::xhci::ring::{
    EventRing, Trb, TrbRing, COMP_SUCCESS, TRB_COMPLETION_EVENT, TRB_TRANSFER_EVENT,
};
use crate::free_memory::FreeMemory;
use crate::memory_allocator::MemoryAllocator;
use vstd::prelude::*;

verus! {

pub const POLL_TIMEOUT_US: u64 = 5_000_000;

pub const RESET_TIMEOUT_US: u64 = 250_000;

pub const HALT_TIMEOUT_US: u64 = 16_000;

/// How often the controller is brought up before it is given up.
pub const MAX_ATTEMPTS: u32 = 4;

pub const USBCMD_RUN: u32 = 0x1;

pub const USBCMD_RESET: u32 = 0x2;

pub const USBSTS_HALT: u32 = 0x1;

pub const USBSTS_HSE: u32 = 0x4;

pub const USBSTS_CNR: u32 = 0x800;

/// What the controller says of itself.
#[derive(Clone, Copy, PartialEq, Eq, Debug, Structural)]
pub struct CapabilityRegisters {
    pub capbase: u32,
    pub hcsparams1: u32,
    pub hcsparams2: u32,
    pub hccparams: u32,
    pub doorbell_offset: u32,
    pub runtime_offset: u32,
    pub page_size_bits: u32,
}

impl CapabilityRegisters {
    /// The exponent of the smallest page size that the controller supports.
    pub open spec fn page_order(self) -> Option<int> {
        Self::order_from(self.page_size_bits, 0)
    }

    pub open spec fn order_from(bits: u32, i: int) -> Option<int>
        decreases 16 - i,
    {
        if i >= 16 {
            None
        } else if crate::bits::bit(bits, i) {
            Some(12 + i)
        } else {
            Self::order_from(bits, i + 1)
        }
    }

    fn find_page_order(&self) -> (order: Option<u32>)
        ensures
            match order {
                Some(order) => self.page_order() == Some(order as int) && 12 <= order < 28,
                None => self.page_order() is None,
            },
    {
        let mut i: u32 = 0;
        while i < 16
            invariant
                i <= 16,
                self.page_order() == Self::order_from(self.page_size_bits, i as int),
            decreases 16 - i,
        {
            if (self.page_size_bits >> i) & 1 == 1 {
                return Some(12 + i);
            }
            i = i + 1;
        }
        None
    }
}

#[derive(Clone, Copy, PartialEq, Eq, Debug, Structural)]
pub enum XhciError {
    /// The controller advertises no supported page size.
    NoPageSize,
    /// There is no memory for what the controller shares with the driver.
    NoMemory,
}

pub struct Xhci {
    pub operational_base: u64,
    pub doorbell_base: u64,
    pub runtime_base: u64,
    pub hcsparams1: u32,
    pub hcsparams2: u32,
    pub hccparams: u32,
    pub hci_version: u16,
    pub page_order: u32,
    /// What is added to an address of the CPU to get that of the controller.
    pub dma_offset: u64,
    pub dcbaa: DmaRegion,
    pub command_ring: TrbRing,
    pub event_ring: EventRing,
    pub erst: DmaRegion,
    pub scratchpad_array: Option<DmaRegion>,
    pub scratchpad_buffers: Option<DmaRegion>,
}

/// The addresses of up to `n` pages that are allocated one by one, as long as there is memory, and
/// the free memory without them.
pub open spec fn pages_allocated(memory: FreeMemory, n: nat) -> (Seq<int>, FreeMemory)
    decreases n,
{
    if n == 0 {
        (Seq::empty(), memory)
    } else {
        let (pages, after) = pages_allocated(memory, (n - 1) as nat);
        if pages.len() < n - 1 {
            (pages, after)
        } else {
            match crate::dma::dma_allocated(after, 1, 12) {
                Some((address, rest)) => (pages.push(address), rest),
                None => (pages, after),
            }
        }
    }
}

/// What the pages of a new controller hold: the Device Context Base Address Array, the command
/// ring, the event ring and the Event Ring Segment Table.
pub open spec fn page_of(pages: Seq<int>, i: int) -> DmaRegion {
    DmaRegion {
        address: pages[i] as u64,
        size: if i == 0 {
            2048
        } else if i == 3 {
            16
        } else {
            1024
        },
        pages: 1,
    }
}

/// The accesses that prepare the first `n` pages.
pub open spec fn creation_ops(pages: Seq<int>, dma_offset: u64, n: nat) -> Seq<IoOp>
    decreases n,
{
    if n == 0 {
        Seq::empty()
    } else {
        let i = n - 1;
        let region = page_of(pages, i);
        let prepared = creation_ops(pages, dma_offset, i as nat) + region.prepare_ops();
        if i == 1 {
            prepared + TrbRing::fresh(region).store_ops(63, TrbRing::link_trb(region, dma_offset))
        } else {
            prepared
        }
    }
}

/// Lower addresses and offsets than these keep everything inside the address space.
pub open spec fn offset_fits(dma_offset: u64) -> bool {
    dma_offset <= u64::MAX - 0x2_0000_0000
}

/// Pages for a device are where it reaches them.
pub proof fn lemma_region_fits(memory: FreeMemory, pages: int, align_order: nat, dma_offset: u64)
    requires
        memory.valid(),
        pages >= 0,
        offset_fits(dma_offset),
        crate::dma::dma_allocated(memory, pages, align_order) is Some,
    ensures
        ({
            let (address, after) = crate::dma::dma_allocated(memory, pages, align_order)->0;
            &&& after.valid()
            &&& 0 <= address
            &&& address + pages * 4096 <= 0x1_0000_0000
            &&& address + pages * 4096 + dma_offset <= u64::MAX
        }),
{
    reveal(crate::dma::dma_allocated);
    crate::allocator_laws::allocation_takes_its_block(
        memory,
        pages * 4096,
        align_order,
        crate::memory::dma_limit(),
    );
}

impl Xhci {
    pub open spec fn wf(&self) -> bool {
        &&& self.operational_base + 0x2000 <= u64::MAX
        &&& self.doorbell_base + 0x1000 <= u64::MAX
        &&& self.runtime_base + 0x1000 <= u64::MAX
        &&& 12 <= self.page_order < 28
        &&& offset_fits(self.dma_offset)
        &&& self.dcbaa.fits(self.dma_offset)
        &&& self.dcbaa.size == 2048
        &&& self.dcbaa.pages == 1
        &&& self.erst.fits(self.dma_offset)
        &&& self.erst.size == 16
        &&& self.erst.pages == 1
        &&& self.command_ring.wf()
        &&& self.command_ring.region.fits(self.dma_offset)
        &&& self.command_ring.region.pages == 1
        &&& self.event_ring.wf()
        &&& self.event_ring.region.fits(self.dma_offset)
        &&& self.event_ring.region.pages == 1
    }

    /// Nothing but the rings and the scratchpads differs.
    pub open spec fn same_controller(&self, other: &Self) -> bool {
        &&& self.operational_base == other.operational_base
        &&& self.doorbell_base == other.doorbell_base
        &&& self.runtime_base == other.runtime_base
        &&& self.hcsparams1 == other.hcsparams1
        &&& self.hcsparams2 == other.hcsparams2
        &&& self.hccparams == other.hccparams
        &&& self.hci_version == other.hci_version
        &&& self.page_order == other.page_order
        &&& self.dma_offset == other.dma_offset
        &&& self.dcbaa == other.dcbaa
        &&& self.erst == other.erst
        &&& self.command_ring.region == other.command_ring.region
        &&& self.event_ring.region == other.event_ring.region
    }

    pub open spec fn same_scratchpads(&self, other: &Self) -> bool {
        &&& self.scratchpad_array == other.scratchpad_array
        &&& self.scratchpad_buffers == other.scratchpad_buffers
    }

    /// Where the operational registers are, given the first register of the controller.
    pub fn operational_base_of(base_address: u64, capbase: u32) -> (base: u64)
        requires
            base_address + 0x100 <= u64::MAX,
        ensures
            base == base_address + capbase % 256,
    {
        base_address + (capbase % 256) as u64
    }

    /// The controller at `base_address`, with what its registers say, and the pages that it shares
    /// with the driver.
    pub open spec fn is_created(
        &self,
        base_address: u64,
        dma_offset: u64,
        registers: CapabilityRegisters,
        pages: Seq<int>,
    ) -> bool {
        &&& self.operational_base == base_address + registers.capbase % 256
        &&& self.doorbell_base == base_address + registers.doorbell_offset
            - registers.doorbell_offset % 4
        &&& self.runtime_base == base_address + registers.runtime_offset - registers.runtime_offset
            % 32
        &&& self.hcsparams1 == registers.hcsparams1
        &&& self.hcsparams2 == registers.hcsparams2
        &&& self.hccparams == registers.hccparams
        &&& self.hci_version == registers.capbase / 0x1_0000
        &&& Some(self.page_order as int) == registers.page_order()
        &&& self.dma_offset == dma_offset
        &&& self.dcbaa == page_of(pages, 0)
        &&& self.command_ring@ == TrbRing::fresh(page_of(pages, 1))
        &&& self.event_ring == (EventRing {
            region: page_of(pages, 2),
            dequeue_index: 0,
            cycle_state: 1,
        })
        &&& self.erst == page_of(pages, 3)
        &&& self.scratchpad_array is None
        &&& self.scratchpad_buffers is None
    }

    /// A controller that is to be brought up.
    pub fn new(
        base_address: u64,
        dma_offset: u64,
        registers: CapabilityRegisters,
        allocator: &mut MemoryAllocator,
        ops: &mut Vec<IoOp>,
    ) -> (result: Result<Self, XhciError>)
        requires
            base_address + 0x1_0000_3000 <= u64::MAX,
            offset_fits(dma_offset),
            old(allocator).wf(),
        ensures
            final(allocator).wf(),
            if registers.page_order() is None {
                &&& result == Err::<Self, XhciError>(XhciError::NoPageSize)
                &&& final(allocator)@ == old(allocator)@
                &&& final(ops)@ == old(ops)@
            } else {
                let (pages, memory) = pages_allocated(old(allocator)@, 4);
                &&& final(allocator)@ == memory
                &&& final(ops)@ == old(ops)@ + creation_ops(pages, dma_offset, pages.len())
                &&& if pages.len() == 4 {
                    &&& result matches Ok(controller) && controller.wf()
                        && controller.is_created(base_address, dma_offset, registers, pages)
                } else {
                    result == Err::<Self, XhciError>(XhciError::NoMemory)
                }
            },
    {
        let page_order: u32 = match registers.find_page_order() {
            Some(order) => order,
            None => {
                return Err(XhciError::NoPageSize);
            },
        };
        let ghost memory = allocator@;
        let ghost first = ops@;
        proof {
            crate::allocator_laws::allocator_is_consistent(*allocator);
            reveal_with_fuel(pages_allocated, 5);
            reveal_with_fuel(creation_ops, 5);
            assert(first + Seq::<IoOp>::empty() =~= first);
        }
        let dcbaa: DmaRegion = match DmaRegion::new(allocator, 2048, 12, ops) {
            Ok(region) => region,
            Err(_) => {
                return Err(XhciError::NoMemory);
            },
        };
        proof {
            lemma_region_fits(memory, 1, 12, dma_offset);
            let pages = pages_allocated(memory, 1).0;
            assert(dcbaa == page_of(pages, 0));
            assert(ops@ =~= first + creation_ops(pages, dma_offset, 1));
        }
        let ghost memory1 = allocator@;
        let command_region: DmaRegion = match DmaRegion::new(allocator, 1024, 12, ops) {
            Ok(region) => region,
            Err(_) => {
                return Err(XhciError::NoMemory);
            },
        };
        proof {
            lemma_region_fits(memory1, 1, 12, dma_offset);
        }
        let command_ring: TrbRing = TrbRing::new(command_region, dma_offset, ops);
        proof {
            let pages = pages_allocated(memory, 2).0;
            assert(dcbaa == page_of(pages, 0));
            assert(command_region == page_of(pages, 1));
            assert(ops@ =~= first + creation_ops(pages, dma_offset, 2));
        }
        let ghost memory2 = allocator@;
        let event_region: DmaRegion = match DmaRegion::new(allocator, 1024, 12, ops) {
            Ok(region) => region,
            Err(_) => {
                return Err(XhciError::NoMemory);
            },
        };
        proof {
            lemma_region_fits(memory2, 1, 12, dma_offset);
            let pages = pages_allocated(memory, 3).0;
            assert(dcbaa == page_of(pages, 0));
            assert(command_region == page_of(pages, 1));
            assert(event_region == page_of(pages, 2));
            assert(ops@ =~= first + creation_ops(pages, dma_offset, 3));
        }
        let ghost memory3 = allocator@;
        let erst: DmaRegion = match DmaRegion::new(allocator, 16, 12, ops) {
            Ok(region) => region,
            Err(_) => {
                return Err(XhciError::NoMemory);
            },
        };
        proof {
            lemma_region_fits(memory3, 1, 12, dma_offset);
            let pages = pages_allocated(memory, 4).0;
            assert(dcbaa == page_of(pages, 0));
            assert(command_region == page_of(pages, 1));
            assert(event_region == page_of(pages, 2));
            assert(erst == page_of(pages, 3));
            assert(ops@ =~= first + creation_ops(pages, dma_offset, 4));
        }
        Ok(
            Self {
                operational_base: Self::operational_base_of(base_address, registers.capbase),
                doorbell_base: base_address + (registers.doorbell_offset
                    - registers.doorbell_offset % 4) as u64,
                runtime_base: base_address + (registers.runtime_offset - registers.runtime_offset
                    % 32) as u64,
                hcsparams1: registers.hcsparams1,
                hcsparams2: registers.hcsparams2,
                hccparams: registers.hccparams,
                hci_version: (registers.capbase / 0x1_0000) as u16,
                page_order,
                dma_offset,
                dcbaa,
                command_ring,
                event_ring: EventRing::new(event_region),
                erst,
                scratchpad_array: None,
                scratchpad_buffers: None,
            },
        )
    }
}

/// Which event the driver waits for.
#[derive(Clone, Copy, PartialEq, Eq, Debug, Structural)]
pub enum Awaited {
    /// The completion of a command.
    Command,
    /// The end of a transfer at an endpoint.
    Transfer { slot_id: u8, ep_index: usize },
}

impl Awaited {
    pub open spec fn accepts(self, event: Trb) -> bool {
        match self {
            Awaited::Command => event.kind() == 33,
            Awaited::Transfer { slot_id, ep_index } => {
                &&& event.kind() == 32
                &&& event.slot_id() == slot_id
                &&& event.endpoint() == ep_index
            },
        }
    }

    pub fn matches_event(&self, event: &Trb) -> (matching: bool)
        ensures
            matching == self.accepts(*event),
    {
        match self {
            Awaited::Command => event.trb_field_to_type() == TRB_COMPLETION_EVENT,
            Awaited::Transfer { slot_id, ep_index } => event.trb_field_to_type()
                == TRB_TRANSFER_EVENT && event.event_slot() == *slot_id && event.event_endpoint()
                == *ep_index,
        }
    }
}

/// What came of looking at the event ring.
#[derive(Clone, Copy, PartialEq, Eq, Debug, Structural)]
pub enum EventPoll {
    /// The event has come. It is still to be acknowledged.
    Found,
    /// The event has not come yet.
    Again,
    /// The event has not come in time.
    TimedOut,
}

/// The control word of a command.
pub open spec fn command_control(command: int, slot_id: int, ep_index: int, cycle: int) -> u32 {
    (command * 0x400 + slot_id * 0x100_0000 + ((ep_index + 1) % 32) * 0x1_0000 + cycle) as u32
}

impl Xhci {
    /// A command for the controller.
    pub open spec fn command_trb(
        &self,
        address: u64,
        slot_id: u8,
        ep_index: int,
        command: u32,
    ) -> Trb {
        Trb {
            parameter: address,
            status: 0,
            control: command_control(
                command as int,
                slot_id as int,
                ep_index,
                self.command_ring@.cycle,
            ),
        }
    }

    pub open spec fn doorbell_op(&self, slot_id: u8, ep_index: int) -> IoOp {
        IoOp::Write {
            address: (self.doorbell_base + 4 * slot_id) as u64,
            value: if slot_id == 0 {
                0
            } else {
                ((ep_index + 1) % 256) as u32
            },
        }
    }

    /// The accesses that hand a command to the controller.
    pub open spec fn command_ops(
        &self,
        address: u64,
        slot_id: u8,
        ep_index: int,
        command: u32,
    ) -> Seq<IoOp> {
        self.command_ring@.push_ops(self.command_trb(address, slot_id, ep_index, command)) + seq![
            IoOp::Barrier,
            self.doorbell_op(0, 0),
        ]
    }

    /// Tells the controller that there is something on a ring.
    pub fn ring_doorbell(&self, slot_id: u8, ep_index: usize) -> (op: IoOp)
        requires
            self.wf(),
            ep_index < 32,
        ensures
            op == self.doorbell_op(slot_id, ep_index as int),
    {
        IoOp::Write {
            address: self.doorbell_base + 4 * (slot_id as u64),
            value: if slot_id == 0 {
                0
            } else {
                ((ep_index + 1) % 256) as u32
            },
        }
    }

    /// Hands a command to the controller.
    pub fn queue_command(
        &mut self,
        address: u64,
        slot_id: u8,
        ep_index: usize,
        command: u32,
        ops: &mut Vec<IoOp>,
    )
        requires
            old(self).wf(),
            ep_index < 32,
            command < 64,
        ensures
            final(self).wf(),
            final(self).same_controller(old(self)),
            final(self).same_scratchpads(old(self)),
            final(self).event_ring == old(self).event_ring,
            final(self).command_ring@ == old(self).command_ring@.pushed(
                old(self).command_trb(address, slot_id, ep_index as int, command),
            ),
            final(ops)@ == old(ops)@ + old(self).command_ops(
                address,
                slot_id,
                ep_index as int,
                command,
            ),
    {
        let trb = Trb {
            parameter: address,
            status: 0,
            control: command * 0x400 + slot_id as u32 * 0x100_0000 + ((ep_index + 1) % 32) as u32
                * 0x1_0000 + self.command_ring.cycle_state,
        };
        self.command_ring.push_trb_raw(trb, ops);
        ops.push(IoOp::Barrier);
        let doorbell: IoOp = self.ring_doorbell(0, 0);
        ops.push(doorbell);
        assert(ops@ =~= old(ops)@ + old(self).command_ops(
            address,
            slot_id,
            ep_index as int,
            command,
        ));
    }

    /// The dequeue pointer that acknowledges the events before `ring`.
    pub open spec fn dequeue_pointer(&self, ring: EventRing) -> u64 {
        let bus = ring.event_address() + self.dma_offset;
        (bus - bus % 16 + 8) as u64
    }

    pub open spec fn acknowledge_ops(&self) -> Seq<IoOp> {
        crate::dma::write64_ops(
            self.runtime_base + 0x38,
            self.dequeue_pointer(self.event_ring.advanced()),
        )
    }

    /// Hands the event back to the controller.
    pub fn acknowledge_event(&mut self, ops: &mut Vec<IoOp>)
        requires
            old(self).wf(),
        ensures
            final(self).wf(),
            final(self).same_controller(old(self)),
            final(self).same_scratchpads(old(self)),
            final(self).command_ring == old(self).command_ring,
            final(self).event_ring == old(self).event_ring.advanced(),
            final(ops)@ == old(ops)@ + old(self).acknowledge_ops(),
    {
        self.event_ring.advance();
        let bus: u64 = self.event_ring.region.address + 16 * (self.event_ring.dequeue_index as u64)
            + self.dma_offset;
        crate::dma::write64(ops, self.runtime_base + 0x38, bus - bus % 16 + 8);
    }

    /// What looking at the event ring brings.
    pub open spec fn polled(&self, awaited: Awaited, event: Trb, late: bool) -> EventPoll {
        if self.event_ring.holds(event) && awaited.accepts(event) {
            EventPoll::Found
        } else if late {
            EventPoll::TimedOut
        } else {
            EventPoll::Again
        }
    }

    /// Looks at the event that is next on the event ring. One that nobody waits for is
    /// acknowledged.
    pub fn wait_for_event(
        &mut self,
        awaited: Awaited,
        event: &Trb,
        now: u64,
        deadline: u64,
        ops: &mut Vec<IoOp>,
    ) -> (poll: EventPoll)
        requires
            old(self).wf(),
        ensures
            final(self).wf(),
            final(self).same_controller(old(self)),
            final(self).same_scratchpads(old(self)),
            final(self).command_ring == old(self).command_ring,
            poll == old(self).polled(awaited, *event, crate::timer::has_passed(deadline, now)),
            if old(self).event_ring.holds(*event) && !awaited.accepts(*event) {
                &&& final(self).event_ring == old(self).event_ring.advanced()
                &&& final(ops)@ == old(ops)@ + old(self).acknowledge_ops()
            } else {
                &&& final(self).event_ring == old(self).event_ring
                &&& final(ops)@ == old(ops)@
            },
    {
        if self.event_ring.is_new(event) {
            if awaited.matches_event(event) {
                return EventPoll::Found;
            }
            self.acknowledge_event(ops);
        }
        if crate::timer::deadline_passed(deadline, now) {
            EventPoll::TimedOut
        } else {
            EventPoll::Again
        }
    }

    /// The slot that the controller has enabled. `Err` where it has not.
    pub fn enabled_slot(event: &Trb) -> (result: Result<u8, ()>)
        ensures
            result == if event.completion() == 1 && event.slot_id() != 0 {
                Ok::<u8, ()>(event.slot_id() as u8)
            } else {
                Err(())
            },
    {
        let slot_id: u8 = event.event_slot();
        if event.completion_code() != COMP_SUCCESS || slot_id == 0 {
            Err(())
        } else {
            Ok(slot_id)
        }
    }

    /// Whether a command for a slot has succeeded.
    pub fn command_succeeded(event: &Trb, slot_id: u8) -> (result: Result<(), ()>)
        ensures
            result == if event.completion() == 1 && event.slot_id() == slot_id {
                Ok::<(), ()>(())
            } else {
                Err(())
            },
    {
        if event.completion_code() != COMP_SUCCESS || event.event_slot() != slot_id {
            Err(())
        } else {
            Ok(())
        }
    }

    /// The offset of the status register of a root port among the operational registers.
    pub fn portsc_address(&self, port_id: u8) -> (address: u64)
        requires
            self.wf(),
            port_id >= 1,
        ensures
            address == self.operational_base + 0x400 + (port_id - 1) * 0x10,
    {
        self.operational_base + 0x400 + (port_id as u64 - 1) * 0x10
    }

    pub fn max_ports(&self) -> (ports: u8)
        ensures
            ports == self.hcsparams1 / 0x100_0000,
    {
        (self.hcsparams1 / 0x100_0000) as u8
    }

    pub fn has_port_power_control(&self) -> (controlled: bool)
        ensures
            controlled == ((self.hccparams as int / 8) % 2 == 1),
    {
        (self.hccparams / 8) % 2 == 1
    }
}

/// The awaited event is found however late it is looked for.
pub proof fn awaited_event_is_kept(controller: Xhci, awaited: Awaited, event: Trb, late: bool)
    requires
        controller.event_ring.holds(event),
        awaited.accepts(event),
    ensures
        controller.polled(awaited, event, late) == EventPoll::Found,
{
}

} // verus!
