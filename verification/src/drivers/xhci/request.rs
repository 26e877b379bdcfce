//! Control and bulk transfers, from the buffer of the caller to the bytes that were moved.

use crate::dma::{DmaRegion, IoOp};
use crate::drivers::xhci::context::XhciDevice;
use crate::drivers::xhci::controller::{Awaited, Xhci};
use crate::drivers::xhci::descriptor::SetupPacket;
use crate::drivers::xhci::ring::{Ring, Trb, TrbRing};
use crate::drivers::xhci::transfer::Wave;
use crate::free_memory::FreeMemory;
use crate::memory_allocator::MemoryAllocator;
use vstd::prelude::*;

verus! {

/// A buffer that shares a cache line with something else cannot be handed to the controller.
pub open spec fn needs_bounce(buffer_address: int, length: int, line_size: int) -> bool {
    buffer_address % line_size != 0 || length % line_size != 0
}

pub fn needs_bounce_buffer(buffer_address: u64, length: u64, line_size: u64) -> (needed: bool)
    requires
        line_size > 0,
    ensures
        needed == needs_bounce(buffer_address as int, length as int, line_size as int),
{
    buffer_address % line_size != 0 || length % line_size != 0
}

/// The buffer in place of the caller's, where one is needed, and the free memory without it. `None`
/// where there is no memory.
pub open spec fn bounce_of(
    memory: FreeMemory,
    buffer_address: int,
    length: int,
    line_size: int,
) -> Option<(Option<DmaRegion>, FreeMemory)> {
    if length == 0 || !needs_bounce(buffer_address, length, line_size) {
        Some((None, memory))
    } else {
        match crate::dma::dma_allocated(memory, crate::dma::pages_for(length), 12) {
            Some((address, after)) => Some(
                (
                    Some(
                        DmaRegion {
                            address: address as u64,
                            size: length as u64,
                            pages: crate::dma::pages_for(length) as u64,
                        },
                    ),
                    after,
                ),
            ),
            None => None,
        }
    }
}

/// The accesses that prepare a bounce buffer.
pub open spec fn bounce_ops(bounce: Option<DmaRegion>) -> Seq<IoOp> {
    match bounce {
        Some(region) => region.prepare_ops(),
        None => Seq::empty(),
    }
}

/// The free memory once a bounce buffer is given back.
pub open spec fn released(memory: FreeMemory, bounce: Option<DmaRegion>) -> FreeMemory {
    match bounce {
        Some(region) => if crate::memory::can_be_freed(
            memory,
            region.address as int,
            region.bytes(),
        ) {
            match memory.freed(region.address as int, region.bytes()) {
                Ok(after) => after,
                Err(_) => memory,
            }
        } else {
            memory
        },
        None => memory,
    }
}

/// A transfer whose end is awaited.
#[derive(Clone, Copy, PartialEq, Eq, Debug, Structural)]
pub struct Transfer {
    pub buffer_address: u64,
    pub length: u64,
    pub is_in: bool,
    pub bounce: Option<DmaRegion>,
}

impl Transfer {
    pub open spec fn wf(self, dma_offset: u64) -> bool {
        &&& self.buffer_address + self.length + dma_offset <= u64::MAX
        &&& self.bounce matches Some(region) ==> {
            &&& region.size == self.length
            &&& region.address + region.bytes() + dma_offset <= u64::MAX
            &&& region.bytes() >= self.length
            &&& region.bytes() <= usize::MAX
            &&& region.address <= usize::MAX
        }
    }

    /// Where the controller reads or writes the data, as the CPU sees it.
    pub open spec fn dma_address(self) -> u64 {
        match self.bounce {
            Some(region) => region.address,
            None => self.buffer_address,
        }
    }

    /// What goes to the device is copied to the bounce buffer first.
    pub open spec fn copy_in_ops(self) -> Seq<IoOp> {
        match self.bounce {
            Some(region) => if self.is_in {
                Seq::empty()
            } else {
                seq![
                    IoOp::Copy {
                        from: self.buffer_address,
                        to: region.address,
                        size: self.length,
                    },
                ]
            },
            None => Seq::empty(),
        }
    }

    /// What came from the device is seen by the CPU, and copied to the caller's buffer.
    pub open spec fn copy_out_ops(self) -> Seq<IoOp> {
        if self.length > 0 && self.is_in {
            seq![IoOp::Invalidate { address: self.dma_address(), size: self.length }]
                + match self.bounce {
                Some(region) => seq![
                    IoOp::Copy {
                        from: region.address,
                        to: self.buffer_address,
                        size: self.length,
                    },
                ],
                None => Seq::empty(),
            }
        } else {
            Seq::empty()
        }
    }

    pub fn get_dma_address(&self) -> (address: u64)
        ensures
            address == self.dma_address(),
    {
        match self.bounce {
            Some(region) => region.address,
            None => self.buffer_address,
        }
    }

    /// Gets a bounce buffer, where one is needed.
    fn prepare(
        buffer_address: u64,
        length: u64,
        is_in: bool,
        line_size: u64,
        dma_offset: u64,
        allocator: &mut MemoryAllocator,
        ops: &mut Vec<IoOp>,
    ) -> (result: Result<Self, ()>)
        requires
            old(allocator).wf(),
            line_size > 0,
            buffer_address + length + dma_offset <= u64::MAX,
            crate::drivers::xhci::controller::offset_fits(dma_offset),
        ensures
            final(allocator).wf(),
            match bounce_of(
                old(allocator)@,
                buffer_address as int,
                length as int,
                line_size as int,
            ) {
                Some((bounce, memory)) => {
                    let transfer = Transfer { buffer_address, length, is_in, bounce };
                    &&& result == Ok::<Self, ()>(transfer)
                    &&& transfer.wf(dma_offset)
                    &&& final(allocator)@ == memory
                    &&& final(ops)@ == old(ops)@ + (bounce_ops(bounce) + transfer.copy_in_ops())
                },
                None => {
                    &&& result is Err
                    &&& final(allocator)@ == old(allocator)@
                    &&& final(ops)@ == old(ops)@
                },
            },
    {
        let ghost first = ops@;
        let ghost memory = allocator@;
        if length == 0 || !needs_bounce_buffer(buffer_address, length, line_size) {
            let transfer = Transfer { buffer_address, length, is_in, bounce: None };
            assert(ops@ =~= first + (bounce_ops(None) + transfer.copy_in_ops()));
            return Ok(transfer);
        }
        proof {
            crate::allocator_laws::allocator_is_consistent(*allocator);
        }
        match DmaRegion::new(allocator, length, 12, ops) {
            Ok(region) => {
                proof {
                    crate::dma::lemma_region_fits(memory, crate::dma::pages_for(length as int), 12);
                    reveal(crate::dma::dma_allocated);
                }
                let transfer = Transfer { buffer_address, length, is_in, bounce: Some(region) };
                if !is_in {
                    ops.push(
                        IoOp::Copy { from: buffer_address, to: region.address, size: length },
                    );
                }
                assert(ops@ =~= first + (bounce_ops(Some(region)) + transfer.copy_in_ops()));
                Ok(transfer)
            },
            Err(_) => Err(()),
        }
    }

    /// Brings what the device sent to the caller's buffer.
    fn copy_out(&self, ops: &mut Vec<IoOp>)
        ensures
            final(ops)@ == old(ops)@ + self.copy_out_ops(),
    {
        if self.length > 0 && self.is_in {
            ops.push(IoOp::Invalidate { address: self.get_dma_address(), size: self.length });
            match self.bounce {
                Some(region) => {
                    ops.push(
                        IoOp::Copy {
                            from: region.address,
                            to: self.buffer_address,
                            size: self.length,
                        },
                    );
                },
                None => {},
            }
        }
        assert(ops@ =~= old(ops)@ + self.copy_out_ops());
    }

    /// Gives the bounce buffer back.
    pub fn release(&self, allocator: &mut MemoryAllocator)
        requires
            old(allocator).wf(),
            self.bounce matches Some(region) ==> region.bytes() <= usize::MAX && region.address
                <= usize::MAX,
        ensures
            final(allocator).wf(),
            final(allocator)@ == released(old(allocator)@, self.bounce),
    {
        match self.bounce {
            Some(region) => {
                let address: usize = region.address as usize;
                let size: usize = region.pages as usize * 4096;
                if allocator.accepts_free(address, size) {
                    crate::memory::free_pages(allocator, address, region.pages as usize);
                }
            },
            None => {},
        }
    }
}

/// What came of submitting a control transfer.
pub struct Submission {
    pub ring: Ring,
    pub memory: FreeMemory,
    pub ops: Seq<IoOp>,
    /// The transfer, where there was memory.
    pub transfer: Option<Transfer>,
}

impl Xhci {
    /// A control transfer on the ring of a device's control endpoint. Without memory for a bounce
    /// buffer the setup stage is on the ring, and held back.
    pub open spec fn control_submission(
        &self,
        ring: Ring,
        slot_id: u8,
        setup: SetupPacket,
        buffer_address: u64,
        length: u64,
        line_size: u64,
        memory: FreeMemory,
    ) -> Submission {
        let trb = crate::drivers::xhci::transfer::setup_trb(
            setup,
            self.hci_version,
            length as int,
            ring.cycle,
        );
        let first = ring.pushed(trb);
        match bounce_of(memory, buffer_address as int, length as int, line_size as int) {
            None => Submission { ring: first, memory, ops: ring.push_ops(trb), transfer: None },
            Some((bounce, after)) => {
                let transfer = Transfer { buffer_address, length, is_in: setup.reads(), bounce };
                let stages = crate::drivers::xhci::transfer::stages_pushed(
                    first,
                    setup,
                    transfer.dma_address() as int,
                    self.dma_offset as int,
                    length as int,
                );
                Submission {
                    ring: stages.0.committed(ring.index, ring.cycle),
                    memory: after,
                    ops: ring.push_ops(trb) + (bounce_ops(bounce) + transfer.copy_in_ops())
                        + stages.1 + stages.0.commit_ops(ring.index, ring.cycle) + seq![
                        self.doorbell_op(slot_id, 0),
                    ],
                    transfer: Some(transfer),
                }
            },
        }
    }

    /// Submits a control transfer.
    pub fn control_transfer(
        &self,
        device: &mut XhciDevice,
        setup: &SetupPacket,
        buffer_address: u64,
        length: u64,
        line_size: u64,
        allocator: &mut MemoryAllocator,
        ops: &mut Vec<IoOp>,
    ) -> (result: Result<Transfer, ()>)
        requires
            self.wf(),
            old(device).wf(self),
            old(allocator).wf(),
            line_size > 0,
            buffer_address + length + self.dma_offset <= u64::MAX,
        ensures
            final(device).wf(self),
            final(allocator).wf(),
            final(device).placement == old(device).placement,
            final(device).ep0_max_packet == old(device).ep0_max_packet,
            final(device).out_ctx == old(device).out_ctx,
            final(device).in_ctx == old(device).in_ctx,
            final(device).bulk_out_ring == old(device).bulk_out_ring,
            final(device).bulk_in_ring == old(device).bulk_in_ring,
            ({
                let submission = self.control_submission(
                    old(device).ep0_ring@,
                    old(device).placement.slot_id,
                    *setup,
                    buffer_address,
                    length,
                    line_size,
                    old(allocator)@,
                );
                &&& final(device).ep0_ring@ == submission.ring
                &&& final(allocator)@ == submission.memory
                &&& final(ops)@ == old(ops)@ + submission.ops
                &&& match submission.transfer {
                    Some(transfer) => result == Ok::<Transfer, ()>(transfer) && transfer.wf(
                        self.dma_offset,
                    ),
                    None => result is Err,
                }
            }),
    {
        let ghost first = ops@;
        let start_index: usize = device.ep0_ring.enqueue_index;
        let start_cycle: u32 = device.ep0_ring.cycle_state;
        crate::drivers::xhci::transfer::push_setup(
            &mut device.ep0_ring,
            setup,
            self.hci_version,
            length,
            ops,
        );
        let transfer: Transfer = match Transfer::prepare(
            buffer_address,
            length,
            setup.is_in(),
            line_size,
            self.dma_offset,
            allocator,
            ops,
        ) {
            Ok(transfer) => transfer,
            Err(_) => {
                return Err(());
            },
        };
        crate::drivers::xhci::transfer::push_stages(
            &mut device.ep0_ring,
            setup,
            transfer.get_dma_address(),
            self.dma_offset,
            length,
            ops,
        );
        device.ep0_ring.commit_first_trb(start_index, start_cycle, ops);
        let doorbell: IoOp = self.ring_doorbell(device.placement.slot_id, 0);
        ops.push(doorbell);
        assert(ops@ =~= first + self.control_submission(
            old(device).ep0_ring@,
            old(device).placement.slot_id,
            *setup,
            buffer_address,
            length,
            line_size,
            old(allocator)@,
        ).ops);
        Ok(transfer)
    }

    /// Takes the event that ends a control transfer: how many bytes were moved, or that it failed.
    /// The bounce buffer is given back: `ops` are to be performed before its pages are handed out
    /// again.
    pub fn finish_control_transfer(
        &mut self,
        transfer: &Transfer,
        event: &Trb,
        allocator: &mut MemoryAllocator,
        ops: &mut Vec<IoOp>,
    ) -> (result: Result<u64, ()>)
        requires
            old(self).wf(),
            old(allocator).wf(),
            transfer.wf(old(self).dma_offset),
        ensures
            final(self).wf(),
            final(allocator).wf(),
            final(self).same_controller(old(self)),
            final(self).same_scratchpads(old(self)),
            final(self).command_ring == old(self).command_ring,
            final(self).event_ring == old(self).event_ring.advanced(),
            final(allocator)@ == released(old(allocator)@, transfer.bounce),
            if crate::drivers::xhci::transfer::succeeded(*event) {
                &&& result matches Ok(bytes) && bytes == crate::drivers::xhci::transfer::moved(
                    transfer.length as int,
                    *event,
                )
                &&& final(ops)@ == old(ops)@ + old(self).acknowledge_ops()
                    + transfer.copy_out_ops()
            } else {
                &&& result is Err
                &&& final(ops)@ == old(ops)@ + old(self).acknowledge_ops()
            },
    {
        self.acknowledge_event(ops);
        transfer.release(allocator);
        if !crate::drivers::xhci::transfer::has_succeeded(event) {
            return Err(());
        }
        transfer.copy_out(ops);
        Ok(crate::drivers::xhci::transfer::bytes_moved(transfer.length, event))
    }
}

/// A bulk transfer, one transfer descriptor of which is with the controller.
#[derive(Clone, Copy, PartialEq, Eq, Debug, Structural)]
pub struct BulkTransfer {
    pub transfer: Transfer,
    pub slot_id: u8,
    pub ep_index: usize,
    pub max_packet: u16,
    /// Where the current transfer descriptor starts.
    pub offset: u64,
    pub wave_length: u64,
    /// How many bytes were moved before.
    pub transferred: u64,
}

/// How a bulk transfer stands.
#[derive(Clone, Copy, PartialEq, Eq, Debug, Structural)]
pub enum BulkStep {
    /// The end of a transfer descriptor is awaited.
    Waiting(BulkTransfer),
    /// This many bytes were moved.
    Finished(u64),
    Failed,
}

impl BulkTransfer {
    pub open spec fn wf(self, dma_offset: u64) -> bool {
        &&& self.transfer.wf(dma_offset)
        &&& self.ep_index < 32
        &&& self.transferred <= self.offset
        &&& self.offset < self.transfer.length
        &&& self.wave_length == crate::drivers::xhci::transfer::wave_length(
            self.transfer.dma_address() + self.offset,
            self.transfer.length - self.offset,
        )
    }

    /// The transfer descriptor that is with the controller.
    pub open spec fn wave(self, dma_offset: u64) -> Wave {
        Wave {
            address: (self.transfer.dma_address() + self.offset) as u64,
            length: self.wave_length,
            max_packet: self.max_packet,
            is_in: self.transfer.is_in,
            dma_offset,
        }
    }

    /// The transfer with its next transfer descriptor at `offset`.
    pub open spec fn at(self, offset: int, transferred: int) -> BulkTransfer {
        BulkTransfer {
            offset: offset as u64,
            transferred: transferred as u64,
            wave_length: crate::drivers::xhci::transfer::wave_length(
                self.transfer.dma_address() + offset,
                self.transfer.length - offset,
            ) as u64,
            ..self
        }
    }

    /// How the transfer stands once the current transfer descriptor has ended with `event`. A short
    /// transfer descriptor ends the whole transfer: there is no more data to wait for.
    pub open spec fn next(self, event: Trb) -> BulkStep {
        let moved = crate::drivers::xhci::transfer::moved(self.wave_length as int, event);
        let offset = self.offset + self.wave_length;
        if !crate::drivers::xhci::transfer::succeeded(event) {
            BulkStep::Failed
        } else if moved < self.wave_length || offset >= self.transfer.length {
            BulkStep::Finished((self.transferred + moved) as u64)
        } else {
            BulkStep::Waiting(self.at(offset, self.transferred + moved))
        }
    }

    /// Which event ends the current transfer descriptor.
    pub fn awaited(&self) -> (awaited: Awaited)
        ensures
            awaited == (Awaited::Transfer { slot_id: self.slot_id, ep_index: self.ep_index }),
    {
        Awaited::Transfer { slot_id: self.slot_id, ep_index: self.ep_index }
    }
}

impl Xhci {
    /// The ring and the accesses that hand the current transfer descriptor to the controller.
    pub open spec fn wave_submission(&self, bulk: BulkTransfer, ring: Ring) -> (Ring, Seq<IoOp>) {
        let (after, ops) = bulk.wave(self.dma_offset).submitted(ring);
        (after, ops.push(self.doorbell_op(bulk.slot_id, bulk.ep_index as int)))
    }

    /// Hands the current transfer descriptor to the controller.
    fn submit_bulk_wave(&self, bulk: &BulkTransfer, ring: &mut TrbRing, ops: &mut Vec<IoOp>)
        requires
            self.wf(),
            bulk.wf(self.dma_offset),
            old(ring).wf(),
        ensures
            final(ring).wf(),
            final(ring)@ == self.wave_submission(*bulk, old(ring)@).0,
            final(ops)@ == old(ops)@ + self.wave_submission(*bulk, old(ring)@).1,
    {
        let wave = Wave {
            address: bulk.transfer.get_dma_address() + bulk.offset,
            length: bulk.wave_length,
            max_packet: bulk.max_packet,
            is_in: bulk.transfer.is_in,
            dma_offset: self.dma_offset,
        };
        wave.submit(ring, ops);
        let doorbell: IoOp = self.ring_doorbell(bulk.slot_id, bulk.ep_index);
        ops.push(doorbell);
        assert(ops@ =~= old(ops)@ + self.wave_submission(*bulk, old(ring)@).1);
    }

    /// The first transfer descriptor of a bulk transfer.
    pub open spec fn first_wave(
        transfer: Transfer,
        slot_id: u8,
        ep_index: usize,
        max_packet: u16,
    ) -> BulkTransfer {
        (BulkTransfer {
            transfer,
            slot_id,
            ep_index,
            max_packet,
            offset: 0,
            wave_length: 0,
            transferred: 0,
        }).at(0, 0)
    }

    /// Starts a bulk transfer. `Err` where there is no memory for a bounce buffer.
    pub fn submit_bulk_transfer(
        &self,
        slot_id: u8,
        ep_index: usize,
        ring: &mut TrbRing,
        buffer_address: u64,
        length: u64,
        max_packet: u16,
        is_in: bool,
        line_size: u64,
        allocator: &mut MemoryAllocator,
        ops: &mut Vec<IoOp>,
    ) -> (result: Result<BulkStep, ()>)
        requires
            self.wf(),
            old(ring).wf(),
            old(allocator).wf(),
            line_size > 0,
            ep_index < 32,
            buffer_address + length + self.dma_offset <= u64::MAX,
        ensures
            final(ring).wf(),
            final(allocator).wf(),
            final(ring).region == old(ring).region,
            if length == 0 {
                &&& result == Ok::<BulkStep, ()>(BulkStep::Finished(0))
                &&& final(ring)@ == old(ring)@
                &&& final(allocator)@ == old(allocator)@
                &&& final(ops)@ == old(ops)@
            } else {
                match bounce_of(
                    old(allocator)@,
                    buffer_address as int,
                    length as int,
                    line_size as int,
                ) {
                    Some((bounce, memory)) => {
                        let transfer = Transfer { buffer_address, length, is_in, bounce };
                        let bulk = Self::first_wave(transfer, slot_id, ep_index, max_packet);
                        let submission = self.wave_submission(bulk, old(ring)@);
                        &&& result == Ok::<BulkStep, ()>(BulkStep::Waiting(bulk))
                        &&& bulk.wf(self.dma_offset)
                        &&& final(ring)@ == submission.0
                        &&& final(allocator)@ == memory
                        &&& final(ops)@ == old(ops)@ + (bounce_ops(bounce)
                            + transfer.copy_in_ops()) + seq![
                            IoOp::Clean { address: transfer.dma_address(), size: length },
                        ] + submission.1
                    },
                    None => {
                        &&& result == Err::<BulkStep, ()>(())
                        &&& final(ring)@ == old(ring)@
                        &&& final(allocator)@ == old(allocator)@
                        &&& final(ops)@ == old(ops)@
                    },
                }
            },
    {
        if length == 0 {
            return Ok(BulkStep::Finished(0));
        }
        let transfer: Transfer = match Transfer::prepare(
            buffer_address,
            length,
            is_in,
            line_size,
            self.dma_offset,
            allocator,
            ops,
        ) {
            Ok(transfer) => transfer,
            Err(_) => {
                return Err(());
            },
        };
        let ghost second = ops@;
        let address: u64 = transfer.get_dma_address();
        ops.push(IoOp::Clean { address, size: length });
        let wave_length: u64 = crate::drivers::xhci::transfer::max_wave_length(address, length);
        let bulk = BulkTransfer {
            transfer,
            slot_id,
            ep_index,
            max_packet,
            offset: 0,
            wave_length,
            transferred: 0,
        };
        let ghost before = ring@;
        self.submit_bulk_wave(&bulk, ring, ops);
        proof {
            lemma_wave_keeps_region(bulk.wave(self.dma_offset), before, before.cycle, 0);
        }
        assert(ops@ =~= second + seq![IoOp::Clean { address, size: length }]
            + self.wave_submission(bulk, before).1);
        Ok(BulkStep::Waiting(bulk))
    }

    /// Takes the event that ends a transfer descriptor, and goes on with the next one, where there
    /// is one. Otherwise the bounce buffer is given back: `ops` are to be performed before its pages
    /// are handed out again.
    pub fn continue_bulk_transfer(
        &mut self,
        bulk: &BulkTransfer,
        ring: &mut TrbRing,
        event: &Trb,
        allocator: &mut MemoryAllocator,
        ops: &mut Vec<IoOp>,
    ) -> (step: BulkStep)
        requires
            old(self).wf(),
            old(ring).wf(),
            old(allocator).wf(),
            bulk.wf(old(self).dma_offset),
        ensures
            final(self).wf(),
            final(ring).wf(),
            final(allocator).wf(),
            final(ring).region == old(ring).region,
            final(self).same_controller(old(self)),
            final(self).same_scratchpads(old(self)),
            final(self).command_ring == old(self).command_ring,
            final(self).event_ring == old(self).event_ring.advanced(),
            step == bulk.next(*event),
            match bulk.next(*event) {
                BulkStep::Waiting(next) => {
                    let submission = old(self).wave_submission(next, old(ring)@);
                    &&& next.wf(old(self).dma_offset)
                    &&& final(ring)@ == submission.0
                    &&& final(allocator)@ == old(allocator)@
                    &&& final(ops)@ == old(ops)@ + old(self).acknowledge_ops() + submission.1
                },
                _ => {
                    &&& final(ring)@ == old(ring)@
                    &&& final(allocator)@ == released(old(allocator)@, bulk.transfer.bounce)
                    &&& final(ops)@ == old(ops)@ + old(self).acknowledge_ops()
                        + bulk.transfer.copy_out_ops()
                },
            },
    {
        self.acknowledge_event(ops);
        let success: bool = crate::drivers::xhci::transfer::has_succeeded(event);
        let moved: u64 = crate::drivers::xhci::transfer::bytes_moved(bulk.wave_length, event);
        let offset: u64 = bulk.offset + bulk.wave_length;
        if !success || moved < bulk.wave_length || offset >= bulk.transfer.length {
            bulk.transfer.copy_out(ops);
            bulk.transfer.release(allocator);
            return if success {
                BulkStep::Finished(bulk.transferred + moved)
            } else {
                BulkStep::Failed
            };
        }
        let wave_length: u64 = crate::drivers::xhci::transfer::max_wave_length(
            bulk.transfer.get_dma_address() + offset,
            bulk.transfer.length - offset,
        );
        let next = BulkTransfer {
            transfer: bulk.transfer,
            slot_id: bulk.slot_id,
            ep_index: bulk.ep_index,
            max_packet: bulk.max_packet,
            offset,
            wave_length,
            transferred: bulk.transferred + moved,
        };
        let ghost before = ring@;
        self.submit_bulk_wave(&next, ring, ops);
        proof {
            lemma_wave_keeps_region(next.wave(self.dma_offset), before, before.cycle, 0);
        }
        BulkStep::Waiting(next)
    }
}

/// Writing TRBs leaves a ring where it is.
proof fn lemma_wave_keeps_region(wave: Wave, ring: Ring, start_cycle: int, transferred: int)
    ensures
        wave.written_from(ring, start_cycle, transferred).0.region == ring.region,
    decreases wave.length - transferred,
{
    if transferred < wave.length {
        lemma_wave_keeps_region(
            wave,
            ring.pushed(wave.trb(start_cycle, ring.cycle, transferred)),
            start_cycle,
            transferred + wave.chunk(transferred),
        );
    }
}

/// A bulk transfer never reports more bytes than were asked for, and comes nearer to its end with
/// every transfer descriptor.
pub proof fn bulk_transfer_is_bounded(bulk: BulkTransfer, event: Trb, dma_offset: u64)
    requires
        bulk.wf(dma_offset),
    ensures
        match bulk.next(event) {
            BulkStep::Finished(bytes) => bytes <= bulk.transfer.length,
            BulkStep::Waiting(next) => {
                &&& next.wf(dma_offset)
                &&& next.transfer == bulk.transfer
                &&& bulk.offset < next.offset < bulk.transfer.length
            },
            BulkStep::Failed => true,
        },
{
    crate::drivers::xhci::transfer::wave_fits_the_ring(
        bulk.transfer.dma_address() + bulk.offset,
        bulk.transfer.length - bulk.offset,
    );
}

/// A mass-storage device that is ready for use.
pub struct XhciMassStorageDevice {
    pub controller: Xhci,
    pub device: XhciDevice,
    pub bulk_in_ep: u8,
    pub bulk_out_ep: u8,
    pub bulk_in_index: usize,
    pub bulk_out_index: usize,
    pub max_packet_in: u16,
    pub max_packet_out: u16,
}

/// What a request to an endpoint comes to.
pub struct BulkStart {
    pub step: Result<BulkStep, ()>,
    pub ring: Ring,
    pub memory: FreeMemory,
    pub ops: Seq<IoOp>,
}

impl XhciMassStorageDevice {
    pub open spec fn wf(&self) -> bool {
        &&& self.controller.wf()
        &&& self.device.wf(&self.controller)
        &&& self.bulk_in_index < 32
        &&& self.bulk_out_index < 32
    }

    pub fn bulk_in_endpoint(&self) -> (endpoint: u8)
        ensures
            endpoint == self.bulk_in_ep,
    {
        self.bulk_in_ep
    }

    pub fn bulk_out_endpoint(&self) -> (endpoint: u8)
        ensures
            endpoint == self.bulk_out_ep,
    {
        self.bulk_out_ep
    }

    /// How a transfer of `length` bytes starts at an endpoint with this ring.
    pub open spec fn started(
        &self,
        ring: Ring,
        is_in: bool,
        buffer_address: u64,
        length: u64,
        line_size: u64,
        memory: FreeMemory,
    ) -> BulkStart {
        let ep_index = if is_in {
            self.bulk_in_index
        } else {
            self.bulk_out_index
        };
        let max_packet = if is_in {
            self.max_packet_in
        } else {
            self.max_packet_out
        };
        if length == 0 {
            BulkStart { step: Ok(BulkStep::Finished(0)), ring, memory, ops: Seq::empty() }
        } else {
            match bounce_of(memory, buffer_address as int, length as int, line_size as int) {
                Some((bounce, after)) => {
                    let transfer = Transfer { buffer_address, length, is_in, bounce };
                    let bulk = Xhci::first_wave(
                        transfer,
                        self.device.placement.slot_id,
                        ep_index,
                        max_packet,
                    );
                    let submission = self.controller.wave_submission(bulk, ring);
                    BulkStart {
                        step: Ok(BulkStep::Waiting(bulk)),
                        ring: submission.0,
                        memory: after,
                        ops: bounce_ops(bounce) + transfer.copy_in_ops() + seq![
                            IoOp::Clean { address: transfer.dma_address(), size: length },
                        ] + submission.1,
                    }
                },
                None => BulkStart { step: Err(()), ring, memory, ops: Seq::empty() },
            }
        }
    }

    /// Starts a transfer at one of the two bulk endpoints. Any other endpoint is refused.
    pub fn bulk_transfer(
        &mut self,
        endpoint_address: u8,
        buffer_address: u64,
        length: u64,
        line_size: u64,
        allocator: &mut MemoryAllocator,
        ops: &mut Vec<IoOp>,
    ) -> (result: Result<BulkStep, ()>)
        requires
            old(self).wf(),
            old(allocator).wf(),
            line_size > 0,
            buffer_address + length + old(self).controller.dma_offset <= u64::MAX,
        ensures
            final(self).wf(),
            final(allocator).wf(),
            final(self).controller == old(self).controller,
            final(self).bulk_in_ep == old(self).bulk_in_ep,
            final(self).bulk_out_ep == old(self).bulk_out_ep,
            final(self).bulk_in_index == old(self).bulk_in_index,
            final(self).bulk_out_index == old(self).bulk_out_index,
            final(self).max_packet_in == old(self).max_packet_in,
            final(self).max_packet_out == old(self).max_packet_out,
            final(self).device.placement == old(self).device.placement,
            final(self).device.ep0_ring == old(self).device.ep0_ring,
            ({
                let is_in = endpoint_address == old(self).bulk_in_ep;
                let is_out = !is_in && endpoint_address == old(self).bulk_out_ep;
                let ring = if is_in {
                    old(self).device.bulk_in_ring
                } else {
                    old(self).device.bulk_out_ring
                };
                if (is_in || is_out) && ring is Some {
                    let start = old(self).started(
                        ring->0@,
                        is_in,
                        buffer_address,
                        length,
                        line_size,
                        old(allocator)@,
                    );
                    let after = if is_in {
                        final(self).device.bulk_in_ring
                    } else {
                        final(self).device.bulk_out_ring
                    };
                    &&& result == start.step
                    &&& after is Some && after->0@ == start.ring
                    &&& final(allocator)@ == start.memory
                    &&& final(ops)@ == old(ops)@ + start.ops
                    &&& is_in ==> final(self).device.bulk_out_ring == old(
                        self,
                    ).device.bulk_out_ring
                    &&& is_out ==> final(self).device.bulk_in_ring == old(self).device.bulk_in_ring
                } else {
                    &&& result is Err
                    &&& final(self).device.bulk_in_ring == old(self).device.bulk_in_ring
                    &&& final(self).device.bulk_out_ring == old(self).device.bulk_out_ring
                    &&& final(allocator)@ == old(allocator)@
                    &&& final(ops)@ == old(ops)@
                }
            }),
    {
        let ghost first = ops@;
        let slot_id: u8 = self.device.placement.slot_id;
        if endpoint_address == self.bulk_in_ep {
            match &mut self.device.bulk_in_ring {
                Some(ring) => {
                    let result: Result<BulkStep, ()> = self.controller.submit_bulk_transfer(
                        slot_id,
                        self.bulk_in_index,
                        ring,
                        buffer_address,
                        length,
                        self.max_packet_in,
                        true,
                        line_size,
                        allocator,
                        ops,
                    );
                    assert(ops@ =~= first + old(self).started(
                        old(self).device.bulk_in_ring->0@,
                        true,
                        buffer_address,
                        length,
                        line_size,
                        old(allocator)@,
                    ).ops);
                    result
                },
                None => Err(()),
            }
        } else if endpoint_address == self.bulk_out_ep {
            match &mut self.device.bulk_out_ring {
                Some(ring) => {
                    let result: Result<BulkStep, ()> = self.controller.submit_bulk_transfer(
                        slot_id,
                        self.bulk_out_index,
                        ring,
                        buffer_address,
                        length,
                        self.max_packet_out,
                        false,
                        line_size,
                        allocator,
                        ops,
                    );
                    assert(ops@ =~= first + old(self).started(
                        old(self).device.bulk_out_ring->0@,
                        false,
                        buffer_address,
                        length,
                        line_size,
                        old(allocator)@,
                    ).ops);
                    result
                },
                None => Err(()),
            }
        } else {
            Err(())
        }
    }
}

} // verus!
