//! Devices and the contexts that describe them to the controller.

use crate::dma::{DmaRegion, IoOp};
use crate::drivers::xhci::controller::Xhci;
use crate::drivers::xhci::descriptor::{HubDescriptor, MassStorageConfiguration, UsbSpeed};
use crate::drivers::xhci::ring::{Ring, TrbRing, TRB_ADDR_DEV, TRB_CONFIG_EP};
use crate::free_memory::FreeMemory;
use crate::memory_allocator::MemoryAllocator;
use vstd::prelude::*;

verus! {

pub const DEV_MTT: u32 = 0x200_0000;

pub const DEV_HUB: u32 = 0x400_0000;

/// Where a device is.
#[derive(Clone, Copy, PartialEq, Eq, Debug, Structural)]
pub struct Placement {
    pub slot_id: u8,
    pub root_hub_port: u8,
    pub speed: UsbSpeed,
    pub route_string: u32,
    pub tt_hub_slot_id: u8,
    pub tt_port_number: u8,
    pub multi_tt: bool,
}

impl Placement {
    /// The code of a speed in a slot context.
    pub open spec fn speed_code(speed: UsbSpeed) -> int {
        match speed {
            UsbSpeed::Full => 1,
            UsbSpeed::Low => 2,
            UsbSpeed::High => 3,
            UsbSpeed::Super => 4,
        }
    }

    /// How large the packets of the control endpoint are.
    pub open spec fn max_packet(speed: UsbSpeed) -> u16 {
        match speed {
            UsbSpeed::Low => 8,
            UsbSpeed::Full => 64,
            UsbSpeed::High => 64,
            UsbSpeed::Super => 512,
        }
    }

    /// The route fits its field.
    pub open spec fn wf(self) -> bool {
        self.route_string < 0x10_0000
    }

    /// The first word of the slot context, with one endpoint context behind it.
    pub open spec fn dev_info(self) -> u32 {
        (self.route_string + Self::speed_code(self.speed) * 0x10_0000 + (if self.multi_tt {
            0x200_0000int
        } else {
            0
        }) + 0x800_0000) as u32
    }

    pub open spec fn tt_info(self) -> u32 {
        if self.tt_hub_slot_id != 0 {
            (self.tt_hub_slot_id + 0x100 * self.tt_port_number) as u32
        } else {
            0
        }
    }

    fn slot_speed_bits(&self) -> (bits: u32)
        ensures
            bits == Self::speed_code(self.speed) * 0x10_0000,
    {
        match self.speed {
            UsbSpeed::Full => 0x10_0000,
            UsbSpeed::Low => 0x20_0000,
            UsbSpeed::High => 0x30_0000,
            UsbSpeed::Super => 0x40_0000,
        }
    }

    fn ep0_max_packet(speed: UsbSpeed) -> (size: u16)
        ensures
            size == Self::max_packet(speed),
    {
        match speed {
            UsbSpeed::Low => 8,
            UsbSpeed::Full => 64,
            UsbSpeed::High => 64,
            UsbSpeed::Super => 512,
        }
    }
}

/// A device at the controller.
pub struct XhciDevice {
    pub placement: Placement,
    pub ep0_max_packet: u16,
    pub out_ctx: DmaRegion,
    pub in_ctx: DmaRegion,
    pub ep0_ring: TrbRing,
    pub bulk_out_ring: Option<TrbRing>,
    pub bulk_in_ring: Option<TrbRing>,
}

/// The second word of an endpoint context: its type, packet size and burst size, and that a
/// transfer is tried three times.
pub open spec fn endpoint_info(kind: int, max_packet: u16, max_burst: int) -> u32 {
    (kind * 8 + 0x1_0000 * max_packet + 0x100 * max_burst + 6) as u32
}

/// The accesses that write an endpoint context at `address`.
pub open spec fn endpoint_ops(address: int, info: u32, dequeue: u64, average: u32) -> Seq<IoOp> {
    seq![
        IoOp::Write { address: address as u64, value: 0 },
        IoOp::Write { address: (address + 4) as u64, value: info },
    ] + crate::dma::write64_ops(address + 8, dequeue) + seq![
        IoOp::Write { address: (address + 16) as u64, value: average },
    ]
}

fn write_endpoint(ops: &mut Vec<IoOp>, address: u64, info: u32, dequeue: u64, average: u32)
    requires
        address + 32 <= u64::MAX,
    ensures
        final(ops)@ == old(ops)@ + endpoint_ops(address as int, info, dequeue, average),
{
    ops.push(IoOp::Write { address, value: 0 });
    ops.push(IoOp::Write { address: address + 4, value: info });
    crate::dma::write64(ops, address + 8, dequeue);
    ops.push(IoOp::Write { address: address + 16, value: average });
    assert(ops@ =~= old(ops)@ + endpoint_ops(address as int, info, dequeue, average));
}

/// Where the controller starts to read a ring.
pub open spec fn dequeue_of(ring: Ring, dma_offset: u64) -> u64 {
    ring.region.bus_address(dma_offset) | (ring.cycle as u64)
}

impl XhciDevice {
    pub open spec fn wf(&self, controller: &Xhci) -> bool {
        &&& self.placement.wf()
        &&& self.ep0_ring.wf()
        &&& self.ep0_ring.region.fits(controller.dma_offset)
        &&& self.out_ctx.fits(controller.dma_offset)
        &&& self.in_ctx.fits(controller.dma_offset)
        &&& self.out_ctx.bytes() >= controller.device_context_bytes()
        &&& self.in_ctx.bytes() >= controller.input_context_bytes()
        &&& self.in_ctx.size == controller.input_context_bytes()
        &&& self.bulk_out_ring is Some ==> self.bulk_out_ring->0.wf()
            && self.bulk_out_ring->0.region.fits(controller.dma_offset)
        &&& self.bulk_in_ring is Some ==> self.bulk_in_ring->0.wf()
            && self.bulk_in_ring->0.region.fits(controller.dma_offset)
    }
}

impl Xhci {
    pub open spec fn context_bytes(&self) -> int {
        if (self.hccparams as int / 4) % 2 == 1 {
            64
        } else {
            32
        }
    }

    pub open spec fn device_context_bytes(&self) -> int {
        32 * self.context_bytes()
    }

    pub open spec fn input_context_bytes(&self) -> int {
        33 * self.context_bytes()
    }

    pub fn context_size(&self) -> (size: u64)
        ensures
            size == self.context_bytes(),
            size == 32 || size == 64,
    {
        if (self.hccparams / 4) % 2 == 1 {
            64
        } else {
            32
        }
    }

    /// The sizes of the output context, the input context and the ring of a device.
    pub open spec fn device_sizes(&self) -> Seq<u64> {
        seq![self.device_context_bytes() as u64, self.input_context_bytes() as u64, 1024]
    }

    /// The memory that a device needs, as far as there is any, and the free memory without it.
    pub open spec fn device_allocation(&self, memory: FreeMemory) -> (Seq<DmaRegion>, FreeMemory) {
        crate::dma::regions_allocated(memory, self.device_sizes())
    }

    /// The accesses that hand a device's context to the controller.
    pub open spec fn slot_ops(&self, regions: Seq<DmaRegion>, slot_id: u8) -> Seq<IoOp> {
        TrbRing::fresh(regions[2]).store_ops(63, TrbRing::link_trb(regions[2], self.dma_offset))
            + seq![
            IoOp::Zero { address: regions[0].address, size: regions[0].size },
            IoOp::Zero { address: regions[1].address, size: regions[1].size },
            regions[0].clean_op(),
            regions[1].clean_op(),
        ] + crate::dma::write64_ops(
            self.dcbaa.address + 8 * slot_id,
            regions[0].bus_address(self.dma_offset),
        ) + seq![self.dcbaa.clean_op()]
    }

    /// The accesses that prepare a device, as far as there was memory.
    pub open spec fn allocation_ops(&self, regions: Seq<DmaRegion>, slot_id: u8) -> Seq<IoOp> {
        if regions.len() == 3 {
            crate::dma::prepare_all(regions) + self.slot_ops(regions, slot_id)
        } else {
            crate::dma::prepare_all(regions)
        }
    }

    /// Allocates what a device needs, and tells the controller where its context is.
    pub fn allocate_device(
        &self,
        placement: Placement,
        allocator: &mut MemoryAllocator,
        ops: &mut Vec<IoOp>,
    ) -> (result: Result<XhciDevice, ()>)
        requires
            self.wf(),
            placement.wf(),
            old(allocator).wf(),
        ensures
            final(allocator).wf(),
            ({
                let (regions, memory) = self.device_allocation(old(allocator)@);
                &&& final(allocator)@ == memory
                &&& final(ops)@ == old(ops)@ + self.allocation_ops(regions, placement.slot_id)
                &&& result is Ok <==> regions.len() == 3
                &&& result matches Ok(device) ==> {
                    &&& device.wf(self)
                    &&& device.placement == placement
                    &&& device.ep0_max_packet == Placement::max_packet(placement.speed)
                    &&& device.out_ctx == regions[0]
                    &&& device.in_ctx == regions[1]
                    &&& device.ep0_ring@ == TrbRing::fresh(regions[2])
                    &&& device.bulk_out_ring is None
                    &&& device.bulk_in_ring is None
                }
            }),
    {
        let ghost first = ops@;
        let size: u64 = self.context_size();
        let sizes: [u64; 3] = [32 * size, 33 * size, 1024];
        assert(sizes@ =~= self.device_sizes());
        let regions: Vec<DmaRegion> = crate::dma::allocate_regions(allocator, &sizes, ops);
        if regions.len() < 3 {
            return Err(());
        }
        let ghost second = ops@;
        let out_ctx: DmaRegion = regions[0];
        let in_ctx: DmaRegion = regions[1];
        let ep0_ring: TrbRing = TrbRing::new(regions[2], self.dma_offset, ops);
        ops.push(IoOp::Zero { address: out_ctx.address, size: out_ctx.size });
        ops.push(IoOp::Zero { address: in_ctx.address, size: in_ctx.size });
        ops.push(out_ctx.clean());
        ops.push(in_ctx.clean());
        crate::dma::write64(
            ops,
            self.dcbaa.address + 8 * (placement.slot_id as u64),
            out_ctx.to_bus(self.dma_offset),
        );
        ops.push(self.dcbaa.clean());
        assert(ops@ =~= second + self.slot_ops(regions@, placement.slot_id));
        assert(ops@ =~= first + self.allocation_ops(regions@, placement.slot_id));
        Ok(
            XhciDevice {
                placement,
                ep0_max_packet: Placement::ep0_max_packet(placement.speed),
                out_ctx,
                in_ctx,
                ep0_ring,
                bulk_out_ring: None,
                bulk_in_ring: None,
            },
        )
    }

    /// Where the context of an endpoint is in the input context of a device.
    pub open spec fn input_endpoint(&self, device: &XhciDevice, ep_index: int) -> int {
        device.in_ctx.address + (ep_index + 2) * self.context_bytes()
    }

    pub open spec fn input_slot(&self, device: &XhciDevice) -> int {
        device.in_ctx.address + self.context_bytes()
    }

    /// The accesses that describe a new device to the controller.
    pub open spec fn address_context_ops(&self, device: &XhciDevice) -> Seq<IoOp> {
        let slot = self.input_slot(device);
        seq![
            IoOp::Zero { address: device.in_ctx.address, size: device.in_ctx.size },
            IoOp::Write { address: device.in_ctx.address, value: 0 },
            IoOp::Write { address: (device.in_ctx.address + 4) as u64, value: 3 },
            IoOp::Write { address: slot as u64, value: device.placement.dev_info() },
            IoOp::Write {
                address: (slot + 4) as u64,
                value: (device.placement.root_hub_port * 0x1_0000) as u32,
            },
            IoOp::Write { address: (slot + 8) as u64, value: device.placement.tt_info() },
            IoOp::Write { address: (slot + 12) as u64, value: 0 },
        ] + endpoint_ops(
            self.input_endpoint(device, 0),
            endpoint_info(4, device.ep0_max_packet, 0),
            dequeue_of(device.ep0_ring@, self.dma_offset),
            8,
        ) + seq![device.in_ctx.clean_op()]
    }

    /// Hands the controller the command that gives a device its address.
    pub fn address_device(&mut self, device: &XhciDevice, ops: &mut Vec<IoOp>)
        requires
            old(self).wf(),
            device.wf(old(self)),
        ensures
            final(self).wf(),
            final(self).same_controller(old(self)),
            final(self).same_scratchpads(old(self)),
            final(self).event_ring == old(self).event_ring,
            ({
                let bus = device.in_ctx.bus_address(old(self).dma_offset);
                let slot = device.placement.slot_id;
                &&& final(self).command_ring@ == old(self).command_ring@.pushed(
                    old(self).command_trb(bus, slot, 0, TRB_ADDR_DEV),
                )
                &&& final(ops)@ == old(ops)@ + (old(self).address_context_ops(device) + old(
                    self,
                ).command_ops(bus, slot, 0, TRB_ADDR_DEV))
            }),
    {
        let size: u64 = self.context_size();
        let base: u64 = device.in_ctx.address;
        let slot: u64 = base + size;
        let mut dev_info: u32 = device.placement.route_string + device.placement.slot_speed_bits()
            + 0x800_0000;
        if device.placement.multi_tt {
            dev_info = dev_info + DEV_MTT;
        }
        let tt_info: u32 = if device.placement.tt_hub_slot_id != 0 {
            device.placement.tt_hub_slot_id as u32 + 0x100 * (device.placement.tt_port_number
                as u32)
        } else {
            0
        };
        ops.push(IoOp::Zero { address: base, size: device.in_ctx.size });
        ops.push(IoOp::Write { address: base, value: 0 });
        ops.push(IoOp::Write { address: base + 4, value: 3 });
        ops.push(IoOp::Write { address: slot, value: dev_info });
        ops.push(
            IoOp::Write {
                address: slot + 4,
                value: device.placement.root_hub_port as u32 * 0x1_0000,
            },
        );
        ops.push(IoOp::Write { address: slot + 8, value: tt_info });
        ops.push(IoOp::Write { address: slot + 12, value: 0 });
        write_endpoint(
            ops,
            base + 2 * size,
            4 * 8 + 0x1_0000 * (device.ep0_max_packet as u32) + 6,
            device.ep0_ring.region.to_bus(self.dma_offset) | (device.ep0_ring.cycle_state as u64),
            8,
        );
        ops.push(device.in_ctx.clean());
        assert(ops@ =~= old(ops)@ + old(self).address_context_ops(device));
        self.queue_command(
            device.in_ctx.to_bus(self.dma_offset),
            device.placement.slot_id,
            0,
            TRB_ADDR_DEV,
            ops,
        );
        assert(ops@ =~= old(ops)@ + (old(self).address_context_ops(device) + old(
            self,
        ).command_ops(
            device.in_ctx.bus_address(old(self).dma_offset),
            device.placement.slot_id,
            0,
            TRB_ADDR_DEV,
        )));
    }

    /// The accesses that tell the controller that a device is a hub. `slot` holds the first three
    /// words of the slot context that the controller keeps.
    pub open spec fn hub_context_ops(
        &self,
        device: &XhciDevice,
        hub: HubDescriptor,
        slot: Seq<u32>,
    ) -> Seq<IoOp> {
        let input = self.input_slot(device);
        seq![
            IoOp::Zero { address: device.in_ctx.address, size: device.in_ctx.size },
            IoOp::Copy { from: device.out_ctx.address, to: input as u64, size: 32 },
            IoOp::Write { address: device.in_ctx.address, value: 0 },
            IoOp::Write { address: (device.in_ctx.address + 4) as u64, value: 1 },
            IoOp::Write {
                address: input as u64,
                value: if hub.multi_tt {
                    slot[0] | DEV_HUB | DEV_MTT
                } else {
                    (slot[0] | DEV_HUB) & !DEV_MTT
                },
            },
            IoOp::Write {
                address: (input + 4) as u64,
                value: slot[1] | ((hub.num_ports * 0x100_0000) as u32),
            },
            IoOp::Write {
                address: (input + 8) as u64,
                value: if device.placement.speed == UsbSpeed::High {
                    slot[2] | ((hub.tt_think_time * 0x1_0000) as u32)
                } else {
                    slot[2]
                },
            },
            IoOp::Write { address: (input + 12) as u64, value: 0 },
            device.in_ctx.clean_op(),
        ]
    }

    /// Hands the controller the command that makes a device a hub.
    pub fn update_hub_device(
        &mut self,
        device: &XhciDevice,
        hub: &HubDescriptor,
        slot: [u32; 3],
        ops: &mut Vec<IoOp>,
    )
        requires
            old(self).wf(),
            device.wf(old(self)),
        ensures
            final(self).wf(),
            final(self).same_controller(old(self)),
            final(self).same_scratchpads(old(self)),
            final(self).event_ring == old(self).event_ring,
            ({
                let bus = device.in_ctx.bus_address(old(self).dma_offset);
                let id = device.placement.slot_id;
                &&& final(self).command_ring@ == old(self).command_ring@.pushed(
                    old(self).command_trb(bus, id, 0, TRB_CONFIG_EP),
                )
                &&& final(ops)@ == old(ops)@ + (old(self).hub_context_ops(device, *hub, slot@) + old(
                    self,
                ).command_ops(bus, id, 0, TRB_CONFIG_EP))
            }),
    {
        let base: u64 = device.in_ctx.address;
        let input: u64 = base + self.context_size();
        let dev_info: u32 = if hub.multi_tt {
            slot[0] | DEV_HUB | DEV_MTT
        } else {
            (slot[0] | DEV_HUB) & !DEV_MTT
        };
        let tt_info: u32 = if device.placement.speed == UsbSpeed::High {
            slot[2] | (hub.tt_think_time as u32 * 0x1_0000)
        } else {
            slot[2]
        };
        ops.push(IoOp::Zero { address: base, size: device.in_ctx.size });
        ops.push(IoOp::Copy { from: device.out_ctx.address, to: input, size: 32 });
        ops.push(IoOp::Write { address: base, value: 0 });
        ops.push(IoOp::Write { address: base + 4, value: 1 });
        ops.push(IoOp::Write { address: input, value: dev_info });
        ops.push(
            IoOp::Write {
                address: input + 4,
                value: slot[1] | (hub.num_ports as u32 * 0x100_0000),
            },
        );
        ops.push(IoOp::Write { address: input + 8, value: tt_info });
        ops.push(IoOp::Write { address: input + 12, value: 0 });
        ops.push(device.in_ctx.clean());
        assert(ops@ =~= old(ops)@ + old(self).hub_context_ops(device, *hub, slot@));
        self.queue_command(
            device.in_ctx.to_bus(self.dma_offset),
            device.placement.slot_id,
            0,
            TRB_CONFIG_EP,
            ops,
        );
        assert(ops@ =~= old(ops)@ + (old(self).hub_context_ops(device, *hub, slot@) + old(
            self,
        ).command_ops(
            device.in_ctx.bus_address(old(self).dma_offset),
            device.placement.slot_id,
            0,
            TRB_CONFIG_EP,
        )));
    }

    /// The regions of the two bulk rings, as far as there is memory, and the free memory without
    /// them.
    pub open spec fn bulk_allocation(memory: FreeMemory) -> (Seq<DmaRegion>, FreeMemory) {
        crate::dma::regions_allocated(memory, seq![1024u64, 1024u64])
    }

    /// The accesses that prepare a ring.
    pub open spec fn ring_ops(&self, region: DmaRegion) -> Seq<IoOp> {
        region.prepare_ops() + TrbRing::fresh(region).store_ops(
            63,
            TrbRing::link_trb(region, self.dma_offset),
        )
    }

    /// The accesses that describe the bulk endpoints to the controller. `dev_info` is the first word
    /// of the slot context that the controller keeps.
    pub open spec fn endpoint_context_ops(
        &self,
        device: &XhciDevice,
        configuration: MassStorageConfiguration,
        dev_info: u32,
        out_ring: Ring,
        in_ring: Ring,
    ) -> Seq<IoOp> {
        let out_index = crate::drivers::xhci::descriptor::index_of_endpoint(
            configuration.bulk_out_ep,
        );
        let in_index = crate::drivers::xhci::descriptor::index_of_endpoint(
            configuration.bulk_in_ep,
        );
        seq![
            IoOp::Zero { address: device.in_ctx.address, size: device.in_ctx.size },
            IoOp::Copy {
                from: device.out_ctx.address,
                to: self.input_slot(device) as u64,
                size: 32,
            },
            IoOp::Copy {
                from: (device.out_ctx.address + self.context_bytes()) as u64,
                to: self.input_endpoint(device, 0) as u64,
                size: 32,
            },
            IoOp::Write { address: device.in_ctx.address, value: 0 },
            IoOp::Write {
                address: (device.in_ctx.address + 4) as u64,
                value: 1 | (1u32 << ((out_index + 1) as u32)) | (1u32 << ((in_index + 1) as u32)),
            },
            IoOp::Write {
                address: self.input_slot(device) as u64,
                value: (dev_info % 0x800_0000 + 0x800_0000 * (configuration.max_ep_index + 1))
                    as u32,
            },
        ] + endpoint_ops(
            self.input_endpoint(device, out_index),
            endpoint_info(2, configuration.max_packet_out, configuration.max_burst_out as int),
            dequeue_of(out_ring, self.dma_offset),
            configuration.max_packet_out as u32,
        ) + endpoint_ops(
            self.input_endpoint(device, in_index),
            endpoint_info(6, configuration.max_packet_in, configuration.max_burst_in as int),
            dequeue_of(in_ring, self.dma_offset),
            configuration.max_packet_in as u32,
        ) + seq![device.in_ctx.clean_op()]
    }

    /// Allocates the rings of the bulk endpoints.
    fn allocate_bulk_rings(
        &self,
        device: &mut XhciDevice,
        allocator: &mut MemoryAllocator,
        ops: &mut Vec<IoOp>,
    ) -> (result: Result<(), ()>)
        requires
            self.wf(),
            old(device).wf(self),
            old(allocator).wf(),
        ensures
            final(device).wf(self),
            final(allocator).wf(),
            ({
                let allocation = Self::bulk_allocation(old(allocator)@);
                &&& final(allocator)@ == allocation.1
                &&& final(device).placement == old(device).placement
                &&& final(device).ep0_max_packet == old(device).ep0_max_packet
                &&& final(device).out_ctx == old(device).out_ctx
                &&& final(device).in_ctx == old(device).in_ctx
                &&& final(device).ep0_ring == old(device).ep0_ring
                &&& result is Ok <==> allocation.0.len() == 2
                &&& if allocation.0.len() == 2 {
                    &&& final(device).bulk_out_ring matches Some(ring) && ring@ == TrbRing::fresh(
                        allocation.0[0],
                    )
                    &&& final(device).bulk_in_ring matches Some(ring) && ring@ == TrbRing::fresh(
                        allocation.0[1],
                    )
                    &&& final(ops)@ == old(ops)@ + self.ring_ops(allocation.0[0])
                        + self.ring_ops(allocation.0[1])
                } else {
                    &&& final(device).bulk_out_ring == old(device).bulk_out_ring
                    &&& final(device).bulk_in_ring == old(device).bulk_in_ring
                    &&& final(ops)@ == old(ops)@ + if allocation.0.len() == 1 {
                        self.ring_ops(allocation.0[0])
                    } else {
                        Seq::empty()
                    }
                }
            }),
    {
        let ghost memory = allocator@;
        let ghost first = ops@;
        assert(first + Seq::<IoOp>::empty() =~= first);
        proof {
            crate::allocator_laws::allocator_is_consistent(*allocator);
            reveal_with_fuel(crate::dma::regions_allocated, 3);
            assert(seq![1024u64, 1024u64].drop_last() =~= seq![1024u64]);
            assert(seq![1024u64].drop_last() =~= Seq::empty());
        }
        let out_region: DmaRegion = match DmaRegion::new(allocator, 1024, 12, ops) {
            Ok(region) => region,
            Err(_) => {
                return Err(());
            },
        };
        proof {
            crate::drivers::xhci::controller::lemma_region_fits(memory, 1, 12, self.dma_offset);
        }
        let bulk_out_ring: TrbRing = TrbRing::new(out_region, self.dma_offset, ops);
        assert(ops@ =~= first + self.ring_ops(out_region));
        let ghost second = ops@;
        let ghost memory1 = allocator@;
        let in_region: DmaRegion = match DmaRegion::new(allocator, 1024, 12, ops) {
            Ok(region) => region,
            Err(_) => {
                return Err(());
            },
        };
        proof {
            crate::drivers::xhci::controller::lemma_region_fits(memory1, 1, 12, self.dma_offset);
        }
        let bulk_in_ring: TrbRing = TrbRing::new(in_region, self.dma_offset, ops);
        assert(ops@ =~= second + self.ring_ops(in_region));
        device.bulk_out_ring = Some(bulk_out_ring);
        device.bulk_in_ring = Some(bulk_in_ring);
        Ok(())
    }

    /// Hands the controller the command that sets up the bulk endpoints of a device.
    pub fn configure_mass_storage_endpoints(
        &mut self,
        device: &mut XhciDevice,
        configuration: &MassStorageConfiguration,
        dev_info: u32,
        allocator: &mut MemoryAllocator,
        ops: &mut Vec<IoOp>,
    ) -> (result: Result<(usize, usize), ()>)
        requires
            old(self).wf(),
            old(device).wf(old(self)),
            old(allocator).wf(),
            configuration.max_ep_index <= 30,
        ensures
            final(self).wf(),
            final(device).wf(final(self)),
            final(allocator).wf(),
            final(self).same_controller(old(self)),
            final(self).same_scratchpads(old(self)),
            final(self).event_ring == old(self).event_ring,
            final(device).placement == old(device).placement,
            final(device).ep0_max_packet == old(device).ep0_max_packet,
            final(device).out_ctx == old(device).out_ctx,
            final(device).in_ctx == old(device).in_ctx,
            final(device).ep0_ring == old(device).ep0_ring,
            ({
                let allocation = Self::bulk_allocation(old(allocator)@);
                let bus = old(device).in_ctx.bus_address(old(self).dma_offset);
                let slot = old(device).placement.slot_id;
                &&& final(allocator)@ == allocation.1
                &&& if allocation.0.len() == 2 {
                    let out_ring = TrbRing::fresh(allocation.0[0]);
                    let in_ring = TrbRing::fresh(allocation.0[1]);
                    &&& result matches Ok(indices) && indices.0
                        == crate::drivers::xhci::descriptor::index_of_endpoint(
                        configuration.bulk_out_ep,
                    ) && indices.1 == crate::drivers::xhci::descriptor::index_of_endpoint(
                        configuration.bulk_in_ep,
                    )
                    &&& final(device).bulk_out_ring matches Some(ring) && ring@ == out_ring
                    &&& final(device).bulk_in_ring matches Some(ring) && ring@ == in_ring
                    &&& final(self).command_ring@ == old(self).command_ring@.pushed(
                        old(self).command_trb(bus, slot, 0, TRB_CONFIG_EP),
                    )
                    &&& final(ops)@ == old(ops)@ + old(self).ring_ops(allocation.0[0]) + old(
                        self,
                    ).ring_ops(allocation.0[1]) + (old(self).endpoint_context_ops(
                        old(device),
                        *configuration,
                        dev_info,
                        out_ring,
                        in_ring,
                    ) + old(self).command_ops(bus, slot, 0, TRB_CONFIG_EP))
                } else {
                    &&& result is Err
                    &&& final(self).command_ring == old(self).command_ring
                    &&& final(device).bulk_out_ring == old(device).bulk_out_ring
                    &&& final(device).bulk_in_ring == old(device).bulk_in_ring
                    &&& final(ops)@ == old(ops)@ + if allocation.0.len() == 1 {
                        old(self).ring_ops(allocation.0[0])
                    } else {
                        Seq::empty()
                    }
                }
            }),
    {
        let ghost before = *device;
        let bulk_out_index: usize = crate::drivers::xhci::descriptor::endpoint_index(
            configuration.bulk_out_ep,
        );
        let bulk_in_index: usize = crate::drivers::xhci::descriptor::endpoint_index(
            configuration.bulk_in_ep,
        );
        if self.allocate_bulk_rings(device, allocator, ops).is_err() {
            return Err(());
        }
        let ghost second = ops@;
        let (out_dequeue, in_dequeue): (u64, u64) = match (
            &device.bulk_out_ring,
            &device.bulk_in_ring,
        ) {
            (Some(out_ring), Some(in_ring)) => (
                out_ring.region.to_bus(self.dma_offset) | (out_ring.cycle_state as u64),
                in_ring.region.to_bus(self.dma_offset) | (in_ring.cycle_state as u64),
            ),
            _ => {
                return Err(());
            },
        };
        let size: u64 = self.context_size();
        let base: u64 = device.in_ctx.address;
        ops.push(IoOp::Zero { address: base, size: device.in_ctx.size });
        ops.push(IoOp::Copy { from: device.out_ctx.address, to: base + size, size: 32 });
        ops.push(
            IoOp::Copy { from: device.out_ctx.address + size, to: base + 2 * size, size: 32 },
        );
        ops.push(IoOp::Write { address: base, value: 0 });
        ops.push(
            IoOp::Write {
                address: base + 4,
                value: 1 | (1u32 << ((bulk_out_index + 1) as u32)) | (1u32 << ((bulk_in_index + 1)
                    as u32)),
            },
        );
        ops.push(
            IoOp::Write {
                address: base + size,
                value: dev_info % 0x800_0000 + 0x800_0000 * (configuration.max_ep_index as u32 + 1),
            },
        );
        let out_info: u32 = 2 * 8 + 0x1_0000 * (configuration.max_packet_out as u32) + 0x100 * (
        configuration.max_burst_out as u32) + 6;
        let in_info: u32 = 6 * 8 + 0x1_0000 * (configuration.max_packet_in as u32) + 0x100 * (
        configuration.max_burst_in as u32) + 6;
        proof {
            assert((bulk_out_index + 2) * size <= 32 * size) by (nonlinear_arith)
                requires
                    bulk_out_index <= 30,
                    size >= 0,
            ;
            assert((bulk_in_index + 2) * size <= 32 * size) by (nonlinear_arith)
                requires
                    bulk_in_index <= 30,
                    size >= 0,
            ;
            assert(0 <= (bulk_out_index + 2) * size) by (nonlinear_arith)
                requires
                    size >= 0,
            ;
            assert(0 <= (bulk_in_index + 2) * size) by (nonlinear_arith)
                requires
                    size >= 0,
            ;
        }
        write_endpoint(
            ops,
            base + (bulk_out_index as u64 + 2) * size,
            out_info,
            out_dequeue,
            configuration.max_packet_out as u32,
        );
        write_endpoint(
            ops,
            base + (bulk_in_index as u64 + 2) * size,
            in_info,
            in_dequeue,
            configuration.max_packet_in as u32,
        );
        ops.push(device.in_ctx.clean());
        assert(ops@ =~= second + old(self).endpoint_context_ops(
            &before,
            *configuration,
            dev_info,
            device.bulk_out_ring->0@,
            device.bulk_in_ring->0@,
        ));
        self.queue_command(
            device.in_ctx.to_bus(self.dma_offset),
            device.placement.slot_id,
            0,
            TRB_CONFIG_EP,
            ops,
        );
        assert(ops@ =~= second + (old(self).endpoint_context_ops(
            &before,
            *configuration,
            dev_info,
            device.bulk_out_ring->0@,
            device.bulk_in_ring->0@,
        ) + old(self).command_ops(
            device.in_ctx.bus_address(old(self).dma_offset),
            device.placement.slot_id,
            0,
            TRB_CONFIG_EP,
        )));
        Ok((bulk_out_index, bulk_in_index))
    }
}

} // verus!
