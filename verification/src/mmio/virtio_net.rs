//! Virtio-Net MMIO emulation.
//!
//! Presents a legacy Virtio-Net device (2 VirtQueues: RX=0, TX=1) to the guest. Outgoing packets
//! (TX) are handed one by one to the physical backend. Incoming packets (RX) are put into the
//! buffers that the guest has posted.

use crate::drivers::virtio::{
    VirtQueueDesc, VIRTIO_CONFIG_OFFSET, VIRTIO_MMIO_DEVICE_FEATURES, VIRTIO_MMIO_DEVICE_ID,
    VIRTIO_MMIO_INTERRUPT_STATUS, VIRTIO_MMIO_MAGIC, VIRTIO_MMIO_MAGIC_VALUE,
    VIRTIO_MMIO_QUEUE_NOTIFY, VIRTIO_MMIO_QUEUE_NUM_MAX, VIRTIO_MMIO_QUEUE_PFN, VIRTIO_MMIO_STATUS,
    VIRTIO_MMIO_VENDOR_ID, VIRTIO_MMIO_VERSION, VIRT_QUEUE_DESC_FLAGS_NEXT,
};
use crate::guest_ram::{GuestRam, Ram};
use crate::mmio::gicv2::GicDistributorMmio;
use crate::mmio::virtio::{QueueState, VirtioDevice, VirtioMmio, GUEST_QUEUE_SIZE};
use crate::vgic::CpuInterface;
use vstd::prelude::*;

verus! {

/// Guest-visible virtual interrupt used to signal this device. Must match the `interrupts`
/// property of its DTB node (SPI 17 -> INTID 32 + 17 = 49).
pub const VIRTIO_NET_INT_ID: u32 = 49;

/// Legacy virtio-net header size (VIRTIO_NET_F_MRG_RXBUF not negotiated).
pub const VIRTIO_NET_HDR_SIZE: usize = 10;

/// Host has given MAC address.
pub const VIRTIO_NET_F_MAC: u32 = 0x20;

pub const QUEUE_INDEX_RX: usize = 0;

pub const QUEUE_INDEX_TX: usize = 1;

pub struct VirtioNetMmio {
    pub mac: [u8; 6],
    pub device: VirtioMmio,
}

/// What the next entry of the TX queue asks for.
#[derive(Clone, Copy, PartialEq, Eq, Debug, Structural)]
pub enum TxStep {
    /// There is no further entry.
    Idle,
    /// The queue cannot be read.
    Broken,
    /// The entry has no payload.
    Skipped,
    /// A frame has to be sent. There is no address where its buffer is not the guest's.
    Frame { address: Option<u64>, length: u32, descriptor_id: u16, total_length: u32 },
}

/// The TX queue and what its next entry asks for, once the entry is taken.
pub open spec fn tx_step(queue: QueueState, ram: Ram) -> (QueueState, TxStep) {
    let after = queue.taken(ram);
    match queue.next_available(ram) {
        None => (after, TxStep::Idle),
        Some(id) => match queue.descriptor_id(ram, id) {
            None => (after, TxStep::Broken),
            Some(descriptor_id) => match queue.descriptor_at(ram, descriptor_id) {
                None => (after, TxStep::Broken),
                Some(header) => if header.flags & 1 == 0 {
                    (after, TxStep::Skipped)
                } else {
                    match queue.descriptor_at(ram, header.next) {
                        None => (after, TxStep::Broken),
                        Some(data) => (
                            after,
                            TxStep::Frame {
                                address: ram.physical_address(data.address),
                                length: data.length,
                                descriptor_id,
                                total_length: header.length.wrapping_add(data.length),
                            },
                        ),
                    }
                },
            },
        },
    }
}

/// The buffer that a packet of `length` bytes goes to: the descriptor and the address of the next
/// entry of the RX queue, where that is large enough and the guest's.
pub open spec fn rx_buffer(queue: QueueState, ram: Ram, length: int) -> Option<(u16, u64)> {
    match queue.next_available(ram) {
        None => None,
        Some(id) => match queue.descriptor_id(ram, id) {
            None => None,
            Some(descriptor_id) => match queue.descriptor_at(ram, descriptor_id) {
                None => None,
                Some(descriptor) => match ram.physical_address(descriptor.address) {
                    None => None,
                    Some(address) => if descriptor.length >= 10 + length && ram.holds(
                        address as int,
                        10 + length,
                    ) {
                        Some((descriptor_id, address))
                    } else {
                        None
                    },
                },
            },
        },
    }
}

/// The RX queue and the memory once a packet arrived: an all-zero header and the packet are in the
/// buffer, which is handed back. A packet without a buffer is dropped.
pub open spec fn rx_delivered(queue: QueueState, ram: Ram, data: Seq<u8>) -> (QueueState, Ram) {
    match rx_buffer(queue, ram, data.len() as int) {
        Some((descriptor_id, address)) => queue.taken(ram).used(
            ram.copied(address as int, Seq::new(10, |i: int| 0u8)).copied(address + 10, data),
            descriptor_id,
            (10 + data.len()) as u32,
        ),
        None => (queue.taken(ram), ram),
    }
}

/// What the guest reads at `offset`.
pub open spec fn read_value(mac: Seq<u8>, device: VirtioDevice, offset: int) -> u64 {
    if offset == VIRTIO_MMIO_MAGIC {
        0x7472_6976
    } else if offset == VIRTIO_MMIO_VERSION {
        1
    } else if offset == VIRTIO_MMIO_DEVICE_ID {
        1
    } else if offset == VIRTIO_MMIO_VENDOR_ID {
        0x554d_4551
    } else if offset == VIRTIO_MMIO_DEVICE_FEATURES {
        if device.device_features_sel == 0 {
            0x20
        } else {
            0
        }
    } else if offset == VIRTIO_MMIO_QUEUE_NUM_MAX {
        32
    } else if offset == VIRTIO_MMIO_QUEUE_PFN {
        device.queues[device.queue_sel].descriptor / device.page_size
    } else if offset == VIRTIO_MMIO_INTERRUPT_STATUS {
        device.interrupt_status as u64
    } else if offset == VIRTIO_MMIO_STATUS {
        device.status as u64
    } else if VIRTIO_CONFIG_OFFSET <= offset < VIRTIO_CONFIG_OFFSET + 6 {
        mac[offset - VIRTIO_CONFIG_OFFSET] as u64
    } else if offset == VIRTIO_CONFIG_OFFSET + 6 {
        1
    } else {
        0
    }
}

impl VirtioNetMmio {
    pub open spec fn wf(&self) -> bool {
        self.device.wf()
    }

    pub fn new(mac: [u8; 6]) -> (net: Self)
        ensures
            net.wf(),
            net.mac == mac,
            net.device@ == VirtioDevice::reset(),
    {
        Self { mac, device: VirtioMmio::new() }
    }

    /// A frame has arrived. Puts it into the next buffer of the guest's RX queue.
    pub fn push_rx(
        &mut self,
        ram: &mut GuestRam,
        data: &[u8],
        distributor: &mut GicDistributorMmio,
        cpu: &mut CpuInterface,
    )
        requires
            old(self).wf(),
            old(self).device@.queues[0].is_usable(),
            old(ram)@.valid(),
        ensures
            final(self).wf(),
            final(self).mac == old(self).mac,
            ({
                let queue = old(self).device@.queues[0];
                let (after, memory) = rx_delivered(queue, old(ram)@, data@);
                let device = old(self).device@.with_queue(0, after);
                &&& final(ram)@ == memory
                &&& if rx_buffer(queue, old(ram)@, data@.len() as int) is Some {
                    let raised = old(distributor)@.triggered(
                        old(cpu)@,
                        49,
                        None,
                        old(distributor).own_target,
                        0,
                        false,
                    );
                    &&& final(self).device@ == device.with_interrupt()
                    &&& final(distributor)@ == raised.0
                    &&& final(cpu)@ == raised.1
                } else {
                    &&& final(self).device@ == device
                    &&& final(distributor)@ == old(distributor)@
                    &&& final(cpu)@ == old(cpu)@
                }
            }),
    {
        let ghost before = self.device@;
        let mut queue: QueueState = self.device.queues[QUEUE_INDEX_RX];
        let ghost start = queue;
        let next: Option<u16> = queue.get_next_avail_id(ram);
        self.device.queues[QUEUE_INDEX_RX] = queue;
        assert(self.device@ =~= before.with_queue(0, start.taken(ram@)));
        let id: u16 = match next {
            Some(id) => id,
            None => {
                return;
            },
        };
        let descriptor_id: u16 = match queue.get_descriptor_id(ram, id) {
            Some(descriptor_id) => descriptor_id,
            None => {
                return;
            },
        };
        let descriptor: VirtQueueDesc = match queue.get_descriptor(ram, descriptor_id) {
            Some(descriptor) => descriptor,
            None => {
                return;
            },
        };
        let length: u64 = data.len() as u64;
        if length > 0xFFFF_FFFF || (descriptor.length as u64) < VIRTIO_NET_HDR_SIZE as u64 + length {
            return;
        }
        let address: u64 = match ram.get_physical_address(descriptor.address) {
            Some(address) => address,
            None => {
                return;
            },
        };
        if !ram.contains(address, VIRTIO_NET_HDR_SIZE as u64 + length) {
            return;
        }
        let header: [u8; 10] = [0; 10];
        assert(header@ =~= Seq::new(10, |i: int| 0u8));
        ram.write_bytes(address, &header);
        ram.write_bytes(address + VIRTIO_NET_HDR_SIZE as u64, data);
        queue.write_used(ram, descriptor_id, (VIRTIO_NET_HDR_SIZE as u64 + length) as u32);
        self.device.queues[QUEUE_INDEX_RX] = queue;
        self.device.interrupt_status = self.device.interrupt_status | 1;
        assert(self.device@ =~= before.with_queue(0, queue).with_interrupt());
        let _ = distributor.trigger_interrupt(cpu, VIRTIO_NET_INT_ID, None);
    }

    /// Takes the next entry of the TX queue. The guest's notification is handled by taking entries,
    /// sending each frame and handing its buffer back, until there is no further one.
    pub fn next_tx(&mut self, ram: &GuestRam) -> (step: TxStep)
        requires
            old(self).wf(),
            old(self).device@.queues[1].is_usable(),
            ram@.valid(),
        ensures
            final(self).wf(),
            final(self).mac == old(self).mac,
            final(self).device@ == old(self).device@.with_queue(
                1,
                tx_step(old(self).device@.queues[1], ram@).0,
            ),
            step == tx_step(old(self).device@.queues[1], ram@).1,
    {
        let ghost before = self.device@;
        let mut queue: QueueState = self.device.queues[QUEUE_INDEX_TX];
        let ghost start = queue;
        let next: Option<u16> = queue.get_next_avail_id(ram);
        self.device.queues[QUEUE_INDEX_TX] = queue;
        assert(self.device@ =~= before.with_queue(1, start.taken(ram@)));
        let id: u16 = match next {
            Some(id) => id,
            None => {
                return TxStep::Idle;
            },
        };
        let descriptor_id: u16 = match queue.get_descriptor_id(ram, id) {
            Some(descriptor_id) => descriptor_id,
            None => {
                return TxStep::Broken;
            },
        };
        let header: VirtQueueDesc = match queue.get_descriptor(ram, descriptor_id) {
            Some(header) => header,
            None => {
                return TxStep::Broken;
            },
        };
        if (header.flags & VIRT_QUEUE_DESC_FLAGS_NEXT) == 0 {
            return TxStep::Skipped;
        }
        let data: VirtQueueDesc = match queue.get_descriptor(ram, header.next) {
            Some(data) => data,
            None => {
                return TxStep::Broken;
            },
        };
        TxStep::Frame {
            address: ram.get_physical_address(data.address),
            length: data.length,
            descriptor_id,
            total_length: header.length.wrapping_add(data.length),
        }
    }

    /// Hands the buffer of a frame back to the guest.
    pub fn finish_tx(&mut self, ram: &mut GuestRam, descriptor_id: u16, total_length: u32)
        requires
            old(self).wf(),
            old(self).device@.queues[1].ring_size() != 0,
            old(ram)@.valid(),
        ensures
            final(self).wf(),
            final(self).mac == old(self).mac,
            ({
                let (queue, memory) = old(self).device@.queues[1].used(
                    old(ram)@,
                    descriptor_id,
                    total_length,
                );
                &&& final(self).device@ == old(self).device@.with_queue(1, queue)
                &&& final(ram)@ == memory
            }),
    {
        let ghost before = self.device@;
        let mut queue: QueueState = self.device.queues[QUEUE_INDEX_TX];
        queue.write_used(ram, descriptor_id, total_length);
        self.device.queues[QUEUE_INDEX_TX] = queue;
        assert(self.device@ =~= before.with_queue(1, queue));
    }

    /// Tells the guest that the TX queue was worked off.
    pub fn end_tx(&mut self, distributor: &mut GicDistributorMmio, cpu: &mut CpuInterface)
        requires
            old(self).wf(),
        ensures
            final(self).wf(),
            final(self).mac == old(self).mac,
            final(self).device@ == old(self).device@.with_interrupt(),
            ({
                let raised = old(distributor)@.triggered(
                    old(cpu)@,
                    49,
                    None,
                    old(distributor).own_target,
                    0,
                    false,
                );
                final(distributor)@ == raised.0 && final(cpu)@ == raised.1
            }),
    {
        self.device.interrupt_status = self.device.interrupt_status | 1;
        let _ = distributor.trigger_interrupt(cpu, VIRTIO_NET_INT_ID, None);
    }

    /// Handles a read of the guest.
    pub fn read(&self, offset: usize, _access_width: u64) -> (result: Result<u64, ()>)
        requires
            self.wf(),
            offset == VIRTIO_MMIO_QUEUE_PFN ==> self.device.page_size > 0,
        ensures
            result == Ok::<u64, ()>(read_value(self.mac@, self.device@, offset as int)),
    {
        let mut value: u64 = 0;
        if offset == VIRTIO_MMIO_MAGIC {
            value = VIRTIO_MMIO_MAGIC_VALUE as u64;
        } else if offset == VIRTIO_MMIO_VERSION {
            value = 0x01;
        } else if offset == VIRTIO_MMIO_DEVICE_ID {
            value = 0x01;
        } else if offset == VIRTIO_MMIO_VENDOR_ID {
            value = 0x554d_4551;
        } else if offset == VIRTIO_MMIO_DEVICE_FEATURES {
            value = if self.device.device_features_sel == 0 {
                VIRTIO_NET_F_MAC as u64
            } else {
                0
            };
        } else if offset == VIRTIO_MMIO_QUEUE_NUM_MAX {
            value = GUEST_QUEUE_SIZE;
        } else if offset == VIRTIO_MMIO_QUEUE_PFN {
            value = self.device.queue_pfn();
        } else if offset == VIRTIO_MMIO_INTERRUPT_STATUS {
            value = self.device.interrupt_status as u64;
        } else if offset == VIRTIO_MMIO_STATUS {
            value = self.device.status as u64;
        } else if offset >= VIRTIO_CONFIG_OFFSET {
            let config_offset: usize = offset - VIRTIO_CONFIG_OFFSET;
            if config_offset < 6 {
                value = self.mac[config_offset] as u64;
            } else if config_offset == 6 {
                /* virtio_net_config.status: link is always up */
                value = 1;
            }
        }
        Ok(value)
    }

    /// Handles a write of the guest. Tells whether the guest notified the TX queue.
    pub fn write(&mut self, ram: &GuestRam, offset: usize, _access_width: u64, value: u64) -> (result:
        Result<bool, ()>)
        requires
            old(self).wf(),
            ram@.valid(),
            old(self).device@.can_write(ram@, offset as int, value),
        ensures
            final(self).wf(),
            final(self).mac == old(self).mac,
            final(self).device@ == old(self).device@.written(ram@, offset as int, value),
            result == Ok::<bool, ()>(offset == VIRTIO_MMIO_QUEUE_NOTIFY && value == 1),
    {
        self.device.write(ram, offset, value);
        Ok(offset == VIRTIO_MMIO_QUEUE_NOTIFY && value == QUEUE_INDEX_TX as u64)
    }
}

/// A delivered packet reads back from the guest's buffer, behind a header of zeros, as long as the
/// used ring is not in the buffer itself.
pub proof fn delivered_packet_reads_back(queue: QueueState, ram: Ram, data: Seq<u8>, i: int)
    requires
        ram.valid(),
        rx_buffer(queue, ram, data.len() as int) is Some,
        0 <= i < 10 + data.len(),
        ({
            let (_, address) = rx_buffer(queue, ram, data.len() as int)->0;
            let after = queue.taken(ram);
            let place = address + i;
            &&& !(after.used_ring + 2 <= place < after.used_ring + 4)
            &&& !(after.used_address() <= place < after.used_address() + 8)
        }),
    ensures
        ({
            let (_, address) = rx_buffer(queue, ram, data.len() as int)->0;
            let (_, memory) = rx_delivered(queue, ram, data);
            memory.bytes[address + i - ram.physical_base] == if i < 10 {
                0u8
            } else {
                data[i - 10]
            }
        }),
{
    let (descriptor_id, address) = rx_buffer(queue, ram, data.len() as int)->0;
    let after = queue.taken(ram);
    let header = ram.copied(address as int, Seq::new(10, |j: int| 0u8));
    let filled = header.copied(address + 10, data);
    let next = QueueState { used_id: after.used_id.wrapping_add(1), ..after };
    assert(filled.bytes[address + i - ram.physical_base] == if i < 10 {
        0u8
    } else {
        data[i - 10]
    });
    if after.can_use(filled) {
        let a = after.used_address();
        let one = filled.stored(a, 4, descriptor_id as int);
        crate::guest_ram::lemma_stored_frame(filled, a, 4, descriptor_id as int);
        let two = one.stored(a + 4, 4, (10 + data.len()) as u32 as int);
        crate::guest_ram::lemma_stored_frame(one, a + 4, 4, (10 + data.len()) as u32 as int);
        crate::guest_ram::lemma_stored_frame(two, after.used_ring + 2, 2, next.used_id as int);
    }
}

} // verus!
