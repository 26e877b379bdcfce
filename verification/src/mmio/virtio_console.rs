//! Virtio-Console MMIO emulation.
//!
//! Presents a legacy Virtio-Console device (2 VirtQueues: RX=0 host->guest, TX=1 guest->host) to the
//! guest. Unlike the emulated PL011, which traps twice per character, console output is batched in
//! the buffers of a VirtQueue: the guest notifies once per batch.

use crate::drivers::virtio::{
    VirtQueueDesc, VIRTIO_MMIO_DEVICE_FEATURES, VIRTIO_MMIO_DEVICE_ID,
    VIRTIO_MMIO_INTERRUPT_STATUS, VIRTIO_MMIO_MAGIC, VIRTIO_MMIO_MAGIC_VALUE,
    VIRTIO_MMIO_QUEUE_NOTIFY, VIRTIO_MMIO_QUEUE_NUM_MAX, VIRTIO_MMIO_QUEUE_PFN, VIRTIO_MMIO_STATUS,
    VIRTIO_MMIO_VENDOR_ID, VIRTIO_MMIO_VERSION,
};
use crate::guest_ram::{GuestRam, Ram};
use crate::mmio::gicv2::GicDistributorMmio;
use crate::mmio::virtio::{QueueState, VirtioDevice, VirtioMmio, GUEST_QUEUE_SIZE};
use crate::vgic::CpuInterface;
use vstd::prelude::*;

verus! {

/// Guest-visible virtual interrupt used to signal this device. Must match the `interrupts`
/// property of its DTB node (SPI 18 -> INTID 32 + 18 = 50).
pub const VIRTIO_CONSOLE_INT_ID: u32 = 50;

/// virtio-console device ID.
pub const VIRTIO_ID_CONSOLE: u32 = 3;

pub const QUEUE_INDEX_RX: usize = 0;

pub const QUEUE_INDEX_TX: usize = 1;

/// Bytes of guest input held when the guest has no RX buffer posted yet.
pub const RX_STAGING_SIZE: usize = 256;

pub struct VirtioConsoleMmio {
    pub device: VirtioMmio,
    /// Input that arrived while the guest had no RX buffer posted.
    pub rx_staging: Vec<u8>,
}

/// What the guests have put out so far.
#[derive(Clone, Copy, PartialEq, Eq, Debug, Structural)]
pub struct ConsoleCounters {
    pub tx_bufs: u64,
    pub tx_bytes: u64,
}

impl ConsoleCounters {
    pub open spec fn counted(self, length: u32) -> ConsoleCounters {
        ConsoleCounters {
            tx_bufs: self.tx_bufs.wrapping_add(1),
            tx_bytes: self.tx_bytes.wrapping_add(length as u64),
        }
    }

    pub fn new() -> (counters: Self)
        ensures
            counters == (ConsoleCounters { tx_bufs: 0, tx_bytes: 0 }),
    {
        Self { tx_bufs: 0, tx_bytes: 0 }
    }
}

/// What was done with the next entry of the TX queue.
pub enum ConsoleStep {
    /// There is no further entry.
    Idle,
    /// The queue or its buffer cannot be read.
    Broken,
    /// The entry is worked off: this is its text.
    Output(Vec<u8>),
}

/// The buffer that the next byte of input goes to.
pub open spec fn rx_slot(queue: QueueState, ram: Ram) -> Option<(u16, u64)> {
    match queue.next_available(ram) {
        None => None,
        Some(id) => match queue.descriptor_id(ram, id) {
            None => None,
            Some(descriptor_id) => match queue.descriptor_at(ram, descriptor_id) {
                None => None,
                Some(descriptor) => match ram.physical_address(descriptor.address) {
                    None => None,
                    Some(address) => if descriptor.length == 0 {
                        None
                    } else {
                        Some((descriptor_id, address))
                    },
                },
            },
        },
    }
}

/// The queue and the memory once `byte` is delivered.
pub open spec fn rx_put(queue: QueueState, ram: Ram, byte: u8) -> (QueueState, Ram) {
    match rx_slot(queue, ram) {
        None => (queue.taken(ram), ram),
        Some((descriptor_id, address)) => queue.taken(ram).used(
            ram.copied(address as int, seq![byte]),
            descriptor_id,
            1,
        ),
    }
}

/// The queue, the memory and the input that is left once the staged input is delivered, one byte
/// per buffer, as far as the guest has posted buffers.
pub open spec fn flushed(queue: QueueState, ram: Ram, staged: Seq<u8>) -> (
    QueueState,
    Ram,
    Seq<u8>,
)
    decreases staged.len(),
{
    if staged.len() == 0 {
        (queue, ram, staged)
    } else {
        let (after, memory) = rx_put(queue, ram, staged[0]);
        if rx_slot(queue, ram) is Some {
            flushed(after, memory, staged.skip(1))
        } else {
            (after, memory, staged)
        }
    }
}

/// The staged input with one more byte, which is dropped where there is no room.
pub open spec fn staged_with(staged: Seq<u8>, byte: u8) -> Seq<u8> {
    if staged.len() < 256 {
        staged.push(byte)
    } else {
        staged
    }
}

/// The bytes and the length of the next entry of the TX queue, with its descriptor.
pub open spec fn tx_buffer(queue: QueueState, ram: Ram) -> Option<(u16, Seq<u8>)> {
    match queue.next_available(ram) {
        None => None,
        Some(id) => match queue.descriptor_id(ram, id) {
            None => None,
            Some(descriptor_id) => match queue.descriptor_at(ram, descriptor_id) {
                None => None,
                Some(descriptor) => match ram.physical_address(descriptor.address) {
                    None => None,
                    Some(address) => if ram.holds(address as int, descriptor.length as int) {
                        let start = address - ram.physical_base;
                        Some(
                            (
                                descriptor_id,
                                ram.bytes.subrange(start, start + descriptor.length),
                            ),
                        )
                    } else {
                        None
                    },
                },
            },
        },
    }
}

/// What the guest reads at `offset`.
pub open spec fn read_value(device: VirtioDevice, offset: int) -> u64 {
    if offset == VIRTIO_MMIO_MAGIC {
        0x7472_6976
    } else if offset == VIRTIO_MMIO_VERSION {
        1
    } else if offset == VIRTIO_MMIO_DEVICE_ID {
        3
    } else if offset == VIRTIO_MMIO_VENDOR_ID {
        0x554d_4551
    } else if offset == VIRTIO_MMIO_QUEUE_NUM_MAX {
        32
    } else if offset == VIRTIO_MMIO_QUEUE_PFN {
        device.queues[device.queue_sel].descriptor / device.page_size
    } else if offset == VIRTIO_MMIO_INTERRUPT_STATUS {
        device.interrupt_status as u64
    } else if offset == VIRTIO_MMIO_STATUS {
        device.status as u64
    } else {
        0
    }
}

/// What a write of the guest asks for besides.
#[derive(Clone, Copy, PartialEq, Eq, Debug, Structural)]
pub enum ConsoleNotice {
    Nothing,
    /// The guest has put out text: the TX queue is to be worked off.
    Transmit,
    /// The guest has posted RX buffers: the staged input is to be delivered.
    Receive,
}

pub open spec fn notice_of(offset: int, value: u64) -> ConsoleNotice {
    if offset == VIRTIO_MMIO_QUEUE_NOTIFY && value == 1 {
        ConsoleNotice::Transmit
    } else if offset == VIRTIO_MMIO_QUEUE_NOTIFY && value == 0 {
        ConsoleNotice::Receive
    } else {
        ConsoleNotice::Nothing
    }
}

impl VirtioConsoleMmio {
    pub open spec fn wf(&self) -> bool {
        self.device.wf() && self.rx_staging@.len() <= 256
    }

    pub fn new() -> (console: Self)
        ensures
            console.wf(),
            console.device@ == VirtioDevice::reset(),
            console.rx_staging@ == Seq::<u8>::empty(),
    {
        Self { device: VirtioMmio::new(), rx_staging: Vec::new() }
    }

    /// A byte of input has arrived. Delivers what the guest has posted buffers for.
    pub fn push_rx(
        &mut self,
        data: u8,
        ram: &mut GuestRam,
        distributor: &mut GicDistributorMmio,
        cpu: &mut CpuInterface,
    )
        requires
            old(self).wf(),
            old(self).device@.queues[0].is_usable(),
            old(ram)@.valid(),
        ensures
            final(self).wf(),
            final(self).received(
                old(self).device@,
                staged_with(old(self).rx_staging@, data),
                old(ram)@,
                final(ram)@,
            ),
            raised_if(
                rx_slot(old(self).device@.queues[0], old(ram)@) is Some,
                old(distributor)@,
                old(cpu)@,
                old(distributor).own_target,
                final(distributor)@,
                final(cpu)@,
            ),
    {
        if self.rx_staging.len() < RX_STAGING_SIZE {
            self.rx_staging.push(data);
        }
        self.flush_rx(ram, distributor, cpu);
    }

    /// The device after the input `staged` was delivered as far as it could be.
    pub open spec fn received(
        &self,
        before: VirtioDevice,
        staged: Seq<u8>,
        ram: Ram,
        memory: Ram,
    ) -> bool {
        let (queue, ram_after, left) = flushed(before.queues[0], ram, staged);
        let device = before.with_queue(0, queue);
        &&& self.rx_staging@ == left
        &&& memory == ram_after
        &&& self.device@ == if staged.len() > 0 && rx_slot(before.queues[0], ram) is Some {
            device.with_interrupt()
        } else {
            device
        }
    }

    /// Moves staged input into the buffers of the guest's RX queue, one byte per buffer.
    pub fn flush_rx(
        &mut self,
        ram: &mut GuestRam,
        distributor: &mut GicDistributorMmio,
        cpu: &mut CpuInterface,
    )
        requires
            old(self).wf(),
            old(self).device@.queues[0].is_usable(),
            old(ram)@.valid(),
        ensures
            final(self).wf(),
            final(self).received(
                old(self).device@,
                old(self).rx_staging@,
                old(ram)@,
                final(ram)@,
            ),
            raised_if(
                old(self).rx_staging@.len() > 0 && rx_slot(
                    old(self).device@.queues[0],
                    old(ram)@,
                ) is Some,
                old(distributor)@,
                old(cpu)@,
                old(distributor).own_target,
                final(distributor)@,
                final(cpu)@,
            ),
    {
        let ghost before = self.device@;
        let ghost memory = ram@;
        let ghost staged = self.rx_staging@;
        let mut queue: QueueState = self.device.queues[QUEUE_INDEX_RX];
        let mut injected: bool = false;
        let mut going: bool = true;
        while going && self.rx_staging.len() > 0
            invariant
                self.wf(),
                self.device@ == before,
                ram@.valid(),
                queue.is_usable(),
                before == old(self).device@,
                injected ==> staged.len() > 0 && rx_slot(before.queues[0], memory) is Some,
                !injected && going ==> self.rx_staging@ == staged && queue == before.queues[0]
                    && ram@ == memory,
                !injected && !going ==> rx_slot(before.queues[0], memory) is None,
                going ==> flushed(before.queues[0], memory, staged) == flushed(
                    queue,
                    ram@,
                    self.rx_staging@,
                ),
                !going ==> flushed(before.queues[0], memory, staged) == (
                    queue,
                    ram@,
                    self.rx_staging@,
                ),
                self.rx_staging@.len() == 0 && staged.len() > 0 ==> injected,
            decreases self.rx_staging@.len() + (if going {
                1int
            } else {
                0int
            }),
        {
            let ghost start = queue;
            let ghost staged_now = self.rx_staging@;
            match Self::next_slot(&mut queue, ram) {
                Some((descriptor_id, address)) => {
                    let data: u8 = self.rx_staging.remove(0);
                    let bytes: [u8; 1] = [data];
                    assert(bytes@ =~= seq![data]);
                    ram.write_bytes(address, &bytes);
                    queue.write_used(ram, descriptor_id, 1);
                    assert(self.rx_staging@ =~= staged_now.skip(1));
                    injected = true;
                },
                None => {
                    going = false;
                },
            }
        }
        self.device.queues[QUEUE_INDEX_RX] = queue;
        assert(self.device@ =~= before.with_queue(0, queue));
        if injected {
            self.device.interrupt_status = self.device.interrupt_status | 1;
            let _ = distributor.trigger_interrupt(cpu, VIRTIO_CONSOLE_INT_ID, None);
        }
    }

    /// Takes the next entry of the RX queue.
    fn next_slot(queue: &mut QueueState, ram: &GuestRam) -> (slot: Option<(u16, u64)>)
        requires
            old(queue).is_usable(),
            ram@.valid(),
        ensures
            slot == rx_slot(*old(queue), ram@),
            *final(queue) == old(queue).taken(ram@),
            slot is Some ==> final(queue).ring_size() != 0 && ram@.holds((slot->0).1 as int, 1),
    {
        let id: u16 = match queue.get_next_avail_id(ram) {
            Some(id) => id,
            None => {
                return None;
            },
        };
        let descriptor_id: u16 = match queue.get_descriptor_id(ram, id) {
            Some(descriptor_id) => descriptor_id,
            None => {
                return None;
            },
        };
        let descriptor: VirtQueueDesc = match queue.get_descriptor(ram, descriptor_id) {
            Some(descriptor) => descriptor,
            None => {
                return None;
            },
        };
        if descriptor.length == 0 {
            return None;
        }
        match ram.get_physical_address(descriptor.address) {
            Some(address) => Some((descriptor_id, address)),
            None => None,
        }
    }

    /// Works off the next entry of the TX queue: its text is handed out, and its buffer back to the
    /// guest. The guest's notification is handled by working off entries until there is no further
    /// one.
    pub fn next_tx(&mut self, ram: &mut GuestRam, counters: &mut ConsoleCounters) -> (step:
        ConsoleStep)
        requires
            old(self).wf(),
            old(self).device@.queues[1].is_usable(),
            old(ram)@.valid(),
        ensures
            final(self).wf(),
            final(self).rx_staging@ == old(self).rx_staging@,
            ({
                let queue = old(self).device@.queues[1];
                match tx_buffer(queue, old(ram)@) {
                    Some((descriptor_id, bytes)) => {
                        let (after, memory) = queue.taken(old(ram)@).used(
                            old(ram)@,
                            descriptor_id,
                            bytes.len() as u32,
                        );
                        &&& step matches ConsoleStep::Output(text) && text@
                            == crate::text::printed(bytes)
                        &&& final(self).device@ == old(self).device@.with_queue(1, after)
                        &&& final(ram)@ == memory
                        &&& *final(counters) == old(counters).counted(bytes.len() as u32)
                    },
                    None => {
                        &&& if queue.next_available(old(ram)@) is Some {
                            step is Broken
                        } else {
                            step is Idle
                        }
                        &&& final(self).device@ == old(self).device@.with_queue(
                            1,
                            queue.taken(old(ram)@),
                        )
                        &&& final(ram)@ == old(ram)@
                        &&& *final(counters) == *old(counters)
                    },
                }
            }),
    {
        let ghost before = self.device@;
        let mut queue: QueueState = self.device.queues[QUEUE_INDEX_TX];
        let ghost start = queue;
        let next: Option<u16> = queue.get_next_avail_id(ram);
        self.device.queues[QUEUE_INDEX_TX] = queue;
        assert(self.device@ =~= before.with_queue(1, start.taken(ram@)));
        let id: u16 = match next {
            Some(id) => id,
            None => {
                return ConsoleStep::Idle;
            },
        };
        let descriptor_id: u16 = match queue.get_descriptor_id(ram, id) {
            Some(descriptor_id) => descriptor_id,
            None => {
                return ConsoleStep::Broken;
            },
        };
        /* A TX request is a single descriptor that holds the raw characters. */
        let descriptor: VirtQueueDesc = match queue.get_descriptor(ram, descriptor_id) {
            Some(descriptor) => descriptor,
            None => {
                return ConsoleStep::Broken;
            },
        };
        let address: u64 = match ram.get_physical_address(descriptor.address) {
            Some(address) => address,
            None => {
                return ConsoleStep::Broken;
            },
        };
        if !ram.contains(address, descriptor.length as u64) {
            return ConsoleStep::Broken;
        }
        let bytes: Vec<u8> = ram.read_bytes(address, descriptor.length as u64);
        let text: Vec<u8> = crate::text::print_bytes(bytes.as_slice());
        counters.tx_bufs = counters.tx_bufs.wrapping_add(1);
        counters.tx_bytes = counters.tx_bytes.wrapping_add(descriptor.length as u64);
        queue.write_used(ram, descriptor_id, descriptor.length);
        self.device.queues[QUEUE_INDEX_TX] = queue;
        assert(self.device@ =~= before.with_queue(1, queue));
        ConsoleStep::Output(text)
    }

    /// Tells the guest that the TX queue was worked off.
    pub fn end_tx(&mut self, distributor: &mut GicDistributorMmio, cpu: &mut CpuInterface)
        requires
            old(self).wf(),
        ensures
            final(self).wf(),
            final(self).rx_staging@ == old(self).rx_staging@,
            final(self).device@ == old(self).device@.with_interrupt(),
            raised_if(
                true,
                old(distributor)@,
                old(cpu)@,
                old(distributor).own_target,
                final(distributor)@,
                final(cpu)@,
            ),
    {
        self.device.interrupt_status = self.device.interrupt_status | 1;
        let _ = distributor.trigger_interrupt(cpu, VIRTIO_CONSOLE_INT_ID, None);
    }

    /// Handles a read of the guest.
    pub fn read(&self, offset: usize, _access_width: u64) -> (result: Result<u64, ()>)
        requires
            self.wf(),
            offset == VIRTIO_MMIO_QUEUE_PFN ==> self.device.page_size > 0,
        ensures
            result == Ok::<u64, ()>(read_value(self.device@, offset as int)),
    {
        let value: u64 = if offset == VIRTIO_MMIO_MAGIC {
            VIRTIO_MMIO_MAGIC_VALUE as u64
        } else if offset == VIRTIO_MMIO_VERSION {
            0x01
        } else if offset == VIRTIO_MMIO_DEVICE_ID {
            VIRTIO_ID_CONSOLE as u64
        } else if offset == VIRTIO_MMIO_VENDOR_ID {
            0x554d_4551
        } else if offset == VIRTIO_MMIO_DEVICE_FEATURES {
            /* No features, so the guest uses port 0 only and never reads the config space. */
            0
        } else if offset == VIRTIO_MMIO_QUEUE_NUM_MAX {
            GUEST_QUEUE_SIZE
        } else if offset == VIRTIO_MMIO_QUEUE_PFN {
            self.device.queue_pfn()
        } else if offset == VIRTIO_MMIO_INTERRUPT_STATUS {
            self.device.interrupt_status as u64
        } else if offset == VIRTIO_MMIO_STATUS {
            self.device.status as u64
        } else {
            0
        };
        Ok(value)
    }

    /// Handles a write of the guest, and tells what it asks for besides. A reset drops the staged
    /// input.
    pub fn write(&mut self, ram: &GuestRam, offset: usize, _access_width: u64, value: u64) -> (result:
        Result<ConsoleNotice, ()>)
        requires
            old(self).wf(),
            ram@.valid(),
            old(self).device@.can_write(ram@, offset as int, value),
        ensures
            final(self).wf(),
            final(self).device@ == old(self).device@.written(ram@, offset as int, value),
            final(self).rx_staging@ == if offset == VIRTIO_MMIO_STATUS && value == 0 {
                Seq::empty()
            } else {
                old(self).rx_staging@
            },
            result == Ok::<ConsoleNotice, ()>(notice_of(offset as int, value)),
    {
        self.device.write(ram, offset, value);
        if offset == VIRTIO_MMIO_STATUS && value == 0 {
            self.rx_staging = Vec::new();
        }
        if offset == VIRTIO_MMIO_QUEUE_NOTIFY && value == QUEUE_INDEX_TX as u64 {
            Ok(ConsoleNotice::Transmit)
        } else if offset == VIRTIO_MMIO_QUEUE_NOTIFY && value == QUEUE_INDEX_RX as u64 {
            Ok(ConsoleNotice::Receive)
        } else {
            Ok(ConsoleNotice::Nothing)
        }
    }
}

/// The interrupt of the device is raised if `raised`, and nothing changes otherwise.
pub open spec fn raised_if(
    raised: bool,
    distributor: crate::mmio::gicv2::Distributor,
    cpu: crate::vgic::CpuModel,
    own_target: u8,
    distributor_after: crate::mmio::gicv2::Distributor,
    cpu_after: crate::vgic::CpuModel,
) -> bool {
    if raised {
        let after = distributor.triggered(cpu, 50, None, own_target, 0, false);
        distributor_after == after.0 && cpu_after == after.1
    } else {
        distributor_after == distributor && cpu_after == cpu
    }
}

/// Input is delivered in the order in which it arrived: what is left is the end of what was
/// staged.
pub proof fn input_is_delivered_in_order(queue: QueueState, ram: Ram, staged: Seq<u8>)
    ensures
        ({
            let left = flushed(queue, ram, staged).2;
            &&& left.len() <= staged.len()
            &&& left == staged.skip(staged.len() - left.len())
        }),
    decreases staged.len(),
{
    if staged.len() > 0 && rx_slot(queue, ram) is Some {
        let (after, memory) = rx_put(queue, ram, staged[0]);
        input_is_delivered_in_order(after, memory, staged.skip(1));
        let left = flushed(after, memory, staged.skip(1)).2;
        assert(staged.skip(1).skip(staged.skip(1).len() - left.len()) =~= staged.skip(
            staged.len() - left.len(),
        ));
    } else {
        assert(staged.skip(0) =~= staged);
    }
}

} // verus!
