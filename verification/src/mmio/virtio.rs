//! What the emulated, legacy Virtio-MMIO devices have in common: two VirtQueues in the guest's
//! memory, and the registers that set them up.

use crate::drivers::virtio::{
    VirtQueueDesc, VIRTIO_MMIO_DEVICE_FEATURES_SEL, VIRTIO_MMIO_GUEST_PAGE_SIZE,
    VIRTIO_MMIO_INTERRUPT_ACK, VIRTIO_MMIO_QUEUE_NUM, VIRTIO_MMIO_QUEUE_PFN, VIRTIO_MMIO_QUEUE_SEL,
    VIRTIO_MMIO_STATUS,
};
use crate::guest_ram::{GuestRam, Ram};
use vstd::prelude::*;

verus! {

/// Number of descriptors reported to the guest for both VirtQueues.
pub const GUEST_QUEUE_SIZE: u64 = 32;

/// A VirtQueue in the guest's memory. The addresses are the hypervisor's; 0 stands for none.
#[derive(Clone, Copy, PartialEq, Eq, Debug, Structural)]
pub struct QueueState {
    pub queue_size: u64,
    pub descriptor: u64,
    pub avail_ring: u64,
    pub used_ring: u64,
    pub last_avail_id: u16,
    pub used_id: u16,
}

/// Where the used ring of a queue starts: on the first page boundary behind the available ring.
pub open spec fn used_ring_of(avail_ring: int, queue_size: int, page_size: int) -> int {
    (((avail_ring + 2 * (3 + queue_size) - 1) as u64) & !((page_size - 1) as u64)) + page_size
}

/// The rings of a queue end inside the address space.
pub open spec fn rings_fit(descriptor: int, queue_size: int, page_size: int) -> bool {
    let avail_ring = descriptor + 16 * queue_size;
    &&& page_size > 0
    &&& avail_ring + 2 * (3 + queue_size) <= u64::MAX
    &&& used_ring_of(avail_ring, queue_size, page_size) <= u64::MAX
}

impl QueueState {
    pub open spec fn empty() -> QueueState {
        QueueState {
            queue_size: 0,
            descriptor: 0,
            avail_ring: 0,
            used_ring: 0,
            last_avail_id: 0,
            used_id: 0,
        }
    }

    /// The number of entries of the rings, which count in 16 bits.
    pub open spec fn ring_size(self) -> int {
        self.queue_size as int % 0x1_0000
    }

    /// The queue has not been given a size that is no ring's.
    pub open spec fn is_usable(self) -> bool {
        self.queue_size == 0 || self.ring_size() != 0
    }

    /// Where the next available entry stands in the ring. An address outside of the guest's
    /// memory is not accessed.
    pub open spec fn next_available(self, ram: Ram) -> Option<u16> {
        if self.avail_ring == 0 || self.queue_size == 0 || !ram.holds(self.avail_ring + 2, 2)
            || self.last_avail_id == ram.number(self.avail_ring + 2, 2) {
            None
        } else {
            Some((self.last_avail_id as int % self.ring_size()) as u16)
        }
    }

    /// The queue once the next available entry is taken.
    pub open spec fn taken(self, ram: Ram) -> QueueState {
        if self.next_available(ram) is Some {
            QueueState { last_avail_id: self.last_avail_id.wrapping_add(1), ..self }
        } else {
            self
        }
    }

    pub open spec fn descriptor_id(self, ram: Ram, id: u16) -> Option<u16> {
        let address = self.avail_ring + 4 + 2 * id;
        if self.avail_ring == 0 || !ram.holds(address, 2) {
            None
        } else {
            Some(ram.number(address, 2) as u16)
        }
    }

    pub open spec fn descriptor_at(self, ram: Ram, id: u16) -> Option<VirtQueueDesc> {
        let address = self.descriptor + 16 * id;
        if self.descriptor == 0 || !ram.holds(address, 16) {
            None
        } else {
            Some(
                VirtQueueDesc {
                    address: ram.number(address, 8) as u64,
                    length: ram.number(address + 8, 4) as u32,
                    flags: ram.number(address + 12, 2) as u16,
                    next: ram.number(address + 14, 2) as u16,
                },
            )
        }
    }

    /// Where the next entry of the used ring goes.
    pub open spec fn used_address(self) -> int {
        self.used_ring + 4 + 8 * (self.used_id as int % self.ring_size())
    }

    /// The used ring is in the guest's memory, as far as the next entry needs it.
    pub open spec fn can_use(self, ram: Ram) -> bool {
        ram.holds(self.used_ring + 2, 2) && ram.holds(self.used_address(), 8)
    }

    /// The queue and the memory once buffer `id` is handed back with `length` bytes.
    pub open spec fn used(self, ram: Ram, id: u16, length: u32) -> (QueueState, Ram) {
        let next = QueueState { used_id: self.used_id.wrapping_add(1), ..self };
        if self.can_use(ram) {
            (
                next,
                ram.stored(self.used_address(), 4, id as int).stored(
                    self.used_address() + 4,
                    4,
                    length as int,
                ).stored(self.used_ring + 2, 2, next.used_id as int),
            )
        } else {
            (next, ram)
        }
    }

    pub open spec fn with_rings(self, page_size: u64) -> QueueState {
        let avail_ring = self.descriptor + 16 * self.queue_size;
        QueueState {
            avail_ring: avail_ring as u64,
            used_ring: used_ring_of(avail_ring, self.queue_size as int, page_size as int) as u64,
            ..self
        }
    }

    pub fn new() -> (queue: Self)
        ensures
            queue == Self::empty(),
    {
        Self {
            queue_size: 0,
            descriptor: 0,
            avail_ring: 0,
            used_ring: 0,
            last_avail_id: 0,
            used_id: 0,
        }
    }

    /// Whether the `n` bytes at `base + delta` are the guest's, and where they are.
    fn locate(ram: &GuestRam, base: u64, delta: u64, n: u64) -> (address: Option<u64>)
        requires
            ram@.valid(),
        ensures
            match address {
                Some(a) => a == base + delta && ram@.holds(base + delta, n as int),
                None => !ram@.holds(base + delta, n as int),
            },
    {
        match base.checked_add(delta) {
            Some(address) => if ram.contains(address, n) {
                Some(address)
            } else {
                None
            },
            None => None,
        }
    }

    pub fn get_descriptor(&self, ram: &GuestRam, id: u16) -> (descriptor: Option<VirtQueueDesc>)
        requires
            ram@.valid(),
        ensures
            descriptor == self.descriptor_at(ram@, id),
    {
        if self.descriptor == 0 {
            return None;
        }
        match Self::locate(ram, self.descriptor, 16 * (id as u64), 16) {
            Some(address) => {
                proof {
                    crate::guest_ram::lemma_byte_ranges();
                }
                Some(
                    VirtQueueDesc {
                        address: ram.read_number(address, 8),
                        length: ram.read_number(address + 8, 4) as u32,
                        flags: ram.read_number(address + 12, 2) as u16,
                        next: ram.read_number(address + 14, 2) as u16,
                    },
                )
            },
            None => None,
        }
    }

    pub fn get_descriptor_id(&self, ram: &GuestRam, id: u16) -> (descriptor_id: Option<u16>)
        requires
            ram@.valid(),
        ensures
            descriptor_id == self.descriptor_id(ram@, id),
    {
        if self.avail_ring == 0 {
            return None;
        }
        match Self::locate(ram, self.avail_ring, 4 + 2 * (id as u64), 2) {
            Some(address) => {
                proof {
                    crate::guest_ram::lemma_byte_ranges();
                }
                Some(ram.read_number(address, 2) as u16)
            },
            None => None,
        }
    }

    pub fn get_next_avail_id(&mut self, ram: &GuestRam) -> (next: Option<u16>)
        requires
            old(self).is_usable(),
            ram@.valid(),
        ensures
            next == old(self).next_available(ram@),
            *final(self) == old(self).taken(ram@),
    {
        if self.avail_ring == 0 || self.queue_size == 0 {
            return None;
        }
        let index: u16 = match Self::locate(ram, self.avail_ring, 2, 2) {
            Some(address) => {
                proof {
                    crate::guest_ram::lemma_byte_ranges();
                }
                ram.read_number(address, 2) as u16
            },
            None => {
                return None;
            },
        };
        if self.last_avail_id == index {
            return None;
        }
        let next: u16 = self.last_avail_id % ((self.queue_size % 0x1_0000) as u16);
        self.last_avail_id = self.last_avail_id.wrapping_add(1);
        Some(next)
    }

    pub fn write_used(&mut self, ram: &mut GuestRam, id: u16, length: u32)
        requires
            old(self).ring_size() != 0,
            old(ram)@.valid(),
        ensures
            (*final(self), final(ram)@) == old(self).used(old(ram)@, id, length),
            final(ram)@.valid(),
            final(ram)@.bytes.len() == old(ram)@.bytes.len(),
    {
        let used_id: u16 = self.used_id % ((self.queue_size % 0x1_0000) as u16);
        self.used_id = self.used_id.wrapping_add(1);
        let index: Option<u64> = Self::locate(ram, self.used_ring, 2, 2);
        let element: Option<u64> = Self::locate(ram, self.used_ring, 4 + 8 * (used_id as u64), 8);
        match (index, element) {
            (Some(index), Some(element)) => {
                ram.write_number(element, 4, id as u64);
                ram.write_number(element + 4, 4, length as u64);
                ram.write_number(index, 2, self.used_id as u64);
            },
            _ => {},
        }
    }

    pub fn recompute_rings(&mut self, page_size: u64)
        requires
            rings_fit(
                old(self).descriptor as int,
                old(self).queue_size as int,
                page_size as int,
            ),
        ensures
            *final(self) == old(self).with_rings(page_size),
    {
        self.avail_ring = self.descriptor + 16 * self.queue_size;
        self.used_ring = ((self.avail_ring + 2 * (3 + self.queue_size) - 1) & !(page_size - 1))
            + page_size;
    }

    pub fn reset(&mut self)
        ensures
            *final(self) == Self::empty(),
    {
        *self = Self::new();
    }
}

/// With pages of a power of two the used ring starts on a page boundary, behind the available
/// ring.
pub proof fn used_ring_is_on_a_page(avail_ring: u64, queue_size: u64, page_order: u64)
    requires
        page_order < 64,
        avail_ring + 2 * (3 + queue_size) <= u64::MAX,
    ensures
        ({
            let page_size = 1u64 << page_order;
            let used_ring = used_ring_of(avail_ring as int, queue_size as int, page_size as int);
            &&& used_ring % (page_size as int) == 0
            &&& avail_ring + 2 * (3 + queue_size) <= used_ring
        }),
{
    let end = (avail_ring + 2 * (3 + queue_size) - 1) as u64;
    crate::bits::lemma_mask_aligns_down_u64(end, page_order);
    crate::bits::lemma_align_down(end as int, page_order as nat);
    vstd::arithmetic::div_mod::lemma_mod_add_multiples_vanish(
        crate::bits::align_down(end as int, page_order as nat),
        (1u64 << page_order) as int,
    );
}

/// The registers of a Virtio-MMIO device that set up its queues.
pub struct VirtioMmio {
    pub interrupt_status: u32,
    pub status: u32,
    pub page_size: u64,
    pub queue_sel: usize,
    pub device_features_sel: u32,
    pub queues: [QueueState; 2],
}

/// The registers of a Virtio-MMIO device that set up its queues.
#[verifier::ext_equal]
pub struct VirtioDevice {
    pub interrupt_status: u32,
    pub status: u32,
    pub page_size: u64,
    pub queue_sel: int,
    pub device_features_sel: u32,
    pub queues: Seq<QueueState>,
}

impl VirtioDevice {
    pub open spec fn reset() -> VirtioDevice {
        VirtioDevice {
            interrupt_status: 0,
            status: 0,
            page_size: 0x1000,
            queue_sel: 0,
            device_features_sel: 0,
            queues: seq![QueueState::empty(), QueueState::empty()],
        }
    }

    pub open spec fn with_queue(self, i: int, queue: QueueState) -> VirtioDevice {
        VirtioDevice { queues: self.queues.update(i, queue), ..self }
    }

    pub open spec fn with_interrupt(self) -> VirtioDevice {
        VirtioDevice { interrupt_status: self.interrupt_status | 1, ..self }
    }

    /// What a write of `value` at `offset` does.
    pub open spec fn written(self, ram: Ram, offset: int, value: u64) -> VirtioDevice {
        let word = #[verifier::truncate] (value as u32);
        let queue = self.queues[self.queue_sel];
        if offset == VIRTIO_MMIO_DEVICE_FEATURES_SEL {
            VirtioDevice { device_features_sel: word, ..self }
        } else if offset == VIRTIO_MMIO_GUEST_PAGE_SIZE {
            VirtioDevice { page_size: value, ..self }
        } else if offset == VIRTIO_MMIO_QUEUE_SEL {
            if value < 2 {
                VirtioDevice { queue_sel: value as int, ..self }
            } else {
                self
            }
        } else if offset == VIRTIO_MMIO_QUEUE_NUM {
            self.with_queue(
                self.queue_sel,
                (QueueState { queue_size: value, ..queue }).with_rings(self.page_size),
            )
        } else if offset == VIRTIO_MMIO_QUEUE_PFN {
            match ram.physical_address((value * self.page_size) as u64) {
                Some(address) => self.with_queue(
                    self.queue_sel,
                    (QueueState { descriptor: address, ..queue }).with_rings(self.page_size),
                ),
                None => self,
            }
        } else if offset == VIRTIO_MMIO_INTERRUPT_ACK {
            VirtioDevice { interrupt_status: self.interrupt_status & !word, ..self }
        } else if offset == VIRTIO_MMIO_STATUS {
            if value == 0 {
                Self::reset()
            } else {
                VirtioDevice { status: word, ..self }
            }
        } else {
            self
        }
    }

    /// The queue that a write sets up fits into the address space.
    pub open spec fn can_write(self, ram: Ram, offset: int, value: u64) -> bool {
        let queue = self.queues[self.queue_sel];
        if offset == VIRTIO_MMIO_QUEUE_NUM {
            rings_fit(queue.descriptor as int, value as int, self.page_size as int)
        } else if offset == VIRTIO_MMIO_QUEUE_PFN {
            &&& value * self.page_size <= u64::MAX
            &&& match ram.physical_address((value * self.page_size) as u64) {
                Some(address) => rings_fit(
                    address as int,
                    queue.queue_size as int,
                    self.page_size as int,
                ),
                None => true,
            }
        } else {
            true
        }
    }
}

impl VirtioMmio {
    pub open spec fn view(&self) -> VirtioDevice {
        VirtioDevice {
            interrupt_status: self.interrupt_status,
            status: self.status,
            page_size: self.page_size,
            queue_sel: self.queue_sel as int,
            device_features_sel: self.device_features_sel,
            queues: self.queues@,
        }
    }

    pub open spec fn wf(&self) -> bool {
        self.queue_sel < 2
    }

    pub fn new() -> (device: Self)
        ensures
            device.wf(),
            device@ == VirtioDevice::reset(),
    {
        let device = Self {
            interrupt_status: 0,
            status: 0,
            page_size: 0x1000,
            queue_sel: 0,
            device_features_sel: 0,
            queues: [QueueState::new(), QueueState::new()],
        };
        assert(device@.queues =~= VirtioDevice::reset().queues);
        device
    }

    /// The number of the page at which the current queue is.
    pub fn queue_pfn(&self) -> (pfn: u64)
        requires
            self.wf(),
            self.page_size > 0,
        ensures
            pfn == self@.queues[self@.queue_sel].descriptor / self.page_size,
    {
        self.queues[self.queue_sel].descriptor / self.page_size
    }

    /// Whether the rings of a queue end inside the address space.
    fn accepts_rings(descriptor: u64, queue_size: u64, page_size: u64) -> (fit: bool)
        ensures
            fit == rings_fit(descriptor as int, queue_size as int, page_size as int),
    {
        if page_size == 0 {
            return false;
        }
        if queue_size > 0x0FFF_FFFF_FFFF_FFFF {
            return false;
        }
        match descriptor.checked_add(16 * queue_size) {
            Some(avail_ring) => match avail_ring.checked_add(2 * (3 + queue_size)) {
                Some(end) => {
                    let low: u64 = (end - 1) & !(page_size - 1);
                    low.checked_add(page_size).is_some()
                },
                None => false,
            },
            None => false,
        }
    }

    /// Whether a write can be handled.
    pub fn accepts_write(&self, ram: &GuestRam, offset: usize, value: u64) -> (accepted: bool)
        requires
            self.wf(),
            ram@.valid(),
        ensures
            accepted == self@.can_write(ram@, offset as int, value),
    {
        let queue: QueueState = self.queues[self.queue_sel];
        if offset == VIRTIO_MMIO_QUEUE_NUM {
            Self::accepts_rings(queue.descriptor, value, self.page_size)
        } else if offset == VIRTIO_MMIO_QUEUE_PFN {
            match value.checked_mul(self.page_size) {
                Some(address) => match ram.get_physical_address(address) {
                    Some(address) => Self::accepts_rings(
                        address,
                        queue.queue_size,
                        self.page_size,
                    ),
                    None => true,
                },
                None => false,
            }
        } else {
            true
        }
    }

    pub fn write(&mut self, ram: &GuestRam, offset: usize, value: u64)
        requires
            old(self).wf(),
            ram@.valid(),
            old(self)@.can_write(ram@, offset as int, value),
        ensures
            final(self).wf(),
            final(self)@ == old(self)@.written(ram@, offset as int, value),
    {
        let word: u32 = #[verifier::truncate] (value as u32);
        if offset == VIRTIO_MMIO_DEVICE_FEATURES_SEL {
            self.device_features_sel = word;
        } else if offset == VIRTIO_MMIO_GUEST_PAGE_SIZE {
            self.page_size = value;
        } else if offset == VIRTIO_MMIO_QUEUE_SEL {
            if value < 2 {
                self.queue_sel = value as usize;
            }
        } else if offset == VIRTIO_MMIO_QUEUE_NUM {
            let mut queue: QueueState = self.queues[self.queue_sel];
            queue.queue_size = value;
            queue.recompute_rings(self.page_size);
            self.queues[self.queue_sel] = queue;
        } else if offset == VIRTIO_MMIO_QUEUE_PFN {
            if let Some(address) = ram.get_physical_address(value * self.page_size) {
                let mut queue: QueueState = self.queues[self.queue_sel];
                queue.descriptor = address;
                queue.recompute_rings(self.page_size);
                self.queues[self.queue_sel] = queue;
            }
        } else if offset == VIRTIO_MMIO_INTERRUPT_ACK {
            self.interrupt_status = self.interrupt_status & !word;
        } else if offset == VIRTIO_MMIO_STATUS {
            if value == 0 {
                *self = Self::new();
            } else {
                self.status = word;
            }
        }
        assert(self@ =~= old(self)@.written(ram@, offset as int, value));
    }
}

} // verus!
