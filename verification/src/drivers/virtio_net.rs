//! Virtio-Net driver of the physical device.
//!
//! Forwards Ethernet frames between the guest's emulated Virtio-Net device and the outside world.
//! One RX buffer is posted per descriptor; a frame that is sent takes two descriptors.

use crate::dma::IoOp;
use crate::drivers::virtio::{
    VIRTIO_CONFIG_OFFSET, VIRTIO_DEVICE_STATUS_ACKNOWLEDGE, VIRTIO_DEVICE_STATUS_DRIVER,
    VIRTIO_DEVICE_STATUS_DRIVER_OK, VIRTIO_DEVICE_STATUS_FEATURES_OK, VIRTIO_ID_NET,
    VIRTIO_MMIO_DEVICE_FEATURES,
    VIRTIO_MMIO_DEVICE_ID, VIRTIO_MMIO_DRIVER_FEATURES, VIRTIO_MMIO_GUEST_PAGE_SIZE,
    VIRTIO_MMIO_INTERRUPT_ACK, VIRTIO_MMIO_MAGIC, VIRTIO_MMIO_MAGIC_VALUE,
    VIRTIO_MMIO_QUEUE_NOTIFY, VIRTIO_MMIO_QUEUE_NUM, VIRTIO_MMIO_QUEUE_NUM_MAX,
    VIRTIO_MMIO_QUEUE_PFN, VIRTIO_MMIO_QUEUE_SEL, VIRTIO_MMIO_STATUS, VIRTIO_MMIO_VENDOR_ID,
    VIRTIO_MMIO_VERSION, VIRT_QUEUE_DESC_FLAGS_NEXT, VIRT_QUEUE_DESC_FLAGS_WRITE,
};
use crate::free_memory::FreeMemory;
use crate::memory_allocator::MemoryAllocator;
use vstd::prelude::*;

verus! {

pub const NUMBER_OF_DESCRIPTORS: usize = 8;

/// An Ethernet frame behind a virtio_net_hdr, rounded up.
pub const VIRTIO_NET_RX_BUFFER_SIZE: u64 = 1526;

/// Legacy virtio-net header in front of every packet.
pub const VIRTIO_NET_HDR_SIZE: u64 = 10;

/// The pages of one VirtQueue: its descriptors and available ring, and its used ring.
pub const QUEUE_PAGES: usize = 2;

/// The pages of all the RX buffers.
pub const RX_BUFFER_PAGES: usize = 3;

pub const VIRTIO_VENDOR_QEMU: u32 = 0x554d_4551;

/// A VirtQueue that the driver fills.
pub struct VirtQueue {
    pub base: u64,
    pub last_used_idx: u16,
    pub avail_idx: u16,
    /// The descriptors that are not in use.
    pub free: [bool; 8],
}

/// A VirtQueue that the driver fills.
#[verifier::ext_equal]
pub struct NetQueue {
    pub base: int,
    pub last_used_idx: u16,
    pub avail_idx: u16,
    pub free: Seq<bool>,
}

/// The least index from `i` on at which `free` holds.
pub open spec fn first_free(free: Seq<bool>, i: int) -> Option<int>
    decreases free.len() - i,
{
    if i < 0 || i >= free.len() {
        None
    } else if free[i] {
        Some(i)
    } else {
        first_free(free, i + 1)
    }
}

impl NetQueue {
    pub open spec fn valid(self) -> bool {
        self.free.len() == 8 && 0 <= self.base && self.base + 0x2000 <= u64::MAX
    }

    pub open spec fn fresh(base: int) -> NetQueue {
        NetQueue { base, last_used_idx: 0, avail_idx: 0, free: Seq::new(8, |i: int| true) }
    }

    /// The queue with a descriptor more in use.
    pub open spec fn taken(self, i: int) -> NetQueue {
        NetQueue { free: self.free.update(i, false), ..self }
    }

    pub open spec fn returned(self, i: int) -> NetQueue {
        NetQueue { free: self.free.update(i, true), ..self }
    }

    pub open spec fn descriptor_ops(
        self,
        i: int,
        address: u64,
        length: u32,
        flags: u16,
        next: int,
    ) -> Seq<IoOp> {
        crate::dma::write64_ops(self.base + 16 * i, address) + seq![
            IoOp::Write { address: (self.base + 16 * i + 8) as u64, value: length },
            IoOp::Write {
                address: (self.base + 16 * i + 12) as u64,
                value: (flags + 0x1_0000 * next) as u32,
            },
        ]
    }

    /// The length and flags of a descriptor are set anew.
    pub open spec fn renew_ops(self, i: int, length: u32, flags: u16) -> Seq<IoOp> {
        seq![
            IoOp::Write { address: (self.base + 16 * i + 8) as u64, value: length },
            IoOp::Write16 { address: (self.base + 16 * i + 12) as u64, value: flags },
        ]
    }

    /// The chain that starts at descriptor `i` goes to the device.
    pub open spec fn published(self) -> NetQueue {
        NetQueue { avail_idx: self.avail_idx.wrapping_add(1), ..self }
    }

    pub open spec fn publish_ops(self, i: int) -> Seq<IoOp> {
        let ring = self.base + 128;
        seq![
            IoOp::Write16 {
                address: (ring + 4 + 2 * (self.avail_idx as int % 8)) as u64,
                value: i as u16,
            },
            IoOp::Write16 {
                address: (ring + 2) as u64,
                value: self.avail_idx.wrapping_add(1),
            },
        ]
    }
}

impl VirtQueue {
    pub open spec fn view(&self) -> NetQueue {
        NetQueue {
            base: self.base as int,
            last_used_idx: self.last_used_idx,
            avail_idx: self.avail_idx,
            free: self.free@,
        }
    }

    pub open spec fn wf(&self) -> bool {
        self@.valid()
    }

    /// The queue in the pages at `base`, which are zero.
    pub fn new(base: u64) -> (queue: Self)
        requires
            base + 0x2000 <= u64::MAX,
        ensures
            queue.wf(),
            queue@ == NetQueue::fresh(base as int),
    {
        let queue = Self { base, last_used_idx: 0, avail_idx: 0, free: [true; 8] };
        assert(queue@ =~= NetQueue::fresh(base as int));
        queue
    }

    /// Takes a descriptor that is not in use.
    pub fn allocate_descriptor(&mut self) -> (descriptor: Option<u16>)
        requires
            old(self).wf(),
        ensures
            final(self).wf(),
            match first_free(old(self)@.free, 0) {
                Some(i) => {
                    &&& descriptor matches Some(found) && found == i && found < 8
                    &&& final(self)@ == old(self)@.taken(i)
                },
                None => descriptor is None && final(self)@ == old(self)@,
            },
    {
        let mut i: usize = 0;
        while i < NUMBER_OF_DESCRIPTORS
            invariant
                i <= 8,
                self.wf(),
                *self == *old(self),
                first_free(self@.free, 0) == first_free(self@.free, i as int),
            decreases 8 - i,
        {
            if self.free[i] {
                self.free[i] = false;
                assert(self@ =~= old(self)@.taken(i as int));
                return Some(i as u16);
            }
            i = i + 1;
        }
        None
    }

    /// Gives a descriptor back.
    pub fn free_descriptor(&mut self, index: u16)
        requires
            old(self).wf(),
            index < 8,
        ensures
            final(self).wf(),
            final(self)@ == old(self)@.returned(index as int),
    {
        self.free[index as usize] = true;
        assert(self@ =~= old(self)@.returned(index as int));
    }

    fn write_descriptor(
        &self,
        i: u16,
        address: u64,
        length: u32,
        flags: u16,
        next: u16,
        ops: &mut Vec<IoOp>,
    )
        requires
            self.wf(),
            i < 8,
        ensures
            final(ops)@ == old(ops)@ + self@.descriptor_ops(
                i as int,
                address,
                length,
                flags,
                next as int,
            ),
    {
        let place: u64 = self.base + 16 * (i as u64);
        crate::dma::write64(ops, place, address);
        ops.push(IoOp::Write { address: place + 8, value: length });
        ops.push(
            IoOp::Write { address: place + 12, value: flags as u32 + 0x1_0000 * (next as u32) },
        );
        assert(ops@ =~= old(ops)@ + self@.descriptor_ops(
            i as int,
            address,
            length,
            flags,
            next as int,
        ));
    }

    fn publish(&mut self, i: u16, ops: &mut Vec<IoOp>)
        requires
            old(self).wf(),
        ensures
            final(self).wf(),
            final(self)@ == old(self)@.published(),
            final(ops)@ == old(ops)@ + old(self)@.publish_ops(i as int),
    {
        let ring: u64 = self.base + 128;
        ops.push(
            IoOp::Write16 { address: ring + 4 + 2 * (self.avail_idx as u64 % 8), value: i },
        );
        self.avail_idx = self.avail_idx.wrapping_add(1);
        ops.push(IoOp::Write16 { address: ring + 2, value: self.avail_idx });
        assert(ops@ =~= old(ops)@ + old(self)@.publish_ops(i as int));
    }
}

pub struct VirtioNet {
    pub base_address: u64,
    pub mac: [u8; 6],
    pub rx: VirtQueue,
    pub tx: VirtQueue,
    pub rx_buffers: u64,
}

/// A frame that is on its way: its two descriptors, and what the index of the used ring becomes.
#[derive(Clone, Copy, PartialEq, Eq, Debug, Structural)]
pub struct Sending {
    pub header: u16,
    pub data: u16,
    pub target_idx: u16,
}

impl VirtioNet {
    pub open spec fn wf(&self) -> bool {
        &&& self.base_address + 0x1000 <= u64::MAX
        &&& self.rx.wf()
        &&& self.tx.wf()
        &&& self.rx_buffers + 0x3000 <= u64::MAX
    }

    pub open spec fn notify_op(&self, queue: u32) -> IoOp {
        IoOp::Write {
            address: (self.base_address + VIRTIO_MMIO_QUEUE_NOTIFY) as u64,
            value: queue,
        }
    }

    pub fn get_mac_address(&self) -> (mac: [u8; 6])
        ensures
            mac == self.mac,
    {
        self.mac
    }

    /// The RX queue and the accesses once the first `n` buffers are posted.
    pub open spec fn posted(queue: NetQueue, rx_buffers: int, n: nat) -> (NetQueue, Seq<IoOp>)
        decreases n,
    {
        if n == 0 {
            (queue, Seq::empty())
        } else {
            let (before, ops) = Self::posted(queue, rx_buffers, (n - 1) as nat);
            match first_free(before.free, 0) {
                Some(i) => (
                    before.taken(i).published(),
                    ops + before.descriptor_ops(
                        i,
                        (rx_buffers + (n - 1) * 1526) as u64,
                        1526,
                        2,
                        0,
                    ) + before.publish_ops(i),
                ),
                None => (before, ops),
            }
        }
    }

    /// Posts all the RX buffers.
    fn post_all_rx_buffers(&mut self, ops: &mut Vec<IoOp>)
        requires
            old(self).wf(),
        ensures
            final(self).wf(),
            final(self).base_address == old(self).base_address,
            final(self).mac == old(self).mac,
            final(self).tx == old(self).tx,
            final(self).rx_buffers == old(self).rx_buffers,
            ({
                let (queue, posted) = Self::posted(
                    old(self).rx@,
                    old(self).rx_buffers as int,
                    8,
                );
                &&& final(self).rx@ == queue
                &&& final(ops)@ == old(ops)@ + posted + seq![old(self).notify_op(0)]
            }),
    {
        let ghost first = ops@;
        let ghost queue = self.rx@;
        let mut i: u64 = 0;
        assert(first + Self::posted(queue, self.rx_buffers as int, 0).1 =~= first);
        while i < 8
            invariant
                i <= 8,
                self.wf(),
                self.base_address == old(self).base_address,
                self.mac == old(self).mac,
                self.tx == old(self).tx,
                self.rx_buffers == old(self).rx_buffers,
                queue == old(self).rx@,
                first == old(ops)@,
                self.rx@ == Self::posted(queue, self.rx_buffers as int, i as nat).0,
                ops@ == first + Self::posted(queue, self.rx_buffers as int, i as nat).1,
            decreases 8 - i,
        {
            let ghost before = self.rx@;
            let ghost done = ops@;
            match self.rx.allocate_descriptor() {
                Some(descriptor) => {
                    let address: u64 = self.rx_buffers + i * VIRTIO_NET_RX_BUFFER_SIZE;
                    self.rx.write_descriptor(
                        descriptor,
                        address,
                        1526,
                        VIRT_QUEUE_DESC_FLAGS_WRITE,
                        0,
                        ops,
                    );
                    self.rx.publish(descriptor, ops);
                    assert(ops@ =~= done + before.descriptor_ops(
                        descriptor as int,
                        address,
                        1526,
                        2,
                        0,
                    ) + before.publish_ops(descriptor as int));
                },
                None => {},
            }
            i = i + 1;
            assert(ops@ =~= first + Self::posted(queue, self.rx_buffers as int, i as nat).1);
        }
        ops.push(
            IoOp::Write { address: self.base_address + VIRTIO_MMIO_QUEUE_NOTIFY as u64, value: 0 },
        );
        assert(ops@ =~= first + Self::posted(queue, self.rx_buffers as int, 8).1 + seq![
            old(self).notify_op(0),
        ]);
    }

    /// The accesses that acknowledge the interrupt of the device, so that it is not presented again.
    pub fn acknowledge_interrupt(&self, interrupt_status: u32) -> (op: Option<IoOp>)
        requires
            self.wf(),
        ensures
            op == if interrupt_status != 0 {
                Some(
                    IoOp::Write {
                        address: (self.base_address + VIRTIO_MMIO_INTERRUPT_ACK) as u64,
                        value: interrupt_status,
                    },
                )
            } else {
                None
            },
    {
        if interrupt_status != 0 {
            Some(
                IoOp::Write {
                    address: self.base_address + VIRTIO_MMIO_INTERRUPT_ACK as u64,
                    value: interrupt_status,
                },
            )
        } else {
            None
        }
    }

    /// Where the next element of the used RX ring is, given the index of that ring. `None` where
    /// nothing has arrived.
    pub fn next_rx(&self, used_idx: u16) -> (element: Option<u64>)
        requires
            self.wf(),
        ensures
            element == if used_idx == self.rx.last_used_idx {
                None
            } else {
                Some((self.rx.base + 0x1004 + 8 * (self.rx.last_used_idx as int % 8)) as u64)
            },
    {
        if used_idx == self.rx.last_used_idx {
            None
        } else {
            Some(self.rx.base + 0x1004 + 8 * (self.rx.last_used_idx as u64 % 8))
        }
    }

    /// How many bytes of a packet of `total_length` bytes go to a buffer of `capacity` bytes.
    pub open spec fn copied_length(total_length: u32, capacity: u64) -> int {
        let payload = if total_length < 10 {
            0int
        } else {
            total_length - 10
        };
        if payload < capacity {
            payload
        } else {
            capacity as int
        }
    }

    /// Takes the next element of the used RX ring: where the frame is, without its header, and how
    /// many bytes of it go to a buffer of `capacity` bytes. The RX buffer is posted again; the frame
    /// has to be copied before the accesses in `ops` are made.
    pub fn poll_rx(&mut self, id: u32, total_length: u32, capacity: u64, ops: &mut Vec<IoOp>) -> (frame: (
        u64,
        u64,
    ))
        requires
            old(self).wf(),
            id % 0x1_0000 < 8,
        ensures
            final(self).wf(),
            final(self).base_address == old(self).base_address,
            final(self).mac == old(self).mac,
            final(self).tx == old(self).tx,
            final(self).rx_buffers == old(self).rx_buffers,
            ({
                let i = id as int % 0x1_0000;
                let queue = NetQueue {
                    last_used_idx: old(self).rx.last_used_idx.wrapping_add(1),
                    ..old(self).rx@
                };
                &&& frame.0 == old(self).rx_buffers + i * 1526 + 10
                &&& frame.1 == Self::copied_length(total_length, capacity)
                &&& final(self).rx@ == queue.published()
                &&& final(ops)@ == old(ops)@ + (queue.renew_ops(i, 1526, 2) + queue.publish_ops(i)
                    + seq![old(self).notify_op(0)])
            }),
    {
        let ghost first = ops@;
        let descriptor: u16 = (id % 0x1_0000) as u16;
        self.rx.last_used_idx = self.rx.last_used_idx.wrapping_add(1);
        let payload: u64 = (total_length as u64).saturating_sub(VIRTIO_NET_HDR_SIZE);
        let length: u64 = if payload < capacity {
            payload
        } else {
            capacity
        };
        let source: u64 = self.rx_buffers + (descriptor as u64) * VIRTIO_NET_RX_BUFFER_SIZE
            + VIRTIO_NET_HDR_SIZE;
        let place: u64 = self.rx.base + 16 * (descriptor as u64);
        ops.push(IoOp::Write { address: place + 8, value: 1526 });
        ops.push(IoOp::Write16 { address: place + 12, value: VIRT_QUEUE_DESC_FLAGS_WRITE });
        self.rx.publish(descriptor, ops);
        ops.push(
            IoOp::Write { address: self.base_address + VIRTIO_MMIO_QUEUE_NOTIFY as u64, value: 0 },
        );
        assert(ops@ =~= first + ((NetQueue {
            last_used_idx: old(self).rx.last_used_idx.wrapping_add(1),
            ..old(self).rx@
        }).renew_ops(descriptor as int, 1526, 2) + (NetQueue {
            last_used_idx: old(self).rx.last_used_idx.wrapping_add(1),
            ..old(self).rx@
        }).publish_ops(descriptor as int) + seq![old(self).notify_op(0)]));
        (source, length)
    }

    /// The TX queue, the accesses and the descriptors of a frame. `None` where there are no two free
    /// descriptors.
    pub open spec fn sending(
        &self,
        header_address: u64,
        buffer_address: u64,
        length: u64,
    ) -> Option<(NetQueue, Seq<IoOp>, Sending)> {
        let queue = self.tx@;
        match first_free(queue.free, 0) {
            None => None,
            Some(header) => match first_free(queue.taken(header).free, 0) {
                None => None,
                Some(data) => {
                    let taken = queue.taken(header).taken(data);
                    Some(
                        (
                            taken.published(),
                            taken.descriptor_ops(header, header_address, 10, 1, data)
                                + taken.descriptor_ops(
                                data,
                                buffer_address,
                                (length % 0x1_0000_0000) as u32,
                                0,
                                0,
                            ) + taken.publish_ops(header) + seq![self.notify_op(1)],
                            Sending {
                                header: header as u16,
                                data: data as u16,
                                target_idx: queue.last_used_idx.wrapping_add(1),
                            },
                        ),
                    )
                },
            },
        }
    }

    /// Hands the Ethernet frame at `buffer_address` to the device, behind the all-zero header at
    /// `header_address`. The frame is sent once the index of the used TX ring is `target_idx`.
    pub fn send(
        &mut self,
        header_address: u64,
        buffer_address: u64,
        length: u64,
        ops: &mut Vec<IoOp>,
    ) -> (result: Result<Sending, ()>)
        requires
            old(self).wf(),
        ensures
            final(self).wf(),
            final(self).base_address == old(self).base_address,
            final(self).mac == old(self).mac,
            final(self).rx == old(self).rx,
            final(self).rx_buffers == old(self).rx_buffers,
            match old(self).sending(header_address, buffer_address, length) {
                Some((queue, written, sending)) => {
                    &&& result == Ok::<Sending, ()>(sending)
                    &&& sending.header < 8 && sending.data < 8
                    &&& final(self).tx@ == queue
                    &&& final(ops)@ == old(ops)@ + written
                },
                None => {
                    &&& result is Err
                    &&& final(self).tx@ == old(self).tx@
                    &&& final(ops)@ == old(ops)@
                },
            },
    {
        let ghost queue = self.tx@;
        let header: u16 = match self.tx.allocate_descriptor() {
            Some(header) => header,
            None => {
                return Err(());
            },
        };
        let data: u16 = match self.tx.allocate_descriptor() {
            Some(data) => data,
            None => {
                self.tx.free_descriptor(header);
                proof {
                    lemma_first_free(queue.free, 0);
                    assert(self.tx@ =~= queue);
                }
                return Err(());
            },
        };
        self.tx.write_descriptor(
            header,
            header_address,
            10,
            VIRT_QUEUE_DESC_FLAGS_NEXT,
            data,
            ops,
        );
        self.tx.write_descriptor(
            data,
            buffer_address,
            (length % 0x1_0000_0000) as u32,
            0,
            0,
            ops,
        );
        self.tx.publish(header, ops);
        ops.push(
            IoOp::Write { address: self.base_address + VIRTIO_MMIO_QUEUE_NOTIFY as u64, value: 1 },
        );
        let ghost (_, written, _) = old(self).sending(header_address, buffer_address, length)->0;
        assert(ops@ =~= old(ops)@ + written);
        Ok(Sending { header, data, target_idx: self.tx.last_used_idx.wrapping_add(1) })
    }

    /// The frame was sent: its descriptors are free again.
    pub fn finish_send(&mut self, sending: &Sending)
        requires
            old(self).wf(),
            sending.header < 8,
            sending.data < 8,
        ensures
            final(self).wf(),
            final(self).base_address == old(self).base_address,
            final(self).mac == old(self).mac,
            final(self).rx == old(self).rx,
            final(self).rx_buffers == old(self).rx_buffers,
            final(self).tx@ == (NetQueue {
                last_used_idx: sending.target_idx,
                ..old(self).tx@
            }).returned(sending.header as int).returned(sending.data as int),
    {
        self.tx.last_used_idx = sending.target_idx;
        self.tx.free_descriptor(sending.header);
        self.tx.free_descriptor(sending.data);
    }
}

/// What is found first is free, and nothing before it.
pub proof fn lemma_first_free(free: Seq<bool>, i: int)
    requires
        0 <= i <= free.len(),
    ensures
        match first_free(free, i) {
            Some(k) => i <= k < free.len() && free[k] && forall|j: int| i <= j < k ==> !free[j],
            None => forall|j: int| i <= j < free.len() ==> !free[j],
        },
    decreases free.len() - i,
{
    if i < free.len() && !free[i] {
        lemma_first_free(free, i + 1);
    }
}

/// Sending a frame and waiting for it leaves the descriptors as they were.
pub proof fn sent_frame_returns_its_descriptors(
    net: VirtioNet,
    header_address: u64,
    buffer_address: u64,
    length: u64,
)
    requires
        net.wf(),
        net.sending(header_address, buffer_address, length) is Some,
    ensures
        ({
            let (queue, _, sending) = net.sending(header_address, buffer_address, length)->0;
            &&& sending.header != sending.data
            &&& net.tx@.free[sending.header as int]
            &&& net.tx@.free[sending.data as int]
            &&& queue.returned(sending.header as int).returned(sending.data as int).free
                == net.tx@.free
        }),
{
    let queue = net.tx@;
    lemma_first_free(queue.free, 0);
    let header = first_free(queue.free, 0)->0;
    lemma_first_free(queue.taken(header).free, 0);
    let data = first_free(queue.taken(header).free, 0)->0;
    assert(queue.taken(header).taken(data).returned(header).returned(data).free =~= queue.free);
}

/// How far the setup of the device is, and which register is awaited.
#[derive(Clone, Copy, PartialEq, Eq, Debug, Structural)]
pub enum NetStage {
    Magic,
    Version,
    DeviceId,
    VendorId,
    /// The status of a device that is to know its driver.
    Driver,
    Features,
    FeaturesOk,
    QueueMax { queue: u32 },
    DriverOk,
    MacLow,
    MacHigh,
    Ready,
    /// This is no such device.
    Refused,
    /// There is no memory for it.
    NoMemory,
}

/// A device that is being set up.
#[derive(Clone, Copy, PartialEq, Eq, Debug, Structural)]
pub struct NetSetup {
    pub stage: NetStage,
    pub base_address: u64,
    pub has_mac: bool,
    pub rx_base: u64,
    pub tx_base: u64,
    pub mac_low: u32,
    pub mac_high: u32,
}

/// What one step brings.
pub struct NetSetupStep {
    pub setup: NetSetup,
    pub memory: FreeMemory,
    pub ops: Seq<IoOp>,
}

impl NetSetup {
    /// The offset of the register that a stage waits for.
    pub open spec fn awaited(stage: NetStage) -> int {
        match stage {
            NetStage::Magic => VIRTIO_MMIO_MAGIC as int,
            NetStage::Version => VIRTIO_MMIO_VERSION as int,
            NetStage::DeviceId => VIRTIO_MMIO_DEVICE_ID as int,
            NetStage::VendorId => VIRTIO_MMIO_VENDOR_ID as int,
            NetStage::Features => VIRTIO_MMIO_DEVICE_FEATURES as int,
            NetStage::QueueMax { .. } => VIRTIO_MMIO_QUEUE_NUM_MAX as int,
            NetStage::MacLow => VIRTIO_CONFIG_OFFSET as int,
            NetStage::MacHigh => VIRTIO_CONFIG_OFFSET + 4,
            _ => VIRTIO_MMIO_STATUS as int,
        }
    }

    pub open spec fn write_op(self, offset: usize, value: u32) -> IoOp {
        IoOp::Write { address: (self.base_address + offset) as u64, value }
    }

    pub open spec fn wf(self) -> bool {
        &&& self.base_address + 0x1000 <= u64::MAX
        &&& self.rx_base + 0x2000 <= u64::MAX
        &&& self.tx_base + 0x2000 <= u64::MAX
    }

    /// The setup at another stage, without memory or accesses.
    pub open spec fn at(self, stage: NetStage, memory: FreeMemory) -> NetSetupStep {
        NetSetupStep { setup: NetSetup { stage, ..self }, memory, ops: Seq::empty() }
    }

    /// The device has enough descriptors: the queue gets its pages.
    pub open spec fn queue_step(self, queue: u32, value: u32, memory: FreeMemory) -> NetSetupStep {
        if value < 8 {
            self.at(NetStage::Refused, memory)
        } else {
            let sized = seq![self.write_op(VIRTIO_MMIO_QUEUE_NUM, 8)];
            match crate::memory::pages_taken(memory, 2, 12) {
                None => NetSetupStep {
                    setup: NetSetup { stage: NetStage::NoMemory, ..self },
                    memory,
                    ops: sized,
                },
                Some((address, after)) => {
                    let placed = sized + seq![
                        IoOp::Zero { address: address as u64, size: 0x2000 },
                        self.write_op(
                            VIRTIO_MMIO_QUEUE_PFN,
                            ((address / 0x1000) % 0x1_0000_0000) as u32,
                        ),
                    ];
                    if queue == 0 {
                        NetSetupStep {
                            setup: NetSetup {
                                stage: NetStage::QueueMax { queue: 1 },
                                rx_base: address as u64,
                                ..self
                            },
                            memory: after,
                            ops: placed + seq![self.write_op(VIRTIO_MMIO_QUEUE_SEL, 1)],
                        }
                    } else {
                        NetSetupStep {
                            setup: NetSetup {
                                stage: NetStage::DriverOk,
                                tx_base: address as u64,
                                ..self
                            },
                            memory: after,
                            ops: placed,
                        }
                    }
                },
            }
        }
    }

    /// What follows on the value of the register that was awaited.
    pub open spec fn next(self, value: u32, memory: FreeMemory) -> NetSetupStep {
        match self.stage {
            NetStage::Magic => if value == VIRTIO_MMIO_MAGIC_VALUE {
                self.at(NetStage::Version, memory)
            } else {
                self.at(NetStage::Refused, memory)
            },
            NetStage::Version => if value == 1 {
                self.at(NetStage::DeviceId, memory)
            } else {
                self.at(NetStage::Refused, memory)
            },
            NetStage::DeviceId => if value == 1 {
                self.at(NetStage::VendorId, memory)
            } else {
                self.at(NetStage::Refused, memory)
            },
            NetStage::VendorId => if value == VIRTIO_VENDOR_QEMU {
                NetSetupStep {
                    setup: NetSetup { stage: NetStage::Driver, ..self },
                    memory,
                    ops: seq![
                        self.write_op(VIRTIO_MMIO_STATUS, 0),
                        self.write_op(VIRTIO_MMIO_STATUS, 1),
                    ],
                }
            } else {
                self.at(NetStage::Refused, memory)
            },
            NetStage::Driver => NetSetupStep {
                setup: NetSetup { stage: NetStage::Features, ..self },
                memory,
                ops: seq![self.write_op(VIRTIO_MMIO_STATUS, value | 2)],
            },
            NetStage::Features => NetSetupStep {
                setup: NetSetup {
                    stage: NetStage::FeaturesOk,
                    has_mac: (value as int / 32) % 2 == 1,
                    ..self
                },
                memory,
                ops: seq![
                    self.write_op(
                        VIRTIO_MMIO_DRIVER_FEATURES,
                        if (value as int / 32) % 2 == 1 {
                            32
                        } else {
                            0
                        },
                    ),
                ],
            },
            NetStage::FeaturesOk => NetSetupStep {
                setup: NetSetup { stage: NetStage::QueueMax { queue: 0 }, ..self },
                memory,
                ops: seq![
                    self.write_op(VIRTIO_MMIO_STATUS, value | 8),
                    self.write_op(VIRTIO_MMIO_GUEST_PAGE_SIZE, 0x1000),
                    self.write_op(VIRTIO_MMIO_QUEUE_SEL, 0),
                ],
            },
            NetStage::QueueMax { queue } => self.queue_step(queue, value, memory),
            NetStage::DriverOk => NetSetupStep {
                setup: NetSetup {
                    stage: if self.has_mac {
                        NetStage::MacLow
                    } else {
                        NetStage::Ready
                    },
                    ..self
                },
                memory,
                ops: seq![self.write_op(VIRTIO_MMIO_STATUS, value | 4)],
            },
            NetStage::MacLow => (NetSetup { mac_low: value, ..self }).at(
                NetStage::MacHigh,
                memory,
            ),
            NetStage::MacHigh => (NetSetup { mac_high: value, ..self }).at(
                NetStage::Ready,
                memory,
            ),
            _ => self.at(self.stage, memory),
        }
    }

    /// The address of the register that is awaited.
    pub fn awaited_register(&self) -> (address: u64)
        requires
            self.wf(),
        ensures
            address == self.base_address + Self::awaited(self.stage),
    {
        let offset: usize = match self.stage {
            NetStage::Magic => VIRTIO_MMIO_MAGIC,
            NetStage::Version => VIRTIO_MMIO_VERSION,
            NetStage::DeviceId => VIRTIO_MMIO_DEVICE_ID,
            NetStage::VendorId => VIRTIO_MMIO_VENDOR_ID,
            NetStage::Features => VIRTIO_MMIO_DEVICE_FEATURES,
            NetStage::QueueMax { .. } => VIRTIO_MMIO_QUEUE_NUM_MAX,
            NetStage::MacLow => VIRTIO_CONFIG_OFFSET,
            NetStage::MacHigh => VIRTIO_CONFIG_OFFSET + 4,
            _ => VIRTIO_MMIO_STATUS,
        };
        self.base_address + offset as u64
    }

    fn write(&self, offset: usize, value: u32) -> (op: IoOp)
        requires
            self.wf(),
            offset < 0x1000,
        ensures
            op == self.write_op(offset, value),
    {
        IoOp::Write { address: self.base_address + offset as u64, value }
    }

    /// Gives a queue its pages.
    fn setup_queue(
        &mut self,
        queue: u32,
        value: u32,
        allocator: &mut MemoryAllocator,
        ops: &mut Vec<IoOp>,
    )
        requires
            old(self).wf(),
            old(allocator).wf(),
        ensures
            final(self).wf(),
            final(allocator).wf(),
            ({
                let step = old(self).queue_step(queue, value, old(allocator)@);
                &&& *final(self) == step.setup
                &&& final(allocator)@ == step.memory
                &&& final(ops)@ == old(ops)@ + step.ops
            }),
    {
        let ghost first = ops@;
        let ghost memory = allocator@;
        assert(first + Seq::<IoOp>::empty() =~= first);
        if value < 8 {
            self.stage = NetStage::Refused;
            return;
        }
        ops.push(self.write(VIRTIO_MMIO_QUEUE_NUM, 8));
        proof {
            crate::allocator_laws::allocator_is_consistent(*allocator);
            assert(ops@ =~= first + seq![old(self).write_op(VIRTIO_MMIO_QUEUE_NUM, 8)]);
        }
        match crate::memory::try_allocate_pages(allocator, QUEUE_PAGES, 12) {
            Some(address) => {
                proof {
                    crate::memory::lemma_pages_taken(memory, 2, 12);
                }
                let address: u64 = address as u64;
                ops.push(IoOp::Zero { address, size: 0x2000 });
                ops.push(
                    self.write(
                        VIRTIO_MMIO_QUEUE_PFN,
                        ((address / 0x1000) % 0x1_0000_0000) as u32,
                    ),
                );
                if queue == 0 {
                    ops.push(self.write(VIRTIO_MMIO_QUEUE_SEL, 1));
                    self.rx_base = address;
                    self.stage = NetStage::QueueMax { queue: 1 };
                } else {
                    self.tx_base = address;
                    self.stage = NetStage::DriverOk;
                }
                assert(ops@ =~= first + old(self).queue_step(queue, value, memory).ops);
            },
            None => {
                self.stage = NetStage::NoMemory;
            },
        }
    }

    /// Takes the value of the register that was awaited.
    pub fn step(&mut self, value: u32, allocator: &mut MemoryAllocator, ops: &mut Vec<IoOp>)
        requires
            old(self).wf(),
            old(allocator).wf(),
        ensures
            final(self).wf(),
            final(allocator).wf(),
            ({
                let step = old(self).next(value, old(allocator)@);
                &&& *final(self) == step.setup
                &&& final(allocator)@ == step.memory
                &&& final(ops)@ == old(ops)@ + step.ops
            }),
    {
        let ghost first = ops@;
        assert(first + Seq::<IoOp>::empty() =~= first);
        match self.stage {
            NetStage::Magic => {
                self.stage = if value == VIRTIO_MMIO_MAGIC_VALUE {
                    NetStage::Version
                } else {
                    NetStage::Refused
                };
            },
            NetStage::Version => {
                self.stage = if value == 1 {
                    NetStage::DeviceId
                } else {
                    NetStage::Refused
                };
            },
            NetStage::DeviceId => {
                self.stage = if value == VIRTIO_ID_NET {
                    NetStage::VendorId
                } else {
                    NetStage::Refused
                };
            },
            NetStage::VendorId => {
                if value != VIRTIO_VENDOR_QEMU {
                    self.stage = NetStage::Refused;
                    return;
                }
                ops.push(self.write(VIRTIO_MMIO_STATUS, 0));
                ops.push(self.write(VIRTIO_MMIO_STATUS, VIRTIO_DEVICE_STATUS_ACKNOWLEDGE));
                self.stage = NetStage::Driver;
            },
            NetStage::Driver => {
                ops.push(self.write(VIRTIO_MMIO_STATUS, value | VIRTIO_DEVICE_STATUS_DRIVER));
                self.stage = NetStage::Features;
            },
            NetStage::Features => {
                self.has_mac = (value / 32) % 2 == 1;
                ops.push(
                    self.write(
                        VIRTIO_MMIO_DRIVER_FEATURES,
                        if self.has_mac {
                            32
                        } else {
                            0
                        },
                    ),
                );
                self.stage = NetStage::FeaturesOk;
            },
            NetStage::FeaturesOk => {
                ops.push(self.write(VIRTIO_MMIO_STATUS, value | VIRTIO_DEVICE_STATUS_FEATURES_OK));
                ops.push(self.write(VIRTIO_MMIO_GUEST_PAGE_SIZE, 0x1000));
                ops.push(self.write(VIRTIO_MMIO_QUEUE_SEL, 0));
                self.stage = NetStage::QueueMax { queue: 0 };
            },
            NetStage::QueueMax { queue } => {
                self.setup_queue(queue, value, allocator, ops);
                return;
            },
            NetStage::DriverOk => {
                ops.push(self.write(VIRTIO_MMIO_STATUS, value | VIRTIO_DEVICE_STATUS_DRIVER_OK));
                self.stage = if self.has_mac {
                    NetStage::MacLow
                } else {
                    NetStage::Ready
                };
            },
            NetStage::MacLow => {
                self.mac_low = value;
                self.stage = NetStage::MacHigh;
            },
            NetStage::MacHigh => {
                self.mac_high = value;
                self.stage = NetStage::Ready;
            },
            _ => {},
        }
        assert(ops@ =~= first + old(self).next(value, old(allocator)@).ops);
    }

    /// The MAC address; all zeros where the device has none.
    pub open spec fn mac(self) -> Seq<u8> {
        if self.has_mac {
            seq![
                (self.mac_low % 0x100) as u8,
                ((self.mac_low / 0x100) % 0x100) as u8,
                ((self.mac_low / 0x1_0000) % 0x100) as u8,
                (self.mac_low / 0x100_0000) as u8,
                (self.mac_high % 0x100) as u8,
                ((self.mac_high / 0x100) % 0x100) as u8,
            ]
        } else {
            seq![0, 0, 0, 0, 0, 0]
        }
    }
}

impl VirtioNet {
    /// Starts to set up the device at `base_address`.
    pub fn new(base_address: u64) -> (setup: NetSetup)
        requires
            base_address + 0x1000 <= u64::MAX,
        ensures
            setup.wf(),
            setup == (NetSetup {
                stage: NetStage::Magic,
                base_address,
                has_mac: false,
                rx_base: 0,
                tx_base: 0,
                mac_low: 0,
                mac_high: 0,
            }),
    {
        NetSetup {
            stage: NetStage::Magic,
            base_address,
            has_mac: false,
            rx_base: 0,
            tx_base: 0,
            mac_low: 0,
            mac_high: 0,
        }
    }

    /// The device whose setup has come to its end, with its RX buffers posted. `None` where there is
    /// no memory for them.
    pub fn finish_setup(setup: &NetSetup, allocator: &mut MemoryAllocator, ops: &mut Vec<IoOp>) -> (net:
        Option<Self>)
        requires
            setup.wf(),
            old(allocator).wf(),
        ensures
            final(allocator).wf(),
            match crate::memory::pages_taken(old(allocator)@, 3, 12) {
                Some((address, memory)) => {
                    let (queue, posted) = Self::posted(
                        NetQueue::fresh(setup.rx_base as int),
                        address,
                        8,
                    );
                    &&& final(allocator)@ == memory
                    &&& net matches Some(net) && net.wf() && net.base_address == setup.base_address
                        && net.mac@ == setup.mac() && net.rx@ == queue && net.tx@
                        == NetQueue::fresh(setup.tx_base as int) && net.rx_buffers == address
                        && final(ops)@ == old(ops)@ + posted + seq![net.notify_op(0)]
                },
                None => {
                    &&& net is None
                    &&& final(allocator)@ == old(allocator)@
                    &&& final(ops)@ == old(ops)@
                },
            },
    {
        let ghost memory = allocator@;
        proof {
            crate::allocator_laws::allocator_is_consistent(*allocator);
        }
        match crate::memory::try_allocate_pages(allocator, RX_BUFFER_PAGES, 12) {
            Some(rx_buffers) => {
                proof {
                    crate::memory::lemma_pages_taken(memory, 3, 12);
                }
                let mac: [u8; 6] = if setup.has_mac {
                    [
                        (setup.mac_low % 0x100) as u8,
                        ((setup.mac_low / 0x100) % 0x100) as u8,
                        ((setup.mac_low / 0x1_0000) % 0x100) as u8,
                        (setup.mac_low / 0x100_0000) as u8,
                        (setup.mac_high % 0x100) as u8,
                        ((setup.mac_high / 0x100) % 0x100) as u8,
                    ]
                } else {
                    [0, 0, 0, 0, 0, 0]
                };
                assert(mac@ =~= setup.mac());
                let mut net = Self {
                    base_address: setup.base_address,
                    mac,
                    rx: VirtQueue::new(setup.rx_base),
                    tx: VirtQueue::new(setup.tx_base),
                    rx_buffers: rx_buffers as u64,
                };
                net.post_all_rx_buffers(ops);
                Some(net)
            },
            None => None,
        }
    }
}

} // verus!
