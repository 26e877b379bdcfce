//! What the legacy Virtio-MMIO devices have in common.

use vstd::prelude::*;

verus! {

pub const VIRTIO_MMIO_MAGIC: usize = 0x000;

pub const VIRTIO_MMIO_MAGIC_VALUE: u32 = 0x7472_6976;

pub const VIRTIO_MMIO_VERSION: usize = 0x004;

pub const VIRTIO_MMIO_DEVICE_ID: usize = 0x008;

pub const VIRTIO_MMIO_VENDOR_ID: usize = 0x00C;

pub const VIRTIO_MMIO_DEVICE_FEATURES: usize = 0x010;

pub const VIRTIO_MMIO_DEVICE_FEATURES_SEL: usize = 0x014;

pub const VIRTIO_MMIO_DRIVER_FEATURES: usize = 0x020;

pub const VIRTIO_MMIO_DRIVER_FEATURES_SEL: usize = 0x024;

pub const VIRTIO_MMIO_GUEST_PAGE_SIZE: usize = 0x028;

pub const VIRTIO_MMIO_QUEUE_SEL: usize = 0x030;

pub const VIRTIO_MMIO_QUEUE_NUM_MAX: usize = 0x034;

pub const VIRTIO_MMIO_QUEUE_NUM: usize = 0x038;

pub const VIRTIO_MMIO_QUEUE_PFN: usize = 0x040;

pub const VIRTIO_MMIO_QUEUE_NOTIFY: usize = 0x050;

pub const VIRTIO_MMIO_INTERRUPT_STATUS: usize = 0x060;

pub const VIRTIO_MMIO_INTERRUPT_ACK: usize = 0x064;

pub const VIRTIO_MMIO_STATUS: usize = 0x070;

pub const VIRTIO_CONFIG_OFFSET: usize = 0x100;

pub const VIRTIO_ID_NET: u32 = 1;

pub const VIRTIO_DEVICE_STATUS_ACKNOWLEDGE: u32 = 1;

pub const VIRTIO_DEVICE_STATUS_DRIVER: u32 = 2;

pub const VIRTIO_DEVICE_STATUS_DRIVER_OK: u32 = 4;

pub const VIRTIO_DEVICE_STATUS_FEATURES_OK: u32 = 8;

pub const VIRT_QUEUE_DESC_FLAGS_NEXT: u16 = 1;

pub const VIRT_QUEUE_DESC_FLAGS_WRITE: u16 = 2;

/// A buffer that is handed from one side to the other.
#[derive(Clone, Copy, PartialEq, Eq, Debug, Structural)]
pub struct VirtQueueDesc {
    pub address: u64,
    pub length: u32,
    pub flags: u16,
    pub next: u16,
}

} // verus!
