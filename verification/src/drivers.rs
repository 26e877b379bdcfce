//! Drivers of the physical devices.

pub mod gicv2;
pub mod generic_timer;
pub mod virtio;
pub mod xhci;
pub mod block_device;
pub mod sdhci;
pub mod usb_mass_storage;
pub mod virtio_net;
pub mod pl011;
pub mod pcie_brcm;
pub mod genet;
