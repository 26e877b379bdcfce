//! Devices that are emulated for the guests.

pub mod gicv2;
pub mod pl011;
pub mod virtio;
pub mod virtio_net;
pub mod virtio_console;
