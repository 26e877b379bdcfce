//! What the operations are for: laws on what a call is given and what it gives back.

pub mod console;
pub mod console_device;
pub mod contexts;
pub mod devices;
pub mod distributor;
pub mod fields;
pub mod guests;
pub mod host;
pub mod interrupts;
pub mod maintenance;
pub mod memory;
pub mod net_setup;
pub mod network;
pub mod parts;
pub mod sd_setup;
pub mod status;
pub mod storage;
pub mod traps;
pub mod usb;
pub mod usb_devices;
pub mod vcpus;
pub mod virtio;
