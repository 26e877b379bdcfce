//! USB xHCI host-controller driver.
//!
//! Brings up the xHCI controller behind the PCIe root complex and the mass-storage device on one of
//! its ports. The controller handles USB 2.0 and USB 3.0 devices through the same command ring,
//! transfer rings and contexts.

pub mod bring_up;
pub mod context;
pub mod controller;
pub mod descriptor;
pub mod probe;
pub mod request;
pub mod ring;
pub mod transfer;
