//! A small Type 1 hypervisor for AArch64.

pub mod bits;
pub mod free_memory;
pub mod memory_allocator;
pub mod allocator_laws;
pub mod guest_memory;
pub mod vgic_lr;
pub mod vgic;
pub mod mmio;
pub mod device;
pub mod drivers;
pub mod laws;
pub mod lock;
pub mod psci;
pub mod serial;
pub mod exception;
pub mod registers;
pub mod paging;
pub mod stage2;
pub mod stage2_needs;
pub mod stage2_tables;
pub mod guest_ram;
pub mod text;
pub mod memory;
pub mod timer;
pub mod dma;
pub mod cpu;
pub mod vm;
pub mod vm_list;
pub mod guest;
pub mod console;
pub mod boot;
pub mod net;
pub mod smp;
pub mod trap;
pub mod block_backend;
