//! Broadcom BCM2711 PCIe root-complex driver.
//!
//! Just enough of the host bridge to reach the one xHCI controller behind it, which the firmware has
//! set up.

use vstd::prelude::*;

verus! {

pub const PCIE_MISC_PCIE_STATUS: u64 = 0x4068;

pub const PCIE_EXT_CFG_DATA: u64 = 0x8000;

pub const PCIE_EXT_CFG_INDEX: u64 = 0x9000;

pub const PCI_CONFIG_VENDOR_DEVICE_ID: u64 = 0x00;

pub const PCI_CONFIG_COMMAND_STATUS: u64 = 0x04;

pub const PCI_CONFIG_CLASS_REVISION: u64 = 0x08;

pub const PCI_CONFIG_BAR0: u64 = 0x10;

pub const PCI_CLASS_XHCI: u32 = 0x0C_0330;

pub const PCI_VENDOR_INVALID: u16 = 0xFFFF;

pub const DEFAULT_PCI_CHILD_BASE: u64 = 0xF800_0000;

pub const DEFAULT_PCI_CHILD_SIZE: u64 = 0x0400_0000;

pub const DEFAULT_CPU_PARENT_BASE: u64 = 0x6_0000_0000;

/// The xHCI controller behind the root complex.
#[derive(Clone, Copy, PartialEq, Eq, Debug, Structural)]
pub struct XhciPciDevice {
    pub vendor_id: u16,
    pub device_id: u16,
    pub cpu_mmio_base: usize,
}

#[derive(Clone, Copy, PartialEq, Eq, Debug, Structural)]
pub struct PcieBrcm {
    pub base_address: u64,
    pub child_mmio_base: u64,
    pub parent_mmio_base: u64,
    pub child_mmio_size: u64,
}

/// An access to the configuration space: a register of the root complex, or a register behind the
/// index that has to be written first.
#[derive(Clone, Copy, PartialEq, Eq, Debug, Structural)]
pub enum ConfigAccess {
    Direct { address: u64 },
    Indexed { index_address: u64, index: u32, address: u64 },
}

/// The number in big-endian cells, the last two of which count.
pub open spec fn number_of(cells: Seq<u32>) -> int
    decreases cells.len(),
{
    if cells.len() == 0 {
        0
    } else {
        (number_of(cells.drop_last()) * 0x1_0000_0000 + cells.last()) % 0x1_0000_0000_0000_0000
    }
}

/// The first window of memory space from entry `i` on: its address on the bus, its address for the
/// CPU and its size.
pub open spec fn window_from(
    cells: Seq<u32>,
    child_cells: int,
    parent_cells: int,
    size_cells: int,
    i: int,
) -> Option<(u64, u64, u64)>
    decreases cells.len() - i,
{
    let entry = child_cells + parent_cells + size_cells;
    if i < 0 || entry <= 0 || i + entry > cells.len() {
        None
    } else if child_cells >= 3 && (cells[i] / 0x100_0000) % 4 == 2 {
        Some(
            (
                number_of(cells.subrange(i + 1, i + child_cells)) as u64,
                number_of(cells.subrange(i + child_cells, i + child_cells + parent_cells)) as u64,
                number_of(cells.subrange(i + child_cells + parent_cells, i + entry)) as u64,
            ),
        )
    } else {
        window_from(cells, child_cells, parent_cells, size_cells, i + entry)
    }
}

/// The window of memory space in a `ranges` property. `None` where the property is not made of whole
/// entries or has no such window.
pub open spec fn window_of(
    cells: Seq<u32>,
    child_cells: int,
    parent_cells: int,
    size_cells: int,
) -> Option<(u64, u64, u64)> {
    let entry = child_cells + parent_cells + size_cells;
    if entry == 0 || cells.len() as int % entry != 0 {
        None
    } else {
        window_from(cells, child_cells, parent_cells, size_cells, 0)
    }
}

fn u64_from_cells_be(cells: &[u32], start: usize, end: usize) -> (value: u64)
    requires
        start <= end <= cells@.len(),
    ensures
        value == number_of(cells@.subrange(start as int, end as int)),
{
    let mut value: u64 = 0;
    let mut i: usize = start;
    assert(cells@.subrange(start as int, start as int) =~= Seq::empty());
    while i < end
        invariant
            start <= i <= end <= cells@.len(),
            value == number_of(cells@.subrange(start as int, i as int)),
        decreases end - i,
    {
        proof {
            let now = cells@.subrange(start as int, i + 1);
            assert(now.drop_last() =~= cells@.subrange(start as int, i as int));
            assert((value as int * 0x1_0000_0000 + cells@[i as int]) % 0x1_0000_0000_0000_0000
                == (value as int % 0x1_0000_0000) * 0x1_0000_0000 + cells@[i as int]);
        }
        value = (value % 0x1_0000_0000) * 0x1_0000_0000 + cells[i] as u64;
        i = i + 1;
    }
    value
}

/// Reads the window of memory space from the cells of a `ranges` property.
pub fn read_mmio_window(
    cells: &[u32],
    child_cells: usize,
    parent_cells: usize,
    size_cells: usize,
) -> (window: Option<(u64, u64, u64)>)
    requires
        child_cells + parent_cells + size_cells <= usize::MAX,
    ensures
        window == window_of(
            cells@,
            child_cells as int,
            parent_cells as int,
            size_cells as int,
        ),
{
    let size: usize = cells.len();
    let entry: usize = child_cells + parent_cells + size_cells;
    if entry == 0 || size % entry != 0 {
        return None;
    }
    let mut i: usize = 0;
    while entry <= size - i
        invariant
            size == cells@.len(),
            i <= size,
            entry == child_cells + parent_cells + size_cells,
            entry > 0,
            window_of(cells@, child_cells as int, parent_cells as int, size_cells as int)
                == window_from(
                cells@,
                child_cells as int,
                parent_cells as int,
                size_cells as int,
                i as int,
            ),
        decreases size - i,
    {
        if child_cells >= 3 && (cells[i] / 0x100_0000) % 4 == 2 {
            let child: u64 = u64_from_cells_be(cells, i + 1, i + child_cells);
            let parent: u64 = u64_from_cells_be(
                cells,
                i + child_cells,
                i + child_cells + parent_cells,
            );
            let window_size: u64 = u64_from_cells_be(
                cells,
                i + child_cells + parent_cells,
                i + entry,
            );
            return Some((child, parent, window_size));
        }
        i = i + entry;
    }
    None
}

/// How far the search for the xHCI controller is, and which register of it is awaited.
#[derive(Clone, Copy, PartialEq, Eq, Debug, Structural)]
pub enum FindStage {
    VendorDevice,
    Class { vendor_id: u16, device_id: u16 },
    Command { vendor_id: u16, device_id: u16 },
    Bar0 { vendor_id: u16, device_id: u16 },
    Bar1 { vendor_id: u16, device_id: u16, low: u32 },
    Found(XhciPciDevice),
    NotFound,
}

impl PcieBrcm {
    pub open spec fn wf(self) -> bool {
        self.base_address + 0x1_0000 <= u64::MAX
    }

    /// The root complex at `base_address`, with the window that the DTB states, or the usual one.
    pub fn new(base_address: u64, window: Option<(u64, u64, u64)>) -> (pcie: Self)
        ensures
            pcie == match window {
                Some((child, parent, size)) => PcieBrcm {
                    base_address,
                    child_mmio_base: child,
                    parent_mmio_base: parent,
                    child_mmio_size: size,
                },
                None => PcieBrcm {
                    base_address,
                    child_mmio_base: 0xF800_0000,
                    parent_mmio_base: 0x6_0000_0000,
                    child_mmio_size: 0x0400_0000,
                },
            },
    {
        let (child_mmio_base, parent_mmio_base, child_mmio_size): (u64, u64, u64) = match window {
            Some(window) => window,
            None => (DEFAULT_PCI_CHILD_BASE, DEFAULT_CPU_PARENT_BASE, DEFAULT_PCI_CHILD_SIZE),
        };
        Self { base_address, child_mmio_base, parent_mmio_base, child_mmio_size }
    }

    /// Where the status register is.
    pub fn status_address(&self) -> (address: u64)
        requires
            self.wf(),
        ensures
            address == self.base_address + 0x4068,
    {
        self.base_address + PCIE_MISC_PCIE_STATUS
    }

    /// Whether the physical and the data link are up.
    pub fn is_link_up(status: u32) -> (up: bool)
        ensures
            up == ((status as int / 0x10) % 4 == 3),
    {
        (status / 0x10) % 4 == 3
    }

    /// How a register of the configuration space is accessed. `None` where there is none: only the
    /// root complex and the one device behind it are reached, and only whole words.
    pub open spec fn config_access_of(self, bus: u8, dev: u8, func: u8, offset: u64) -> Option<
        ConfigAccess,
    > {
        if offset as int % 4 != 0 {
            None
        } else if bus == 0 {
            Some(ConfigAccess::Direct { address: (self.base_address + offset) as u64 })
        } else if bus != 1 || dev != 0 || func != 0 {
            None
        } else {
            Some(
                ConfigAccess::Indexed {
                    index_address: (self.base_address + 0x9000) as u64,
                    index: 0x10_0000,
                    address: (self.base_address + 0x8000 + offset) as u64,
                },
            )
        }
    }

    pub fn config_access(&self, bus: u8, dev: u8, func: u8, offset: u64) -> (access: Option<
        ConfigAccess,
    >)
        requires
            self.wf(),
            offset < 0x1000,
        ensures
            access == self.config_access_of(bus, dev, func, offset),
    {
        if offset % 4 != 0 {
            return None;
        }
        if bus == 0 {
            return Some(ConfigAccess::Direct { address: self.base_address + offset });
        }
        if bus != 1 || dev != 0 || func != 0 {
            return None;
        }
        Some(
            ConfigAccess::Indexed {
                index_address: self.base_address + PCIE_EXT_CFG_INDEX,
                index: 0x10_0000,
                address: self.base_address + PCIE_EXT_CFG_DATA + offset,
            },
        )
    }

    /// Where the CPU has what is at `bar` on the bus. `None` outside of the window.
    pub open spec fn cpu_address(self, bar: u64) -> Option<usize> {
        let address = self.parent_mmio_base + bar - self.child_mmio_base;
        if bar < self.child_mmio_base || bar >= self.child_mmio_base + self.child_mmio_size
            || address > usize::MAX || address > u64::MAX {
            None
        } else {
            Some(address as usize)
        }
    }

    pub fn translate_bar_to_cpu(&self, bar: u64) -> (address: Option<usize>)
        ensures
            address == self.cpu_address(bar),
    {
        if bar < self.child_mmio_base || bar - self.child_mmio_base >= self.child_mmio_size {
            return None;
        }
        match self.parent_mmio_base.checked_add(bar - self.child_mmio_base) {
            Some(address) => if address <= usize::MAX as u64 {
                Some(address as usize)
            } else {
                None
            },
            None => None,
        }
    }

    /// The controller with its registers at `bar` on the bus.
    pub open spec fn found(self, vendor_id: u16, device_id: u16, bar: int) -> FindStage {
        match self.cpu_address(bar as u64) {
            Some(cpu_mmio_base) => FindStage::Found(
                XhciPciDevice { vendor_id, device_id, cpu_mmio_base },
            ),
            None => FindStage::NotFound,
        }
    }

    /// What follows on the value of the register that was awaited. The second part is what is written
    /// back to it: the device may be accessed and access memory itself.
    pub open spec fn find_next(self, stage: FindStage, value: u32) -> (FindStage, Option<u32>) {
        match stage {
            FindStage::VendorDevice => if value as int % 0x1_0000 == 0xFFFF {
                (FindStage::NotFound, None)
            } else {
                (
                    FindStage::Class {
                        vendor_id: (value % 0x1_0000) as u16,
                        device_id: (value / 0x1_0000) as u16,
                    },
                    None,
                )
            },
            FindStage::Class { vendor_id, device_id } => if value as int / 0x100
                != PCI_CLASS_XHCI {
                (FindStage::NotFound, None)
            } else {
                (FindStage::Command { vendor_id, device_id }, None)
            },
            FindStage::Command { vendor_id, device_id } => (
                FindStage::Bar0 { vendor_id, device_id },
                Some(value | 6),
            ),
            FindStage::Bar0 { vendor_id, device_id } => {
                let low = value - value as int % 16;
                if value as int % 2 == 1 {
                    (FindStage::NotFound, None)
                } else if (value as int / 2) % 4 == 2 {
                    (FindStage::Bar1 { vendor_id, device_id, low: low as u32 }, None)
                } else {
                    (self.found(vendor_id, device_id, low), None)
                }
            },
            FindStage::Bar1 { vendor_id, device_id, low } => (
                self.found(vendor_id, device_id, value * 0x1_0000_0000 + low),
                None,
            ),
            _ => (stage, None),
        }
    }

    /// The offset of the register that a stage waits for.
    pub fn awaited_register(stage: FindStage) -> (offset: u64)
        ensures
            offset == match stage {
                FindStage::VendorDevice => 0u64,
                FindStage::Class { .. } => 8u64,
                FindStage::Command { .. } => 4u64,
                FindStage::Bar0 { .. } => 0x10u64,
                FindStage::Bar1 { .. } => 0x14u64,
                _ => 0u64,
            },
    {
        match stage {
            FindStage::VendorDevice => PCI_CONFIG_VENDOR_DEVICE_ID,
            FindStage::Class { .. } => PCI_CONFIG_CLASS_REVISION,
            FindStage::Command { .. } => PCI_CONFIG_COMMAND_STATUS,
            FindStage::Bar0 { .. } => PCI_CONFIG_BAR0,
            FindStage::Bar1 { .. } => PCI_CONFIG_BAR0 + 4,
            _ => 0,
        }
    }

    fn found_at(&self, vendor_id: u16, device_id: u16, bar: u64) -> (stage: FindStage)
        ensures
            stage == self.found(vendor_id, device_id, bar as int),
    {
        match self.translate_bar_to_cpu(bar) {
            Some(cpu_mmio_base) => FindStage::Found(
                XhciPciDevice { vendor_id, device_id, cpu_mmio_base },
            ),
            None => FindStage::NotFound,
        }
    }

    /// Takes the value of the register that was awaited, and tells what to look at next and what to
    /// write back.
    pub fn find_xhci_device(&self, stage: FindStage, value: u32) -> (next: (FindStage, Option<u32>))
        ensures
            next == self.find_next(stage, value),
    {
        match stage {
            FindStage::VendorDevice => {
                let vendor_id: u16 = (value % 0x1_0000) as u16;
                if vendor_id == PCI_VENDOR_INVALID {
                    return (FindStage::NotFound, None);
                }
                (FindStage::Class { vendor_id, device_id: (value / 0x1_0000) as u16 }, None)
            },
            FindStage::Class { vendor_id, device_id } => if value / 0x100 != PCI_CLASS_XHCI {
                (FindStage::NotFound, None)
            } else {
                (FindStage::Command { vendor_id, device_id }, None)
            },
            FindStage::Command { vendor_id, device_id } => (
                FindStage::Bar0 { vendor_id, device_id },
                Some(value | 6),
            ),
            FindStage::Bar0 { vendor_id, device_id } => {
                if value % 2 == 1 {
                    return (FindStage::NotFound, None);
                }
                let low: u32 = value - value % 16;
                if (value / 2) % 4 == 2 {
                    (FindStage::Bar1 { vendor_id, device_id, low }, None)
                } else {
                    (self.found_at(vendor_id, device_id, low as u64), None)
                }
            },
            FindStage::Bar1 { vendor_id, device_id, low } => (
                self.found_at(vendor_id, device_id, value as u64 * 0x1_0000_0000 + low as u64),
                None,
            ),
            _ => (stage, None),
        }
    }
}

/// A translated address is as far into the CPU's window as the address on the bus is into its own.
pub proof fn translation_keeps_the_distance(pcie: PcieBrcm, a: u64, b: u64)
    requires
        pcie.cpu_address(a) is Some,
        pcie.cpu_address(b) is Some,
    ensures
        pcie.cpu_address(b)->0 - pcie.cpu_address(a)->0 == b - a,
{
}

} // verus!
