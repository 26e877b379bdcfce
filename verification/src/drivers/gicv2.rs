//! GICv2 interrupt management.

use crate::device::RegisterOp;
use vstd::prelude::*;

verus! {

pub const DTB_GIC_LEVEL: u32 = 4;

pub const DTB_GIC_SPI: u32 = 0;

pub const DTB_GIC_PPI: u32 = 1;

pub const GIC_PPI_BASE: u32 = 16;

pub const GIC_SPI_BASE: u32 = 32;

#[derive(Copy, Clone, Eq, PartialEq, Debug, Structural)]
pub enum GicGroup {
    NonSecureGroup1,
}

pub struct GicDistributor {
    pub base_address: usize,
}

pub struct GicCpuInterface {
    pub base_address: usize,
}

pub struct GicHypervisorInterface {
    pub base_address: usize,
}

/// What the Distributor holds of one SPI.
#[derive(Clone, Copy, PartialEq, Eq, Debug, Structural)]
pub struct SpiConfig {
    pub group: u32,
    pub enable: u32,
    pub target: u32,
    pub priority: u32,
    pub configuration: u32,
}

/// The address of the register of `int_id`, of which one register holds `per_register`.
pub open spec fn register_of(base: int, register: int, int_id: int, per_register: int) -> int {
    base + register + 4 * (int_id / per_register)
}

impl GicDistributor {
    pub const GICD_MMIO_SIZE: usize = 0x1000;

    pub const GICD_CTLR: usize = 0x000;

    pub const GICD_CTLR_ENABLE_GRP0: u32 = 1;

    pub const GICD_CTLR_ENABLE_GRP1: u32 = 2;

    pub const GICD_IGROUPR: usize = 0x080;

    pub const GICD_ISENABLER: usize = 0x100;

    pub const GICD_ICENABLER: usize = 0x180;

    pub const GICD_ISPENDR: usize = 0x200;

    pub const GICD_ICPENDR: usize = 0x280;

    pub const GICD_IPRIORITYR: usize = 0x400;

    pub const GICD_ITARGETSR: usize = 0x800;

    pub const GICD_ICFGR: usize = 0xC00;

    pub const GICD_SGIR: usize = 0xF00;

    /// The registers of `int_id` have addresses.
    pub open spec fn reaches(&self, int_id: u32) -> bool {
        self.base_address + 0x1000 + int_id + 4 <= usize::MAX
    }

    pub fn new(base_address: usize, size: usize) -> (distributor: Result<Self, ()>)
        ensures
            match distributor {
                Ok(d) => size >= 0x1000 && d.base_address == base_address,
                Err(_) => size < 0x1000,
            },
    {
        if size < Self::GICD_MMIO_SIZE {
            return Err(());
        }
        Ok(Self { base_address })
    }

    /// Enables both groups.
    pub fn init(&self) -> (op: RegisterOp)
        requires
            self.reaches(0),
        ensures
            op == (RegisterOp::Write { address: self.base_address, value: 3 }),
    {
        proof {
            crate::laws::fields::lemma_list_register(0);
        }
        RegisterOp::Write {
            address: self.base_address + Self::GICD_CTLR,
            value: Self::GICD_CTLR_ENABLE_GRP0 | Self::GICD_CTLR_ENABLE_GRP1,
        }
    }

    pub fn set_priority(&self, int_id: u32, priority: u8) -> (op: RegisterOp)
        requires
            self.reaches(int_id),
        ensures
            op.target() == register_of(self.base_address as int, 0x400, int_id as int, 4),
            op == (RegisterOp::Modify {
                address: op.target(),
                clear: 0xFFu32 << ((int_id % 4) * 8) as u32,
                set: (priority as u32) << ((int_id % 4) * 8) as u32,
            }),
    {
        let register_index: usize = (int_id / 4) as usize * 4;
        let register_offset: u32 = (int_id % 4) * 8;
        RegisterOp::Modify {
            address: self.base_address + Self::GICD_IPRIORITYR + register_index,
            clear: 0xFFu32 << register_offset,
            set: (priority as u32) << register_offset,
        }
    }

    pub fn set_group(&self, int_id: u32, group: GicGroup) -> (op: RegisterOp)
        requires
            self.reaches(int_id),
        ensures
            op.target() == register_of(self.base_address as int, 0x080, int_id as int, 32),
            op == (RegisterOp::Modify {
                address: op.target(),
                clear: 1u32 << (int_id % 32),
                set: 1u32 << (int_id % 32),
            }),
    {
        let register_index: usize = (int_id / 32) as usize * 4;
        let register_offset: u32 = int_id % 32;
        let data: u32 = match group {
            GicGroup::NonSecureGroup1 => 1,
        };
        RegisterOp::Modify {
            address: self.base_address + Self::GICD_IGROUPR + register_index,
            clear: 1u32 << register_offset,
            set: data << register_offset,
        }
    }

    pub fn set_enable(&self, int_id: u32, enable: bool) -> (op: RegisterOp)
        requires
            self.reaches(int_id),
        ensures
            op.target() == register_of(
                self.base_address as int,
                if enable {
                    0x100
                } else {
                    0x180
                },
                int_id as int,
                32,
            ),
            op == (RegisterOp::Write { address: op.target(), value: 1u32 << (int_id % 32) }),
    {
        let register_index: usize = (int_id / 32) as usize * 4;
        let register_offset: u32 = int_id % 32;
        let register: usize = if enable {
            Self::GICD_ISENABLER
        } else {
            Self::GICD_ICENABLER
        };
        RegisterOp::Write {
            address: self.base_address + register + register_index,
            value: 1u32 << register_offset,
        }
    }

    pub fn set_pending(&self, int_id: u32, pending: bool) -> (op: RegisterOp)
        requires
            self.reaches(int_id),
        ensures
            op.target() == register_of(
                self.base_address as int,
                if pending {
                    0x200
                } else {
                    0x280
                },
                int_id as int,
                32,
            ),
            op == (RegisterOp::Modify {
                address: op.target(),
                clear: 0,
                set: 1u32 << (int_id % 32),
            }),
    {
        let register_index: usize = (int_id / 32) as usize * 4;
        let register_offset: u32 = int_id % 32;
        let register: usize = if pending {
            Self::GICD_ISPENDR
        } else {
            Self::GICD_ICPENDR
        };
        RegisterOp::Modify {
            address: self.base_address + register + register_index,
            clear: 0,
            set: 1u32 << register_offset,
        }
    }

    pub fn set_trigger_mode(&self, int_id: u32, is_level_trigger: bool) -> (op: RegisterOp)
        requires
            self.reaches(int_id),
        ensures
            op.target() == register_of(self.base_address as int, 0xC00, int_id as int, 16),
            op == (RegisterOp::Modify {
                address: op.target(),
                clear: 0x03u32 << ((int_id % 16) * 2) as u32,
                set: (if is_level_trigger {
                    0u32
                } else {
                    2u32
                }) << ((int_id % 16) * 2) as u32,
            }),
    {
        let register_index: usize = (int_id / 16) as usize * 4;
        let register_offset: u32 = (int_id % 16) * 2;
        let mode: u32 = if is_level_trigger {
            0
        } else {
            2
        };
        RegisterOp::Modify {
            address: self.base_address + Self::GICD_ICFGR + register_index,
            clear: 0x03u32 << register_offset,
            set: mode << register_offset,
        }
    }

    /// Sets the interrupt's destination (CPU Targets List).
    /// GICv2 specifies the destination with an 8-bit CPU ID bitmask instead of Affinity.
    pub fn set_target(&self, int_id: u32, target: u8) -> (op: RegisterOp)
        requires
            self.reaches(int_id),
        ensures
            op.target() == register_of(self.base_address as int, 0x800, int_id as int, 4),
            op == (RegisterOp::Modify {
                address: op.target(),
                clear: 0xFFu32 << ((int_id % 4) * 8) as u32,
                set: (target as u32) << ((int_id % 4) * 8) as u32,
            }),
    {
        let register_index: usize = (int_id / 4) as usize * 4;
        let register_offset: u32 = (int_id % 4) * 8;
        RegisterOp::Modify {
            address: self.base_address + Self::GICD_ITARGETSR + register_index,
            clear: 0xFFu32 << register_offset,
            set: (target as u32) << register_offset,
        }
    }

    /// The target bit of the CPU that read `itargetsr0`: ITARGETSR for interrupts 0-31 is banked,
    /// so the accessing CPU reads its own bit.
    pub fn get_own_target(&self, itargetsr0: u32) -> (target: u8)
        ensures
            target == itargetsr0 % 256,
    {
        get_current_cpu_target(itargetsr0)
    }

    /// The addresses of the group, enable, target, priority and configuration registers of
    /// `int_id`.
    pub fn spi_config_registers(&self, int_id: u32) -> (addresses: [usize; 5])
        requires
            self.reaches(int_id),
        ensures
            addresses[0] == register_of(self.base_address as int, 0x080, int_id as int, 32),
            addresses[1] == register_of(self.base_address as int, 0x100, int_id as int, 32),
            addresses[2] == register_of(self.base_address as int, 0x800, int_id as int, 4),
            addresses[3] == register_of(self.base_address as int, 0x400, int_id as int, 4),
            addresses[4] == register_of(self.base_address as int, 0xC00, int_id as int, 16),
    {
        let by_32: usize = (int_id / 32) as usize * 4;
        let by_16: usize = (int_id / 16) as usize * 4;
        let by_4: usize = (int_id / 4) as usize * 4;
        [
            self.base_address + Self::GICD_IGROUPR + by_32,
            self.base_address + Self::GICD_ISENABLER + by_32,
            self.base_address + Self::GICD_ITARGETSR + by_4,
            self.base_address + Self::GICD_IPRIORITYR + by_4,
            self.base_address + Self::GICD_ICFGR + by_16,
        ]
    }

    /// What the registers of [`spi_config_registers`](Self::spi_config_registers) say of `int_id`.
    /// This confirms on real hardware whether the writes that configured it actually stuck.
    pub fn dump_spi_config(&self, int_id: u32, registers: &[u32; 5]) -> (config: SpiConfig)
        ensures
            config == (SpiConfig {
                group: (registers[0] >> (int_id % 32)) & 1,
                enable: (registers[1] >> (int_id % 32)) & 1,
                target: (registers[2] >> ((int_id % 4) * 8) as u32) & 0xFF,
                priority: (registers[3] >> ((int_id % 4) * 8) as u32) & 0xFF,
                configuration: (registers[4] >> ((int_id % 16) * 2) as u32) & 3,
            }),
    {
        SpiConfig {
            group: (registers[0] >> (int_id % 32)) & 1,
            enable: (registers[1] >> (int_id % 32)) & 1,
            target: (registers[2] >> ((int_id % 4) * 8)) & 0xFF,
            priority: (registers[3] >> ((int_id % 4) * 8)) & 0xFF,
            configuration: (registers[4] >> ((int_id % 16) * 2)) & 3,
        }
    }
}

/// The target bit of the CPU that read `itargetsr0`.
pub fn get_current_cpu_target(itargetsr0: u32) -> (target: u8)
    ensures
        target == itargetsr0 % 256,
{
    proof {
        crate::laws::fields::lemma_list_register(itargetsr0);
    }
    (itargetsr0 & 0xFF) as u8
}

/// Sends an SGI to the specified target CPU. `base_address` is that of the Distributor.
pub fn send_sgi(base_address: usize, target: u8, sgi_id: u32) -> (op: RegisterOp)
    requires
        base_address + 0xF00 <= usize::MAX,
    ensures
        op == (RegisterOp::Write {
            address: (base_address + 0xF00) as usize,
            value: (sgi_id & 0xF) | ((target as u32) << 16u32),
        }),
{
    RegisterOp::Write {
        address: base_address + GicDistributor::GICD_SGIR,
        value: (sgi_id & 0xF) | ((target as u32) << 16u32),
    }
}

impl GicCpuInterface {
    pub const GICC_MMIO_SIZE: usize = 0x1000;

    pub const DEFAULT_PRIORITY_MASK: u8 = 0xff;

    pub const DEFAULT_BINARY_POINT: u8 = 0x03;

    pub const GICC_CTLR: usize = 0x000;

    /// Both groups, the acknowledgement of Group 1 interrupts from a secure access, and the
    /// separation of priority drop and deactivation.
    pub const GICC_CTLR_VALUE: u32 = 0x207;

    pub const GICC_PMR: usize = 0x004;

    pub const GICC_BPR: usize = 0x008;

    pub const GICC_IAR: usize = 0x00C;

    pub const GICC_EOIR: usize = 0x010;

    pub const GICC_IAR_INT_ID: u32 = 0x3FF;

    pub const GICC_DIR: usize = 0x1000;

    /// Value read back from GICC_IAR's INT_ID field when no interrupt is pending for this CPU
    /// interface.
    pub const SPURIOUS_INT_ID: u32 = 1023;

    pub fn new(base_address: usize) -> (interface: Self)
        ensures
            interface.base_address == base_address,
    {
        Self { base_address }
    }

    pub fn init(&self) -> (ops: [RegisterOp; 3])
        requires
            self.base_address + 0x1000 <= usize::MAX,
        ensures
            ops[0] == (RegisterOp::Write {
                address: (self.base_address + 4) as usize,
                value: 0xff,
            }),
            ops[1] == (RegisterOp::Write { address: (self.base_address + 8) as usize, value: 3 }),
            ops[2] == (RegisterOp::Write { address: self.base_address, value: 0x207 }),
    {
        [
            RegisterOp::Write {
                address: self.base_address + Self::GICC_PMR,
                value: Self::DEFAULT_PRIORITY_MASK as u32,
            },
            RegisterOp::Write {
                address: self.base_address + Self::GICC_BPR,
                value: Self::DEFAULT_BINARY_POINT as u32,
            },
            RegisterOp::Write {
                address: self.base_address + Self::GICC_CTLR,
                value: Self::GICC_CTLR_VALUE,
            },
        ]
    }

    /// The interrupt that was acknowledged by reading `iar`.
    pub fn get_acknowledge(iar: u32) -> (acknowledged: (u32, GicGroup))
        ensures
            acknowledged.0 == iar % 1024,
            acknowledged.1 == GicGroup::NonSecureGroup1,
    {
        proof {
            crate::laws::fields::lemma_list_register(iar);
        }
        (iar & Self::GICC_IAR_INT_ID, GicGroup::NonSecureGroup1)
    }

    pub fn drop_priority(&self, int_id: u32, _group: GicGroup) -> (op: RegisterOp)
        requires
            self.base_address + 0x1000 <= usize::MAX,
        ensures
            op == (RegisterOp::Write {
                address: (self.base_address + 0x10) as usize,
                value: int_id,
            }),
    {
        RegisterOp::Write { address: self.base_address + Self::GICC_EOIR, value: int_id }
    }

    pub fn deactivate(&self, int_id: u32) -> (op: RegisterOp)
        requires
            self.base_address + 0x1000 <= usize::MAX,
        ensures
            op == (RegisterOp::Write {
                address: (self.base_address + 0x1000) as usize,
                value: int_id,
            }),
    {
        RegisterOp::Write { address: self.base_address + Self::GICC_DIR, value: int_id }
    }
}

impl GicHypervisorInterface {
    pub const GICH_MMIO_SIZE: usize = 0x1000;

    pub const GICH_HCR_EN: u32 = 1;

    pub const GICH_VTR: usize = 0x004;

    pub const GICH_VTR_LIST_REGS: u32 = 0x3F;

    pub const GICH_EISR0: usize = 0x020;

    pub const GICH_LR0: usize = 0x100;

    pub fn new(base_address: usize) -> (interface: Self)
        ensures
            interface.base_address == base_address,
    {
        Self { base_address }
    }

    pub fn init(&self) -> (op: RegisterOp)
        ensures
            op == (RegisterOp::Write { address: self.base_address, value: 1 }),
    {
        RegisterOp::Write { address: self.base_address, value: Self::GICH_HCR_EN }
    }
}

/// The number of List Registers that GICH_VTR tells.
pub fn get_gich_vtr_list_regs(vtr: u32) -> (count: usize)
    ensures
        count == vtr % 64 + 1,
{
    proof {
        crate::laws::fields::lemma_list_register(vtr);
    }
    (vtr & GicHypervisorInterface::GICH_VTR_LIST_REGS) as usize + 1
}

/// The address of List Register `index`. `base_address` is that of the Hypervisor Interface.
pub fn get_gich_lr(base_address: usize, index: usize) -> (address: usize)
    requires
        base_address + 0x100 + index * 4 <= usize::MAX,
    ensures
        address == base_address + 0x100 + index * 4,
{
    base_address + GicHypervisorInterface::GICH_LR0 + index * 4
}

pub fn set_gich_lr(base_address: usize, index: usize, value: u32) -> (op: RegisterOp)
    requires
        base_address + 0x100 + index * 4 <= usize::MAX,
    ensures
        op == (RegisterOp::Write {
            address: (base_address + 0x100 + index * 4) as usize,
            value,
        }),
{
    RegisterOp::Write { address: get_gich_lr(base_address, index), value }
}

/// What is configured for an SPI is what its registers say: setting the priority of an interrupt
/// reads back as that priority, and leaves the other three of its register.
pub proof fn priority_reads_back(current: u32, int_id: u32, priority: u8, other: u32)
    ensures
        ({
            let offset = ((int_id % 4) * 8) as u32;
            let other_offset = ((other % 4) * 8) as u32;
            let after = (current & !(0xFFu32 << offset)) | ((priority as u32) << offset);
            &&& (after >> offset) & 0xFF == priority as u32
            &&& other % 4 != int_id % 4 ==> (after >> other_offset) & 0xFF == (current
                >> other_offset) & 0xFF
        }),
{
    let offset = ((int_id % 4) * 8) as u32;
    let other_offset = ((other % 4) * 8) as u32;
    let p = priority as u32;
    let after = (current & !(0xFFu32 << offset)) | (p << offset);
    assert((after >> offset) & 0xFF == p && (offset != other_offset ==> (after >> other_offset)
        & 0xFF == (current >> other_offset) & 0xFF)) by (bit_vector)
        requires
            after == (current & !(0xFFu32 << offset)) | (p << offset),
            p <= 0xFF,
            offset == 0 || offset == 8 || offset == 16 || offset == 24,
            other_offset == 0 || other_offset == 8 || other_offset == 16 || other_offset == 24,
    ;
}

} // verus!
