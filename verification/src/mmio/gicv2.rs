//! Generic Interrupt Controller version 2 MMIO emulation.
//!
//! GICv2 has no Redistributor, and SGI/PPI (ID 0-31) configuration is also done via registers in
//! the same MMIO region as the Distributor. The SGI/PPI half of those registers is banked per
//! accessing CPU interface, so it is kept in a separate bank for each physical CPU.

use crate::drivers::generic_timer::GENERIC_TIMER_VIRTUAL_INT_ID;
use crate::vgic::{CpuInterface, CpuModel};
use vstd::prelude::*;

verus! {

/// Number of physical GICv2 CPU interfaces a target bitmask can address.
pub const MAX_CPU_INTERFACES: usize = 8;

/// INTIDs 0-31 (SGI 0-15 + PPI 16-31) are banked per CPU interface.
pub const BANKED_INT_ID_COUNT: usize = 32;

/// The SGI/PPI (INTID 0-31) half of the Distributor's register arrays, which GICv2 banks per
/// accessing CPU interface: every CPU sees and owns its own private copy at the very same MMIO
/// offsets.
#[derive(Clone, Copy)]
pub struct BankedRegisters {
    pub group: u32,
    pub enable: u32,
    pub pending: u32,
    pub active: u32,
    /// 8 bits per INTID, so 4 INTIDs per 32-bit register.
    pub priority: [u32; 8],
    /// 2 bits per INTID, so 16 INTIDs per 32-bit register.
    pub configuration: [u32; 2],
}

pub struct GicDistributorMmio {
    pub ctlr: u32,
    /* The arrays below hold only the shared (SPI, INTID >= 32) half of each register array;
     * their entries for INTID 0-31 are unused. */
    pub group: [u32; 32],
    pub enable: [u32; 32],
    pub pending: [u32; 32],
    pub active: [u32; 32],
    pub priority: [u32; 255],
    pub configuration: [u32; 64],
    pub target: [u32; 255],
    /// The SGI/PPI (INTID 0-31) registers of each physical CPU.
    pub banked: [BankedRegisters; MAX_CPU_INTERFACES],
    /// GICv2 target bit of the physical CPU running this VM.
    pub own_target: u8,
    /// Entries for the List Registers of other physical CPUs, each with the target bit of its
    /// CPU.
    pub to_inject_interrupt: Vec<(u8, u32)>,
}

/* Registers */
pub const GICD_CTLR: usize = 0x0000;

pub const GICD_TYPER: usize = 0x0004;

pub const GICD_IGROUPR0: usize = 0x0080;

pub const GICD_IGROUPR31: usize = 0x00FC;

pub const GICD_ISENABLER0: usize = 0x0100;

pub const GICD_ISENABLER31: usize = 0x017C;

pub const GICD_ICENABLER0: usize = 0x0180;

pub const GICD_ICENABLER31: usize = 0x01FC;

pub const GICD_ISPENDR0: usize = 0x0200;

pub const GICD_ISPENDR31: usize = 0x027C;

pub const GICD_ICPENDR0: usize = 0x0280;

pub const GICD_ICPENDR31: usize = 0x02FC;

pub const GICD_ISACTIVER0: usize = 0x0300;

pub const GICD_ISACTIVER31: usize = 0x037C;

pub const GICD_ICACTIVER0: usize = 0x0380;

pub const GICD_ICACTIVER31: usize = 0x03FC;

pub const GICD_IPRIORITYR0: usize = 0x0400;

pub const GICD_IPRIORITYR254: usize = 0x07F8;

pub const GICD_ITARGETSR0: usize = 0x0800;

pub const GICD_ITARGETSR254: usize = 0x0BF8;

pub const GICD_ICFGR0: usize = 0x0C00;

pub const GICD_ICFGR63: usize = 0x0CFC;

pub const GICD_SGIR: usize = 0x0F00;

pub const GICD_PIDR2: usize = 0xFFE8;

/// Either group enabled. In the single security state only bit 0 is meaningful, and Linux writes
/// bit 0 only, so the Distributor counts as enabled if either bit is set.
pub const GICD_CTLR_ENABLE: u32 = 3;

/// ITLinesNumber: Max SPI ID (1023).
pub const GICD_TYPER_VALUE: u32 = 31;

pub const GIC_REVISION: u64 = 2;

/// The SGI that makes another physical CPU inject what is queued for it.
pub const INJECT_INTERRUPT_INT_ID: u32 = 11;

/// This platform supports up to 4 physical CPUs.
pub const ALL_PCPU_TARGETS: u8 = 0x0F;

/// The lowest CPU of a target mask.
pub open spec fn cpu_index(target: u8) -> int {
    if target & 0x01 != 0 {
        0
    } else if target & 0x02 != 0 {
        1
    } else if target & 0x04 != 0 {
        2
    } else if target & 0x08 != 0 {
        3
    } else if target & 0x10 != 0 {
        4
    } else if target & 0x20 != 0 {
        5
    } else if target & 0x40 != 0 {
        6
    } else {
        7
    }
}

/// The Distributor as the CPUs see it. Each register array is given for each CPU.
#[verifier::ext_equal]
pub struct Distributor {
    pub ctlr: u32,
    pub group: Seq<Seq<u32>>,
    pub enable: Seq<Seq<u32>>,
    pub pending: Seq<Seq<u32>>,
    pub active: Seq<Seq<u32>>,
    pub priority: Seq<Seq<u32>>,
    pub configuration: Seq<Seq<u32>>,
    pub target: Seq<u32>,
    pub own_target: u8,
    pub queue: Seq<(u8, u32)>,
}

/// Register `index` becomes `value`: for CPU `cpu` alone where the register is banked, else for
/// all the CPUs.
pub open spec fn set_register(
    registers: Seq<Seq<u32>>,
    banked: int,
    cpu: int,
    index: int,
    value: u32,
) -> Seq<Seq<u32>> {
    Seq::new(
        registers.len(),
        |c: int|
            if index < banked && c != cpu {
                registers[c]
            } else {
                registers[c].update(index, value)
            },
    )
}

/// The bit of INTID `int_id` in registers of 32 INTIDs each.
pub open spec fn int_id_bit(registers: Seq<Seq<u32>>, cpu: int, int_id: int) -> bool {
    crate::bits::bit(registers[cpu][int_id / 32], int_id % 32)
}

/// The registers once the bit of INTID `int_id` is on or off.
pub open spec fn with_int_id_bit(
    registers: Seq<Seq<u32>>,
    cpu: int,
    int_id: int,
    on: bool,
) -> Seq<Seq<u32>> {
    let value = registers[cpu][int_id / 32];
    let mask = 1u32 << ((int_id % 32) as u32);
    set_register(
        registers,
        1,
        cpu,
        int_id / 32,
        if on {
            value | mask
        } else {
            value & !mask
        },
    )
}

/// Eight views of `n` registers, of which only the first `banked` ones differ.
pub open spec fn is_shared(registers: Seq<Seq<u32>>, banked: int, n: nat) -> bool {
    &&& registers.len() == 8
    &&& forall|c: int| 0 <= c < 8 ==> (#[trigger] registers[c]).len() == n
    &&& forall|c: int, i: int|
        0 <= c < 8 && banked <= i < n ==> #[trigger] registers[c][i] == registers[0][i]
}

impl Distributor {
    /// The CPUs see the same SPI registers.
    pub open spec fn valid(self) -> bool {
        &&& is_shared(self.group, 1, 32)
        &&& is_shared(self.enable, 1, 32)
        &&& is_shared(self.pending, 1, 32)
        &&& is_shared(self.active, 1, 32)
        &&& is_shared(self.priority, 8, 255)
        &&& is_shared(self.configuration, 2, 64)
        &&& self.target.len() == 255
    }

    pub open spec fn reset(own_target: u8) -> Distributor {
        Distributor {
            ctlr: 0,
            group: Seq::new(8, |c: int| Seq::new(32, |i: int| 0u32)),
            enable: Seq::new(8, |c: int| Seq::new(32, |i: int| 0u32)),
            pending: Seq::new(8, |c: int| Seq::new(32, |i: int| 0u32)),
            active: Seq::new(8, |c: int| Seq::new(32, |i: int| 0u32)),
            priority: Seq::new(8, |c: int| Seq::new(255, |i: int| 0u32)),
            configuration: Seq::new(8, |c: int| Seq::new(64, |i: int| 0u32)),
            target: Seq::new(255, |i: int| 0u32),
            own_target,
            queue: Seq::empty(),
        }
    }

    pub open spec fn is_on(self) -> bool {
        self.ctlr & 3 != 0
    }

    pub open spec fn is_enabled(self, cpu: int, int_id: int) -> bool {
        int_id_bit(self.enable, cpu, int_id)
    }

    pub open spec fn is_pending(self, cpu: int, int_id: int) -> bool {
        int_id_bit(self.pending, cpu, int_id)
    }

    pub open spec fn group_of(self, cpu: int, int_id: int) -> u32 {
        (self.group[cpu][int_id / 32] >> ((int_id % 32) as u32)) & 1
    }

    pub open spec fn priority_of(self, cpu: int, int_id: int) -> u32 {
        (self.priority[cpu][int_id / 4] >> (((int_id % 4) * 8) as u32)) & 0xFF
    }

    pub open spec fn with_pending(self, cpu: int, int_id: int, on: bool) -> Distributor {
        Distributor { pending: with_int_id_bit(self.pending, cpu, int_id, on), ..self }
    }

    pub open spec fn with_active(self, cpu: int, int_id: int, on: bool) -> Distributor {
        Distributor { active: with_int_id_bit(self.active, cpu, int_id, on), ..self }
    }

    /// A pending interrupt reaches CPU `cpu`.
    pub open spec fn delivers(self, cpu: int, int_id: int) -> bool {
        self.is_on() && self.is_enabled(cpu, int_id)
    }

    /// The List Register entry of the interrupt for CPU `cpu`.
    pub open spec fn entry(self, cpu: int, int_id: int, physical_int_id: Option<u32>) -> u32 {
        crate::vgic_lr::list_register_entry(
            int_id as u32,
            self.group_of(cpu, int_id),
            self.priority_of(cpu, int_id),
            physical_int_id,
        )
    }

    /// The interrupt becomes pending at each CPU of `targets` from CPU `bit` on. Where it reaches
    /// the CPU, it is injected into the List Registers of this one, or queued for another one,
    /// which is prodded by an SGI.
    pub open spec fn triggered(
        self,
        cpu: CpuModel,
        int_id: int,
        physical_int_id: Option<u32>,
        targets: u8,
        bit: int,
        injected: bool,
    ) -> (Distributor, CpuModel, bool)
        decreases 8 - bit,
    {
        let target = 1u8 << (bit as u8);
        let pended = self.with_pending(bit, int_id, true);
        let entry = pended.entry(bit, int_id, physical_int_id);
        if bit >= 8 {
            (self, cpu, injected)
        } else if targets & target == 0 {
            self.triggered(cpu, int_id, physical_int_id, targets, bit + 1, injected)
        } else if !pended.delivers(bit, int_id) {
            pended.triggered(cpu, int_id, physical_int_id, targets, bit + 1, injected)
        } else if target == cpu.target {
            pended.triggered(
                cpu.injected(entry),
                int_id,
                physical_int_id,
                targets,
                bit + 1,
                injected || cpu.accepts(entry),
            )
        } else {
            (Distributor { queue: pended.queue.push((target, entry)), ..pended }).triggered(
                CpuModel { sgi_targets: cpu.sgi_targets.push(target), ..cpu },
                int_id,
                physical_int_id,
                targets,
                bit + 1,
                true,
            )
        }
    }

    /// The CPUs that an interrupt goes to when the guest enables or pends it: a banked one
    /// belongs to the CPU that performed the write, an SPI to the CPU that runs the VM.
    pub open spec fn retrigger_targets(self, cpu: CpuModel, int_id: int) -> u8 {
        if int_id < 32 {
            cpu.target
        } else {
            self.own_target
        }
    }

    /// The INTID has registers, and a priority where it is delivered.
    pub open spec fn can_trigger(self, int_id: int, targets: u8) -> bool {
        &&& 0 <= int_id < 1024
        &&& int_id >= 1020 && targets != 0 ==> !self.delivers(0, int_id)
    }

    /// Each INTID whose bit is set in `value`, from `int_id` on, is triggered where it is pending
    /// (after an enable) or enabled (after a pend).
    pub open spec fn retriggered(
        self,
        cpu: CpuModel,
        int_id: int,
        value: int,
        after_enable: bool,
    ) -> (Distributor, CpuModel)
        decreases value,
    {
        if value <= 0 {
            (self, cpu)
        } else if value % 2 == 1 && self.is_selected(cpu_index(cpu.target), int_id, after_enable) {
            let next = self.triggered(
                cpu,
                int_id,
                None,
                self.retrigger_targets(cpu, int_id),
                0,
                false,
            );
            next.0.retriggered(next.1, int_id + 1, value / 2, after_enable)
        } else {
            self.retriggered(cpu, int_id + 1, value / 2, after_enable)
        }
    }

    pub open spec fn is_selected(self, cpu: int, int_id: int, after_enable: bool) -> bool {
        if after_enable {
            self.is_pending(cpu, int_id)
        } else {
            self.is_enabled(cpu, int_id)
        }
    }

    /// Each INTID whose bit is set in `value`, from `int_id` on, can be triggered where it is
    /// selected.
    pub open spec fn can_retrigger(
        self,
        cpu: CpuModel,
        int_id: int,
        value: int,
        after_enable: bool,
    ) -> bool
        decreases value,
    {
        if value <= 0 {
            true
        } else {
            &&& value % 2 == 1 ==> {
                &&& int_id < 1024
                &&& self.is_selected(cpu_index(cpu.target), int_id, after_enable)
                    ==> self.can_trigger(int_id, self.retrigger_targets(cpu, int_id))
            }
            &&& self.can_retrigger(cpu, int_id + 1, value / 2, after_enable)
        }
    }

    /// The interrupt is to be delivered to this CPU, but no List Register holds it: there was none
    /// free. An SPI belongs to the CPU that runs the VM. The timer is left out, as it raises its
    /// physical interrupt again.
    pub open spec fn is_waiting(self, cpu: CpuModel, int_id: int) -> bool {
        &&& int_id != GENERIC_TIMER_VIRTUAL_INT_ID
        &&& int_id < 32 || self.own_target & cpu.target != 0
        &&& self.is_pending(cpu_index(cpu.target), int_id)
        &&& self.delivers(cpu_index(cpu.target), int_id)
        &&& !cpu.holds_int_id(int_id)
    }

    /// The interface once the waiting interrupts from `int_id` on are injected, as long as a List
    /// Register is free.
    pub open spec fn pending_injected(self, cpu: CpuModel, int_id: int) -> CpuModel
        decreases 1020 - int_id,
    {
        if int_id >= 1020 || !cpu.has_free() {
            cpu
        } else if self.is_waiting(cpu, int_id) {
            self.pending_injected(
                cpu.injected(self.entry(cpu_index(cpu.target), int_id, None)),
                int_id + 1,
            )
        } else {
            self.pending_injected(cpu, int_id + 1)
        }
    }

    /// What CPU `cpu` reads at `offset`, in `width` bits: zero where there is no register.
    pub open spec fn read_value(self, cpu: CpuModel, offset: int, width: int) -> u64 {
        let index = cpu_index(cpu.target);
        if offset == GICD_CTLR && width == 32 {
            self.ctlr as u64
        } else if offset == GICD_TYPER && width == 32 {
            31
        } else if GICD_IGROUPR0 <= offset <= GICD_IGROUPR31 && width == 32 {
            self.group[index][(offset - GICD_IGROUPR0) / 4] as u64
        } else if GICD_ISENABLER0 <= offset <= GICD_ISENABLER31 && width == 32 {
            self.enable[index][(offset - GICD_ISENABLER0) / 4] as u64
        } else if GICD_ICENABLER0 <= offset <= GICD_ICENABLER31 && width == 32 {
            self.enable[index][(offset - GICD_ICENABLER0) / 4] as u64
        } else if GICD_ISPENDR0 <= offset <= GICD_ISPENDR31 && width == 32 {
            self.pending[index][(offset - GICD_ISPENDR0) / 4] as u64
        } else if GICD_ICPENDR0 <= offset <= GICD_ICPENDR31 && width == 32 {
            self.pending[index][(offset - GICD_ICPENDR0) / 4] as u64
        } else if GICD_ISACTIVER0 <= offset <= GICD_ISACTIVER31 && width == 32 {
            self.active[index][(offset - GICD_ISACTIVER0) / 4] as u64
        } else if GICD_ICACTIVER0 <= offset <= GICD_ICACTIVER31 && width == 32 {
            self.active[index][(offset - GICD_ICACTIVER0) / 4] as u64
        } else if GICD_IPRIORITYR0 <= offset < GICD_IPRIORITYR254 + 4 {
            let value = self.priority[index][(offset - GICD_IPRIORITYR0) / 4] as u64;
            let byte = offset % 4;
            if width == 8 {
                (value >> ((byte * 8) as u64)) & 0xff
            } else if width == 32 && byte == 0 {
                value
            } else {
                0
            }
        } else if GICD_ITARGETSR0 <= offset < GICD_ITARGETSR254 + 4 {
            let register = (offset - GICD_ITARGETSR0) / 4;
            let byte = offset % 4;
            let own = cpu.target as u32;
            if width == 8 {
                if register < 8 {
                    own as u64
                } else {
                    ((self.target[register] >> ((byte * 8) as u32)) as u64) & 0xff
                }
            } else if width == 32 && byte == 0 {
                if register < 8 {
                    (own | (own << 8u32) | (own << 16u32) | (own << 24u32)) as u64
                } else {
                    self.target[register] as u64
                }
            } else {
                0
            }
        } else if GICD_ICFGR0 <= offset <= GICD_ICFGR63 && width == 32 {
            self.configuration[index][(offset - GICD_ICFGR0) / 4] as u64
        } else if offset == GICD_PIDR2 && width == 32 {
            0x20
        } else {
            0
        }
    }

    /// Byte `byte` of `register` becomes `value`, of which more than a byte is taken as it is.
    pub open spec fn with_byte(register: u32, byte: int, value: u64) -> u32 {
        (register & !(0xFFu32 << ((byte * 8) as u32))) | (
        #[verifier::truncate] ((value << ((byte * 8) as u64)) as u32))
    }

    /// The CPUs that a write of `value` to GICD_SGIR raises an SGI at: those of the list, all but
    /// the writing CPU, or the writing CPU.
    pub open spec fn sgi_targets(cpu: CpuModel, value: u64) -> u8 {
        let filter = (value >> 24u64) & 3;
        if filter == 0 {
            (#[verifier::truncate] (((value >> 16u64) & 0xFF) as u8))
        } else if filter == 1 {
            ALL_PCPU_TARGETS & !cpu.target
        } else {
            cpu.target
        }
    }

    /// What a write of `value` by CPU `cpu` at `offset`, in `width` bits, does. A write where there
    /// is no register, or where it is read-only, does nothing.
    pub open spec fn written(self, cpu: CpuModel, offset: int, width: int, value: u64) -> (
        Distributor,
        CpuModel,
    ) {
        let index = cpu_index(cpu.target);
        let word = #[verifier::truncate] (value as u32);
        if offset == GICD_CTLR && width == 32 {
            (Distributor { ctlr: word, ..self }, cpu)
        } else if GICD_IGROUPR0 <= offset <= GICD_IGROUPR31 && width == 32 {
            let r = (offset - GICD_IGROUPR0) / 4;
            (Distributor { group: set_register(self.group, 1, index, r, word), ..self }, cpu)
        } else if GICD_ISENABLER0 <= offset <= GICD_ISENABLER31 && width == 32 {
            let r = (offset - GICD_ISENABLER0) / 4;
            self.with_enabled(index, r, word).retriggered(cpu, r * 32, value as int, true)
        } else if GICD_ICENABLER0 <= offset <= GICD_ICENABLER31 && width == 32 {
            let r = (offset - GICD_ICENABLER0) / 4;
            (
                Distributor {
                    enable: set_register(self.enable, 1, index, r, self.enable[index][r] & !word),
                    ..self
                },
                cpu,
            )
        } else if GICD_ISPENDR0 <= offset <= GICD_ISPENDR31 && width == 32 {
            let r = (offset - GICD_ISPENDR0) / 4;
            self.with_pended(index, r, word).retriggered(cpu, r * 32, value as int, false)
        } else if GICD_ICPENDR0 <= offset <= GICD_ICPENDR31 && width == 32 {
            let r = (offset - GICD_ICPENDR0) / 4;
            (
                Distributor {
                    pending: set_register(
                        self.pending,
                        1,
                        index,
                        r,
                        self.pending[index][r] & !word,
                    ),
                    ..self
                },
                cpu,
            )
        } else if GICD_ISACTIVER0 <= offset <= GICD_ISACTIVER31 && width == 32 {
            let r = (offset - GICD_ISACTIVER0) / 4;
            (
                Distributor {
                    active: set_register(self.active, 1, index, r, self.active[index][r] | word),
                    ..self
                },
                cpu,
            )
        } else if GICD_ICACTIVER0 <= offset <= GICD_ICACTIVER31 && width == 32 {
            let r = (offset - GICD_ICACTIVER0) / 4;
            (
                Distributor {
                    active: set_register(self.active, 1, index, r, self.active[index][r] & !word),
                    ..self
                },
                cpu,
            )
        } else if GICD_IPRIORITYR0 <= offset < GICD_IPRIORITYR254 + 4 {
            let r = (offset - GICD_IPRIORITYR0) / 4;
            let byte = offset % 4;
            if width == 8 {
                (
                    Distributor {
                        priority: set_register(
                            self.priority,
                            8,
                            index,
                            r,
                            Self::with_byte(self.priority[index][r], byte, value),
                        ),
                        ..self
                    },
                    cpu,
                )
            } else if width == 32 && byte == 0 {
                (Distributor { priority: set_register(self.priority, 8, index, r, word), ..self }, cpu)
            } else {
                (self, cpu)
            }
        } else if GICD_ITARGETSR0 <= offset < GICD_ITARGETSR254 + 4 {
            let r = (offset - GICD_ITARGETSR0) / 4;
            let byte = offset % 4;
            if r >= 8 && width == 8 {
                (
                    Distributor {
                        target: self.target.update(
                            r,
                            Self::with_byte(self.target[r], byte, value),
                        ),
                        ..self
                    },
                    cpu,
                )
            } else if r >= 8 && width == 32 && byte == 0 {
                (Distributor { target: self.target.update(r, word), ..self }, cpu)
            } else {
                (self, cpu)
            }
        } else if GICD_ICFGR0 <= offset <= GICD_ICFGR63 && width == 32 {
            let r = (offset - GICD_ICFGR0) / 4;
            (
                Distributor {
                    configuration: set_register(self.configuration, 2, index, r, word),
                    ..self
                },
                cpu,
            )
        } else if offset == GICD_SGIR && width == 32 {
            let after = self.triggered(
                cpu,
                (word & 0xF) as int,
                None,
                Self::sgi_targets(cpu, value),
                0,
                false,
            );
            (after.0, after.1)
        } else {
            (self, cpu)
        }
    }

    pub open spec fn with_enabled(self, cpu: int, r: int, mask: u32) -> Distributor {
        Distributor {
            enable: set_register(self.enable, 1, cpu, r, self.enable[cpu][r] | mask),
            ..self
        }
    }

    pub open spec fn with_pended(self, cpu: int, r: int, mask: u32) -> Distributor {
        Distributor {
            pending: set_register(self.pending, 1, cpu, r, self.pending[cpu][r] | mask),
            ..self
        }
    }

    /// Each interrupt that a write delivers has a priority register.
    pub open spec fn can_write(self, cpu: CpuModel, offset: int, width: int, value: u64) -> bool {
        let index = cpu_index(cpu.target);
        let word = #[verifier::truncate] (value as u32);
        if GICD_ISENABLER0 <= offset <= GICD_ISENABLER31 && width == 32 {
            let r = (offset - GICD_ISENABLER0) / 4;
            self.with_enabled(index, r, word).can_retrigger(cpu, r * 32, value as int, true)
        } else if GICD_ISPENDR0 <= offset <= GICD_ISPENDR31 && width == 32 {
            let r = (offset - GICD_ISPENDR0) / 4;
            self.with_pended(index, r, word).can_retrigger(cpu, r * 32, value as int, false)
        } else {
            true
        }
    }
}

impl BankedRegisters {
    pub fn new() -> (registers: Self)
        ensures
            registers.group == 0,
            registers.enable == 0,
            registers.pending == 0,
            registers.active == 0,
            forall|i: int| 0 <= i < 8 ==> #[trigger] registers.priority@[i] == 0,
            forall|i: int| 0 <= i < 2 ==> #[trigger] registers.configuration@[i] == 0,
    {
        Self { group: 0, enable: 0, pending: 0, active: 0, priority: [0; 8], configuration: [0; 2] }
    }
}

/// Maps a GICv2 CPU target mask to the index of its lowest CPU.
pub fn target_to_cpu_index(target: u8) -> (index: usize)
    ensures
        index == cpu_index(target),
        index < 8,
{
    if target & 0x01 != 0 {
        0
    } else if target & 0x02 != 0 {
        1
    } else if target & 0x04 != 0 {
        2
    } else if target & 0x08 != 0 {
        3
    } else if target & 0x10 != 0 {
        4
    } else if target & 0x20 != 0 {
        5
    } else if target & 0x40 != 0 {
        6
    } else {
        7
    }
}

/// Index of the bank of the CPU executing this code. Since every vCPU of a VM runs 1:1 on its own
/// physical core, the CPU performing an access is also the vCPU whose banked registers the access
/// refers to.
pub fn current_cpu_index(cpu: &CpuInterface) -> (index: usize)
    ensures
        index == cpu_index(cpu.target),
        index < 8,
{
    target_to_cpu_index(cpu.target)
}

impl GicDistributorMmio {
    pub const MMIO_SIZE: usize = 0x10000;

    pub open spec fn view(&self) -> Distributor {
        Distributor {
            ctlr: self.ctlr,
            group: Seq::new(
                8,
                |c: int|
                    Seq::new(
                        32,
                        |i: int|
                            if i < 1 {
                                self.banked@[c].group
                            } else {
                                self.group@[i]
                            },
                    ),
            ),
            enable: Seq::new(
                8,
                |c: int|
                    Seq::new(
                        32,
                        |i: int|
                            if i < 1 {
                                self.banked@[c].enable
                            } else {
                                self.enable@[i]
                            },
                    ),
            ),
            pending: Seq::new(
                8,
                |c: int|
                    Seq::new(
                        32,
                        |i: int|
                            if i < 1 {
                                self.banked@[c].pending
                            } else {
                                self.pending@[i]
                            },
                    ),
            ),
            active: Seq::new(
                8,
                |c: int|
                    Seq::new(
                        32,
                        |i: int|
                            if i < 1 {
                                self.banked@[c].active
                            } else {
                                self.active@[i]
                            },
                    ),
            ),
            priority: Seq::new(
                8,
                |c: int|
                    Seq::new(
                        255,
                        |i: int|
                            if i < 8 {
                                self.banked@[c].priority@[i]
                            } else {
                                self.priority@[i]
                            },
                    ),
            ),
            configuration: Seq::new(
                8,
                |c: int|
                    Seq::new(
                        64,
                        |i: int|
                            if i < 2 {
                                self.banked@[c].configuration@[i]
                            } else {
                                self.configuration@[i]
                            },
                    ),
            ),
            target: self.target@,
            own_target: self.own_target,
            queue: self.to_inject_interrupt@,
        }
    }

    pub fn new(own_target: u8) -> (distributor: Self)
        ensures
            distributor@ == Distributor::reset(own_target),
    {
        let distributor = Self {
            ctlr: 0,
            group: [0; 32],
            enable: [0; 32],
            pending: [0; 32],
            active: [0; 32],
            priority: [0; 255],
            configuration: [0; 64],
            target: [0; 255],
            banked: [BankedRegisters::new(); 8],
            own_target,
            to_inject_interrupt: Vec::new(),
        };
        assert(distributor@ =~~= Distributor::reset(own_target));
        distributor
    }

    /* The functions below are the single place that decides whether a given register index refers
     * to the banked SGI/PPI (INTID 0-31) range -- which must come from the CPU's own bank -- or to
     * the shared SPI range. */

    pub fn group_register(&self, cpu: usize, index: usize) -> (value: u32)
        requires
            cpu < 8,
            index < 32,
        ensures
            value == self@.group[cpu as int][index as int],
    {
        if index == 0 {
            self.banked[cpu].group
        } else {
            self.group[index]
        }
    }

    pub fn set_group_register(&mut self, cpu: usize, index: usize, value: u32)
        requires
            cpu < 8,
            index < 32,
        ensures
            final(self)@ == (Distributor {
                group: set_register(old(self)@.group, 1, cpu as int, index as int, value),
                ..old(self)@
            }),
    {
        if index == 0 {
            self.banked[cpu].group = value;
        } else {
            self.group[index] = value;
        }
        assert(self@ =~~= (Distributor {
            group: set_register(old(self)@.group, 1, cpu as int, index as int, value),
            ..old(self)@
        }));
    }

    pub fn enable_register(&self, cpu: usize, index: usize) -> (value: u32)
        requires
            cpu < 8,
            index < 32,
        ensures
            value == self@.enable[cpu as int][index as int],
    {
        if index == 0 {
            self.banked[cpu].enable
        } else {
            self.enable[index]
        }
    }

    pub fn set_enable_register(&mut self, cpu: usize, index: usize, value: u32)
        requires
            cpu < 8,
            index < 32,
        ensures
            final(self)@ == (Distributor {
                enable: set_register(old(self)@.enable, 1, cpu as int, index as int, value),
                ..old(self)@
            }),
    {
        if index == 0 {
            self.banked[cpu].enable = value;
        } else {
            self.enable[index] = value;
        }
        assert(self@ =~~= (Distributor {
            enable: set_register(old(self)@.enable, 1, cpu as int, index as int, value),
            ..old(self)@
        }));
    }

    pub fn pending_register(&self, cpu: usize, index: usize) -> (value: u32)
        requires
            cpu < 8,
            index < 32,
        ensures
            value == self@.pending[cpu as int][index as int],
    {
        if index == 0 {
            self.banked[cpu].pending
        } else {
            self.pending[index]
        }
    }

    pub fn set_pending_register(&mut self, cpu: usize, index: usize, value: u32)
        requires
            cpu < 8,
            index < 32,
        ensures
            final(self)@ == (Distributor {
                pending: set_register(old(self)@.pending, 1, cpu as int, index as int, value),
                ..old(self)@
            }),
    {
        if index == 0 {
            self.banked[cpu].pending = value;
        } else {
            self.pending[index] = value;
        }
        assert(self@ =~~= (Distributor {
            pending: set_register(old(self)@.pending, 1, cpu as int, index as int, value),
            ..old(self)@
        }));
    }

    pub fn active_register(&self, cpu: usize, index: usize) -> (value: u32)
        requires
            cpu < 8,
            index < 32,
        ensures
            value == self@.active[cpu as int][index as int],
    {
        if index == 0 {
            self.banked[cpu].active
        } else {
            self.active[index]
        }
    }

    pub fn set_active_register(&mut self, cpu: usize, index: usize, value: u32)
        requires
            cpu < 8,
            index < 32,
        ensures
            final(self)@ == (Distributor {
                active: set_register(old(self)@.active, 1, cpu as int, index as int, value),
                ..old(self)@
            }),
    {
        if index == 0 {
            self.banked[cpu].active = value;
        } else {
            self.active[index] = value;
        }
        assert(self@ =~~= (Distributor {
            active: set_register(old(self)@.active, 1, cpu as int, index as int, value),
            ..old(self)@
        }));
    }

    pub fn priority_register(&self, cpu: usize, index: usize) -> (value: u32)
        requires
            cpu < 8,
            index < 255,
        ensures
            value == self@.priority[cpu as int][index as int],
    {
        if index < 8 {
            self.banked[cpu].priority[index]
        } else {
            self.priority[index]
        }
    }

    pub fn set_priority_register(&mut self, cpu: usize, index: usize, value: u32)
        requires
            cpu < 8,
            index < 255,
        ensures
            final(self)@ == (Distributor {
                priority: set_register(old(self)@.priority, 8, cpu as int, index as int, value),
                ..old(self)@
            }),
    {
        if index < 8 {
            self.banked[cpu].priority[index] = value;
        } else {
            self.priority[index] = value;
        }
        assert(self@ =~~= (Distributor {
            priority: set_register(old(self)@.priority, 8, cpu as int, index as int, value),
            ..old(self)@
        }));
    }

    pub fn configuration_register(&self, cpu: usize, index: usize) -> (value: u32)
        requires
            cpu < 8,
            index < 64,
        ensures
            value == self@.configuration[cpu as int][index as int],
    {
        if index < 2 {
            self.banked[cpu].configuration[index]
        } else {
            self.configuration[index]
        }
    }

    pub fn set_configuration_register(&mut self, cpu: usize, index: usize, value: u32)
        requires
            cpu < 8,
            index < 64,
        ensures
            final(self)@ == (Distributor {
                configuration: set_register(old(self)@.configuration, 2, cpu as int, index as int, value),
                ..old(self)@
            }),
    {
        if index < 2 {
            self.banked[cpu].configuration[index] = value;
        } else {
            self.configuration[index] = value;
        }
        assert(self@ =~~= (Distributor {
            configuration: set_register(old(self)@.configuration, 2, cpu as int, index as int, value),
            ..old(self)@
        }));
    }

    pub fn get_group(&self, cpu: usize, int_id: u32) -> (group: u32)
        requires
            cpu < 8,
            int_id < 1024,
        ensures
            group == self@.group_of(cpu as int, int_id as int),
    {
        (self.group_register(cpu, (int_id / 32) as usize) >> (int_id % 32)) & 1
    }

    pub fn get_enable(&self, cpu: usize, int_id: u32) -> (enabled: bool)
        requires
            cpu < 8,
            int_id < 1024,
        ensures
            enabled == self@.is_enabled(cpu as int, int_id as int),
    {
        ((self.enable_register(cpu, (int_id / 32) as usize) >> (int_id % 32)) & 1) == 1
    }

    pub fn get_pending(&self, cpu: usize, int_id: u32) -> (pending: bool)
        requires
            cpu < 8,
            int_id < 1024,
        ensures
            pending == self@.is_pending(cpu as int, int_id as int),
    {
        ((self.pending_register(cpu, (int_id / 32) as usize) >> (int_id % 32)) & 1) == 1
    }

    pub fn get_priority(&self, cpu: usize, int_id: u32) -> (priority: u32)
        requires
            cpu < 8,
            int_id < 1020,
        ensures
            priority == self@.priority_of(cpu as int, int_id as int),
    {
        (self.priority_register(cpu, (int_id / 4) as usize) >> ((int_id % 4) * 8)) & 0xFF
    }

    /// Sets/clears an INTID's pending bit in `cpu`'s view of the Distributor.
    pub fn change_pending_status_of(&mut self, cpu: usize, int_id: u32, is_pending: bool)
        requires
            cpu < 8,
            int_id < 1024,
        ensures
            final(self)@ == old(self)@.with_pending(cpu as int, int_id as int, is_pending),
    {
        let register: usize = (int_id / 32) as usize;
        let mask: u32 = 1u32 << (int_id % 32);
        let value: u32 = self.pending_register(cpu, register);
        self.set_pending_register(
            cpu,
            register,
            if is_pending {
                value | mask
            } else {
                value & !mask
            },
        );
    }

    pub fn change_pending_status(&mut self, cpu: &CpuInterface, int_id: u32, is_pending: bool)
        requires
            int_id < 1024,
        ensures
            final(self)@ == old(self)@.with_pending(
                cpu_index(cpu.target),
                int_id as int,
                is_pending,
            ),
    {
        self.change_pending_status_of(current_cpu_index(cpu), int_id, is_pending);
    }

    pub fn change_active_status(&mut self, cpu: &CpuInterface, int_id: u32, is_active: bool)
        requires
            int_id < 1024,
        ensures
            final(self)@ == old(self)@.with_active(
                cpu_index(cpu.target),
                int_id as int,
                is_active,
            ),
    {
        let index: usize = current_cpu_index(cpu);
        let register: usize = (int_id / 32) as usize;
        let mask: u32 = 1u32 << (int_id % 32);
        let value: u32 = self.active_register(index, register);
        self.set_active_register(
            index,
            register,
            if is_active {
                value | mask
            } else {
                value & !mask
            },
        );
    }

    /// Re-delivers an INTID after the guest enabled or pended it.
    pub fn retrigger(&mut self, cpu: &mut CpuInterface, int_id: u32) -> (injected: bool)
        requires
            old(self)@.can_trigger(
                int_id as int,
                old(self)@.retrigger_targets(old(cpu)@, int_id as int),
            ),
        ensures
            (final(self)@, final(cpu)@, injected) == old(self)@.triggered(
                old(cpu)@,
                int_id as int,
                None,
                old(self)@.retrigger_targets(old(cpu)@, int_id as int),
                0,
                false,
            ),
    {
        let targets: u8 = if (int_id as usize) < BANKED_INT_ID_COUNT {
            cpu.target
        } else {
            self.own_target
        };
        self.trigger_interrupt_to(cpu, int_id, None, targets)
    }

    /// Returns `true` if the interrupt was actually injected into (or queued for) at least one
    /// target CPU. Callers that passed a `physical_int_id` (i.e. an LR with the HW bit, whose
    /// deactivation the guest is expected to perform) must deactivate the physical interrupt
    /// themselves when this returns `false`.
    pub fn trigger_interrupt(
        &mut self,
        cpu: &mut CpuInterface,
        int_id: u32,
        physical_int_id: Option<u32>,
    ) -> (injected: bool)
        requires
            old(self)@.can_trigger(int_id as int, old(self).own_target),
        ensures
            (final(self)@, final(cpu)@, injected) == old(self)@.triggered(
                old(cpu)@,
                int_id as int,
                physical_int_id,
                old(self).own_target,
                0,
                false,
            ),
    {
        let targets: u8 = self.own_target;
        self.trigger_interrupt_to(cpu, int_id, physical_int_id, targets)
    }

    /// Same as [`trigger_interrupt`](Self::trigger_interrupt), but delivers to an explicit set of
    /// target CPUs (a GICv2 8-bit CPU target bitmask).
    pub fn trigger_interrupt_to(
        &mut self,
        cpu: &mut CpuInterface,
        int_id: u32,
        physical_int_id: Option<u32>,
        targets: u8,
    ) -> (injected: bool)
        requires
            old(self)@.can_trigger(int_id as int, targets),
        ensures
            (final(self)@, final(cpu)@, injected) == old(self)@.triggered(
                old(cpu)@,
                int_id as int,
                physical_int_id,
                targets,
                0,
                false,
            ),
    {
        let distributor_enabled: bool = (self.ctlr & GICD_CTLR_ENABLE) != 0;
        let mut injected: bool = false;
        let mut bit: u8 = 0;
        while bit < 8
            invariant
                bit <= 8,
                old(self)@.triggered(
                    old(cpu)@,
                    int_id as int,
                    physical_int_id,
                    targets,
                    0,
                    false,
                ) == self@.triggered(
                    cpu@,
                    int_id as int,
                    physical_int_id,
                    targets,
                    bit as int,
                    injected,
                ),
                distributor_enabled == self@.is_on(),
                int_id < 1024,
                int_id >= 1020 && targets != 0 ==> !self@.delivers(0, int_id as int),
            decreases 8 - bit,
        {
            let target: u8 = 1u8 << bit;
            if (targets & target) == 0 {
                bit = bit + 1;
                continue;
            }
            proof {
                assert(targets == 0 ==> targets & target == 0) by (bit_vector);
            }
            /* Enable/group/priority/pending of INTID 0-31 are banked, so they must be those of
             * the target, not those of the sending CPU. */
            let index: usize = bit as usize;
            let ghost before = self@;
            self.change_pending_status_of(index, int_id, true);
            assert(self@.enable == before.enable && self@.ctlr == before.ctlr);
            if !distributor_enabled || !self.get_enable(index, int_id) {
                bit = bit + 1;
                continue;
            }
            proof {
                if int_id >= 1020 {
                    assert(self@.enable[0][int_id as int / 32] == self@.enable[index as int][int_id
                        as int / 32]);
                }
            }
            let group: u32 = self.get_group(index, int_id);
            let priority: u32 = self.get_priority(index, int_id);
            let list_entry: u32 = crate::vgic_lr::create_list_register_entry(
                int_id,
                group,
                priority,
                physical_int_id,
            );
            if target == cpu.target {
                let added: bool = crate::vgic::add_virtual_interrupt(cpu, list_entry);
                injected = injected || added;
            } else {
                let ghost pended = self@;
                self.to_inject_interrupt.push((target, list_entry));
                cpu.sgi_targets.push(target);
                injected = true;
                assert(self@ =~~= (Distributor {
                    queue: pended.queue.push((target, list_entry)),
                    ..pended
                }));
            }
            bit = bit + 1;
        }
        injected
    }

    /// Injects the interrupts that wait for a List Register of this CPU.
    pub fn inject_pending_for_current_cpu(&self, cpu: &mut CpuInterface)
        ensures
            final(cpu)@ == self@.pending_injected(old(cpu)@, 0),
    {
        let index: usize = current_cpu_index(cpu);
        let distributor_enabled: bool = (self.ctlr & GICD_CTLR_ENABLE) != 0;
        let mut int_id: u32 = 0;
        while int_id < 1020 && cpu.has_free_list_register()
            invariant
                int_id <= 1020,
                index == cpu_index(cpu.target),
                index < 8,
                distributor_enabled == self@.is_on(),
                self@.pending_injected(old(cpu)@, 0) == self@.pending_injected(
                    cpu@,
                    int_id as int,
                ),
            decreases 1020 - int_id,
        {
            if int_id != GENERIC_TIMER_VIRTUAL_INT_ID && (int_id < 32 || self.own_target
                & cpu.target != 0) && self.get_pending(index, int_id) && distributor_enabled
                && self.get_enable(index, int_id) && !cpu.is_held(int_id) {
                let list_entry: u32 = crate::vgic_lr::create_list_register_entry(
                    int_id,
                    self.get_group(index, int_id),
                    self.get_priority(index, int_id),
                    None,
                );
                let _ = crate::vgic::add_virtual_interrupt(cpu, list_entry);
            }
            int_id = int_id + 1;
        }
    }

    /// Triggers each INTID whose bit is set in `value`, from `int_id` on, where it is pending
    /// (after an enable) or enabled (after a pend).
    fn retrigger_all(
        &mut self,
        cpu: &mut CpuInterface,
        int_id: u32,
        value: u64,
        after_enable: bool,
    )
        requires
            int_id <= 0xFFFF_0000,
            old(self)@.can_retrigger(old(cpu)@, int_id as int, value as int, after_enable),
        ensures
            (final(self)@, final(cpu)@) == old(self)@.retriggered(
                old(cpu)@,
                int_id as int,
                value as int,
                after_enable,
            ),
    {
        let index: usize = current_cpu_index(cpu);
        let mut id: u32 = int_id;
        let mut rest: u64 = value;
        proof {
            vstd::arithmetic::power2::lemma2_to64();
            vstd::arithmetic::power2::lemma2_to64_rest();
        }
        let ghost mut steps: nat = 64;
        while rest != 0
            invariant
                steps <= 64,
                rest < vstd::arithmetic::power2::pow2(steps),
                id + steps == int_id + 64,
                int_id <= 0xFFFF_0000,
                index == cpu_index(cpu.target),
                index < 8,
                self@.can_retrigger(cpu@, id as int, rest as int, after_enable),
                old(self)@.retriggered(old(cpu)@, int_id as int, value as int, after_enable)
                    == self@.retriggered(cpu@, id as int, rest as int, after_enable),
            decreases rest,
        {
            proof {
                crate::bits::lemma_halve(rest);
                if steps == 0 {
                    vstd::arithmetic::power2::lemma2_to64();
                } else {
                    vstd::arithmetic::power2::lemma_pow2_unfold(steps);
                }
            }
            let ghost before = self@;
            let ghost cpu_before = cpu@;
            if (rest & 1) != 0 {
                let selected: bool = if after_enable {
                    self.get_pending(index, id)
                } else {
                    self.get_enable(index, id)
                };
                if selected {
                    proof {
                        lemma_triggered_frame(
                            before,
                            cpu_before,
                            id as int,
                            None,
                            before.retrigger_targets(cpu_before, id as int),
                            0,
                            false,
                        );
                    }
                    let _ = self.retrigger(cpu, id);
                    proof {
                        lemma_can_retrigger_frame(
                            before,
                            self@,
                            cpu_before,
                            cpu@,
                            id as int + 1,
                            rest as int / 2,
                            after_enable,
                        );
                    }
                }
            }
            rest = rest >> 1u64;
            id = id + 1;
            proof {
                steps = (steps - 1) as nat;
            }
        }
    }

    /// Handles a read of the guest that runs on this CPU.
    pub fn read(&self, cpu: &CpuInterface, offset: usize, access_width: u64) -> (result: Result<
        u64,
        (),
    >)
        ensures
            result == Ok::<u64, ()>(
                self@.read_value(cpu@, offset as int, access_width as int),
            ),
    {
        let index: usize = current_cpu_index(cpu);
        let mut result: u64 = 0;
        if offset == GICD_CTLR && access_width == 32 {
            result = self.ctlr as u64;
        } else if offset == GICD_TYPER && access_width == 32 {
            result = GICD_TYPER_VALUE as u64;
        } else if GICD_IGROUPR0 <= offset && offset <= GICD_IGROUPR31 && access_width == 32 {
            result = self.group_register(index, (offset - GICD_IGROUPR0) / 4) as u64;
        } else if GICD_ISENABLER0 <= offset && offset <= GICD_ISENABLER31 && access_width == 32 {
            result = self.enable_register(index, (offset - GICD_ISENABLER0) / 4) as u64;
        } else if GICD_ICENABLER0 <= offset && offset <= GICD_ICENABLER31 && access_width == 32 {
            result = self.enable_register(index, (offset - GICD_ICENABLER0) / 4) as u64;
        } else if GICD_ISPENDR0 <= offset && offset <= GICD_ISPENDR31 && access_width == 32 {
            result = self.pending_register(index, (offset - GICD_ISPENDR0) / 4) as u64;
        } else if GICD_ICPENDR0 <= offset && offset <= GICD_ICPENDR31 && access_width == 32 {
            result = self.pending_register(index, (offset - GICD_ICPENDR0) / 4) as u64;
        } else if GICD_ISACTIVER0 <= offset && offset <= GICD_ISACTIVER31 && access_width == 32 {
            result = self.active_register(index, (offset - GICD_ISACTIVER0) / 4) as u64;
        } else if GICD_ICACTIVER0 <= offset && offset <= GICD_ICACTIVER31 && access_width == 32 {
            result = self.active_register(index, (offset - GICD_ICACTIVER0) / 4) as u64;
        } else if GICD_IPRIORITYR0 <= offset && offset < GICD_IPRIORITYR254 + 4 {
            let register_offset: usize = (offset - GICD_IPRIORITYR0) / 4;
            let byte_offset: usize = (offset - GICD_IPRIORITYR0) - register_offset * 4;
            if access_width == 8 {
                result = self.priority_register(index, register_offset) as u64;
                result = (result >> ((byte_offset * 8) as u64)) & 0xff;
            } else if byte_offset == 0 && access_width == 32 {
                result = self.priority_register(index, register_offset) as u64;
            }
        } else if GICD_ITARGETSR0 <= offset && offset < GICD_ITARGETSR254 + 4 {
            let register_offset: usize = (offset - GICD_ITARGETSR0) / 4;
            let byte_offset: usize = (offset - GICD_ITARGETSR0) - register_offset * 4;
            let int_id_base: usize = register_offset * 4;
            if access_width == 8 {
                let int_id: usize = int_id_base + byte_offset;
                if int_id < 32 {
                    /* SGI/PPI: banked, so this is the target bit of the reading CPU, not that of
                     * the CPU which created the VM. */
                    result = cpu.target as u64;
                } else {
                    result = ((self.target[register_offset] >> ((byte_offset * 8) as u32)) as u64)
                        & 0xff;
                }
            } else if byte_offset == 0 && access_width == 32 {
                if int_id_base < 32 {
                    let target: u32 = cpu.target as u32;
                    result =
                    (target | (target << 8u32) | (target << 16u32) | (target << 24u32)) as u64;
                } else {
                    result = self.target[register_offset] as u64;
                }
            }
        } else if GICD_ICFGR0 <= offset && offset <= GICD_ICFGR63 && access_width == 32 {
            result = self.configuration_register(index, (offset - GICD_ICFGR0) / 4) as u64;
        } else if offset == GICD_PIDR2 && access_width == 32 {
            assert(2u64 << 4u64 == 0x20) by (bit_vector);
            result = GIC_REVISION << 4u64;
        }
        Ok(result)
    }

    /// Handles a write of the guest that runs on this CPU.
    pub fn write(
        &mut self,
        cpu: &mut CpuInterface,
        offset: usize,
        access_width: u64,
        value: u64,
    ) -> (result: Result<(), ()>)
        requires
            old(self)@.can_write(old(cpu)@, offset as int, access_width as int, value),
        ensures
            result is Ok,
            (final(self)@, final(cpu)@) == old(self)@.written(
                old(cpu)@,
                offset as int,
                access_width as int,
                value,
            ),
    {
        let index: usize = current_cpu_index(cpu);
        let word: u32 = #[verifier::truncate] (value as u32);
        if offset == GICD_CTLR && access_width == 32 {
            self.ctlr = word;
            assert(self@ =~~= (Distributor { ctlr: word, ..old(self)@ }));
        } else if GICD_IGROUPR0 <= offset && offset <= GICD_IGROUPR31 && access_width == 32 {
            self.set_group_register(index, (offset - GICD_IGROUPR0) / 4, word);
        } else if GICD_ISENABLER0 <= offset && offset <= GICD_ISENABLER31 && access_width == 32 {
            let register_offset: usize = (offset - GICD_ISENABLER0) / 4;
            let enabled: u32 = self.enable_register(index, register_offset);
            self.set_enable_register(index, register_offset, enabled | word);
            self.retrigger_all(cpu, (register_offset * 32) as u32, value, true);
        } else if GICD_ICENABLER0 <= offset && offset <= GICD_ICENABLER31 && access_width == 32 {
            let register_offset: usize = (offset - GICD_ICENABLER0) / 4;
            let enabled: u32 = self.enable_register(index, register_offset);
            self.set_enable_register(index, register_offset, enabled & !word);
        } else if GICD_ISPENDR0 <= offset && offset <= GICD_ISPENDR31 && access_width == 32 {
            let register_offset: usize = (offset - GICD_ISPENDR0) / 4;
            let pending: u32 = self.pending_register(index, register_offset);
            self.set_pending_register(index, register_offset, pending | word);
            self.retrigger_all(cpu, (register_offset * 32) as u32, value, false);
        } else if GICD_ICPENDR0 <= offset && offset <= GICD_ICPENDR31 && access_width == 32 {
            let register_offset: usize = (offset - GICD_ICPENDR0) / 4;
            let pending: u32 = self.pending_register(index, register_offset);
            self.set_pending_register(index, register_offset, pending & !word);
        } else if GICD_ISACTIVER0 <= offset && offset <= GICD_ISACTIVER31 && access_width == 32 {
            let register_offset: usize = (offset - GICD_ISACTIVER0) / 4;
            let active: u32 = self.active_register(index, register_offset);
            self.set_active_register(index, register_offset, active | word);
        } else if GICD_ICACTIVER0 <= offset && offset <= GICD_ICACTIVER31 && access_width == 32 {
            let register_offset: usize = (offset - GICD_ICACTIVER0) / 4;
            let active: u32 = self.active_register(index, register_offset);
            self.set_active_register(index, register_offset, active & !word);
        } else if GICD_IPRIORITYR0 <= offset && offset < GICD_IPRIORITYR254 + 4 {
            let register_offset: usize = (offset - GICD_IPRIORITYR0) / 4;
            let byte_offset: usize = (offset - GICD_IPRIORITYR0) - register_offset * 4;
            if access_width == 8 {
                let register: u32 = self.priority_register(index, register_offset);
                self.set_priority_register(
                    index,
                    register_offset,
                    Self::replace_byte(register, byte_offset, value),
                );
            } else if byte_offset == 0 && access_width == 32 {
                self.set_priority_register(index, register_offset, word);
            }
        } else if GICD_ITARGETSR0 <= offset && offset < GICD_ITARGETSR254 + 4 {
            /* IDs 0-31 are Read-Only (banked registers), so ignore writes */
            let register_offset: usize = (offset - GICD_ITARGETSR0) / 4;
            let byte_offset: usize = (offset - GICD_ITARGETSR0) - register_offset * 4;
            if register_offset * 4 >= 32 {
                if access_width == 8 {
                    let register: u32 = self.target[register_offset];
                    self.target[register_offset] = Self::replace_byte(register, byte_offset, value);
                } else if byte_offset == 0 && access_width == 32 {
                    self.target[register_offset] = word;
                }
                assert(self@ =~~= (Distributor { target: self.target@, ..old(self)@ }));
            }
        } else if GICD_ICFGR0 <= offset && offset <= GICD_ICFGR63 && access_width == 32 {
            self.set_configuration_register(index, (offset - GICD_ICFGR0) / 4, word);
        } else if offset == GICD_SGIR && access_width == 32 {
            let int_id: u32 = word & 0xF;
            assert(word & 0xF <= 15) by (bit_vector);
            /* Since each vCPU of this VM runs 1:1 on a real physical core, the CPU target list can
             * be used directly as the physical CPU target bitmask. */
            let target_list_filter: u64 = (value >> 24u64) & 3;
            let targets: u8 = if target_list_filter == 0 {
                #[verifier::truncate] (((value >> 16u64) & 0xFF) as u8)
            } else if target_list_filter == 1 {
                ALL_PCPU_TARGETS & !cpu.target
            } else {
                cpu.target
            };
            let _ = self.trigger_interrupt_to(cpu, int_id, None, targets);
        }
        Ok(())
    }

    /// Whether a write can be handled: each interrupt that it delivers must have a priority
    /// register.
    pub fn accepts_write(
        &self,
        cpu: &CpuInterface,
        offset: usize,
        access_width: u64,
        value: u64,
    ) -> (accepted: bool)
        ensures
            accepted == self@.can_write(cpu@, offset as int, access_width as int, value),
    {
        let index: usize = current_cpu_index(cpu);
        let word: u32 = #[verifier::truncate] (value as u32);
        if GICD_ISENABLER0 <= offset && offset <= GICD_ISENABLER31 && access_width == 32 {
            let register: usize = (offset - GICD_ISENABLER0) / 4;
            let enabled: u32 = self.enable_register(index, register) | word;
            let ghost after = self@.with_enabled(index as int, register as int, word);
            self.accepts_retrigger(Ghost(after), cpu, register, enabled, value, true)
        } else if GICD_ISPENDR0 <= offset && offset <= GICD_ISPENDR31 && access_width == 32 {
            let register: usize = (offset - GICD_ISPENDR0) / 4;
            let enabled: u32 = self.enable_register(index, register);
            let ghost after = self@.with_pended(index as int, register as int, word);
            assert(after.enable =~~= set_register(
                self@.enable,
                1,
                index as int,
                register as int,
                enabled,
            ));
            self.accepts_retrigger(Ghost(after), cpu, register, enabled, value, false)
        } else {
            true
        }
    }

    /// Whether the INTIDs of `value` can be triggered, enable register `register` being `enabled`.
    fn accepts_retrigger(
        &self,
        Ghost(after): Ghost<Distributor>,
        cpu: &CpuInterface,
        register: usize,
        enabled: u32,
        value: u64,
        after_enable: bool,
    ) -> (accepted: bool)
        requires
            register < 32,
            after == (Distributor { enable: after.enable, pending: after.pending, ..self@ }),
            after.enable == set_register(
                self@.enable,
                1,
                cpu_index(cpu.target),
                register as int,
                enabled,
            ),
            after_enable ==> after.pending == self@.pending,
        ensures
            accepted == after.can_retrigger(
                cpu@,
                register as int * 32,
                value as int,
                after_enable,
            ),
    {
        let index: usize = current_cpu_index(cpu);
        let mut id: usize = register * 32;
        let mut rest: u64 = value;
        let mut accepted: bool = true;
        proof {
            vstd::arithmetic::power2::lemma2_to64();
            vstd::arithmetic::power2::lemma2_to64_rest();
        }
        let ghost mut steps: nat = 64;
        while rest != 0
            invariant
                steps <= 64,
                rest < vstd::arithmetic::power2::pow2(steps),
                id + steps == register * 32 + 64,
                register < 32,
                index == cpu_index(cpu.target),
                index < 8,
                after == (Distributor { enable: after.enable, pending: after.pending, ..self@ }),
                after.enable == set_register(
                    self@.enable,
                    1,
                    index as int,
                    register as int,
                    enabled,
                ),
                after_enable ==> after.pending == self@.pending,
                after.can_retrigger(cpu@, register as int * 32, value as int, after_enable) == (
                accepted && after.can_retrigger(cpu@, id as int, rest as int, after_enable)),
            decreases rest,
        {
            proof {
                crate::bits::lemma_halve(rest);
                if steps == 0 {
                    vstd::arithmetic::power2::lemma2_to64();
                } else {
                    vstd::arithmetic::power2::lemma_pow2_unfold(steps);
                }
            }
            if (rest & 1) != 0 {
                if id >= 1024 {
                    accepted = false;
                } else if id >= 1020 {
                    let own: u32 = if id / 32 == register {
                        enabled
                    } else {
                        self.enable_register(0, id / 32)
                    };
                    let is_enabled: bool = (own >> ((id % 32) as u32)) & 1 == 1;
                    assert(is_enabled == after.is_enabled(0, id as int));
                    assert(is_enabled == after.is_enabled(index as int, id as int));
                    let selected: bool = if after_enable {
                        self.get_pending(index, id as u32)
                    } else {
                        is_enabled
                    };
                    if selected && self.own_target != 0 && (self.ctlr & GICD_CTLR_ENABLE) != 0
                        && is_enabled {
                        accepted = false;
                    }
                }
            }
            rest = rest >> 1u64;
            id = id + 1;
            proof {
                steps = (steps - 1) as nat;
            }
        }
        accepted
    }

    fn replace_byte(register: u32, byte: usize, value: u64) -> (result: u32)
        requires
            byte < 4,
        ensures
            result == Distributor::with_byte(register, byte as int, value),
    {
        (register & !(0xFFu32 << ((byte * 8) as u32))) | (#[verifier::truncate] ((value << ((byte
            * 8) as u64)) as u32))
    }
}

/// The entries from index `i` on that are queued for CPU `cpu` are injected. The others remain, and
/// so does one that no List Register takes: it is tried again once one is free.
pub open spec fn drained_from(
    queue: Seq<(u8, u32)>,
    i: int,
    cpu: CpuModel,
    remaining: Seq<(u8, u32)>,
) -> (Seq<(u8, u32)>, CpuModel)
    decreases queue.len() - i,
{
    if i < 0 || i >= queue.len() {
        (remaining, cpu)
    } else if queue[i].0 != cpu.target {
        drained_from(queue, i + 1, cpu, remaining.push(queue[i]))
    } else if cpu.accepts(queue[i].1) {
        drained_from(queue, i + 1, cpu.injected(queue[i].1), remaining)
    } else {
        drained_from(queue, i + 1, cpu.injected(queue[i].1), remaining.push(queue[i]))
    }
}

/// Injects what other CPUs have queued for this one.
///
/// The queue is shared by every CPU running a vCPU of this VM, so only the entries destined for
/// this CPU are taken out; the others are left for their own target to pick up. An entry for this
/// CPU that finds every List Register occupied stays queued for the next maintenance interrupt:
/// dropping it would leave the guest waiting for good.
pub fn inject_interrupt_handler(distributor: &mut GicDistributorMmio, cpu: &mut CpuInterface)
    ensures
        ({
            let after = drained_from(old(distributor)@.queue, 0, old(cpu)@, Seq::empty());
            &&& final(distributor)@ == (Distributor { queue: after.0, ..old(distributor)@ })
            &&& final(cpu)@ == after.1
        }),
{
    let ghost queue = distributor.to_inject_interrupt@;
    let mut remaining: Vec<(u8, u32)> = Vec::new();
    let mut i: usize = 0;
    while i < distributor.to_inject_interrupt.len()
        invariant
            *distributor == *old(distributor),
            queue == distributor.to_inject_interrupt@,
            i <= queue.len(),
            drained_from(queue, 0, old(cpu)@, Seq::empty()) == drained_from(
                queue,
                i as int,
                cpu@,
                remaining@,
            ),
        decreases queue.len() - i,
    {
        let (target, entry) = distributor.to_inject_interrupt[i];
        if target != cpu.target || !crate::vgic::add_virtual_interrupt(cpu, entry) {
            remaining.push((target, entry));
        }
        i = i + 1;
    }
    distributor.to_inject_interrupt = remaining;
    assert(distributor@ =~~= (Distributor {
        queue: distributor.to_inject_interrupt@,
        ..old(distributor)@
    }));
}

/// Draining keeps the entries for other CPUs in their order. An entry for this CPU stays only where
/// every List Register in use is occupied.
pub proof fn draining_keeps_the_others(
    queue: Seq<(u8, u32)>,
    i: int,
    cpu: CpuModel,
    remaining: Seq<(u8, u32)>,
)
    requires
        0 <= i <= queue.len(),
        cpu.list_registers.len() == 4,
    ensures
        ({
            let after = drained_from(queue, i, cpu, remaining);
            let others = |x: (u8, u32)| x.0 != cpu.target;
            &&& after.0.filter(others) == remaining.filter(others) + queue.skip(i).filter(others)
            &&& after.0.len() >= remaining.len()
            &&& after.0.take(remaining.len() as int) == remaining
            &&& forall|k: int|
                remaining.len() <= k < after.0.len() ==> {
                    &&& queue.skip(i).contains(#[trigger] after.0[k])
                    &&& after.0[k].0 == cpu.target ==> !after.1.has_free()
                }
            &&& after.1.list_registers.len() == 4
            &&& after.1.target == cpu.target
            &&& after.1.count == cpu.count
            &&& !cpu.has_free() ==> !after.1.has_free()
        }),
    decreases queue.len() - i,
{
    let others = |x: (u8, u32)| x.0 != cpu.target;
    let rest = queue.skip(i);
    let after = drained_from(queue, i, cpu, remaining);
    if i == queue.len() {
        assert(rest =~= Seq::empty());
        reveal(Seq::filter);
        assert(rest.filter(others) =~= Seq::empty());
        assert(remaining.filter(others) + rest.filter(others) =~= remaining.filter(others));
        assert(remaining.take(remaining.len() as int) =~= remaining);
    } else {
        let first = queue[i];
        let next = if first.0 != cpu.target {
            cpu
        } else {
            cpu.injected(first.1)
        };
        let kept = if first.0 != cpu.target || !cpu.accepts(first.1) {
            remaining.push(first)
        } else {
            remaining
        };
        let tail = queue.skip(i + 1);
        assert(rest =~= seq![first] + tail);
        lemma_filter_first(rest, others);
        assert(rest.drop_first() =~= tail);
        crate::vgic::lemma_injected_keeps(cpu, first.1, 0);
        crate::vgic::lemma_injected_occupies(cpu, first.1);
        draining_keeps_the_others(queue, i + 1, next, kept);
        let same = |x: (u8, u32)| x.0 != next.target;
        assert(same =~= others);
        assert(remaining.push(first).drop_last() =~= remaining);
        reveal(Seq::filter);
        assert(after.0.filter(others) =~= remaining.filter(others) + rest.filter(others));
        assert(after.0.take(remaining.len() as int) =~= after.0.take(kept.len() as int).take(
            remaining.len() as int,
        ));
        assert(kept.take(remaining.len() as int) =~= remaining);
        assert forall|k: int| remaining.len() <= k < after.0.len() implies {
            &&& rest.contains(#[trigger] after.0[k])
            &&& after.0[k].0 == cpu.target ==> !after.1.has_free()
        } by {
            if k < kept.len() {
                assert(after.0.take(kept.len() as int)[k] == kept[k]);
                assert(rest[0] == first);
            } else {
                let j = tail.index_of(after.0[k]);
                assert(tail.contains(after.0[k]));
                assert(rest[j + 1] == after.0[k]);
            }
        }
    }
}

/// No interrupt that is queued for this CPU is lost: once the queue was drained, it is in a List
/// Register or still queued.
pub proof fn drained_interrupt_is_not_lost(
    queue: Seq<(u8, u32)>,
    i: int,
    cpu: CpuModel,
    remaining: Seq<(u8, u32)>,
    k: int,
)
    requires
        0 <= i <= k < queue.len(),
        cpu.list_registers.len() == 4,
        queue[k].0 == cpu.target,
        crate::vgic::is_occupied(queue[k].1),
    ensures
        ({
            let after = drained_from(queue, i, cpu, remaining);
            after.0.contains(queue[k]) || after.1.holds_int_id((queue[k].1 & 0x3FF) as int)
        }),
    decreases queue.len() - i,
{
    let first = queue[i];
    let next = if first.0 != cpu.target {
        cpu
    } else {
        cpu.injected(first.1)
    };
    let kept = if first.0 != cpu.target || !cpu.accepts(first.1) {
        remaining.push(first)
    } else {
        remaining
    };
    crate::vgic::lemma_injected_keeps(cpu, first.1, 0);
    if i < k {
        drained_interrupt_is_not_lost(queue, i + 1, next, kept, k);
    } else {
        draining_keeps_the_others(queue, i + 1, next, kept);
        let after = drained_from(queue, i + 1, next, kept);
        if cpu.accepts(first.1) {
            crate::vgic::lemma_accepted_is_held(cpu, first.1);
            lemma_draining_keeps_held(queue, i + 1, next, kept, (first.1 & 0x3FF) as int);
        } else {
            assert(after.0.take(kept.len() as int)[remaining.len() as int] == first);
            assert(after.0[remaining.len() as int] == first);
        }
    }
}

/// What a List Register holds stays there while the queue is drained.
proof fn lemma_draining_keeps_held(
    queue: Seq<(u8, u32)>,
    i: int,
    cpu: CpuModel,
    remaining: Seq<(u8, u32)>,
    int_id: int,
)
    requires
        0 <= i <= queue.len(),
        cpu.list_registers.len() == 4,
        cpu.holds_int_id(int_id),
    ensures
        drained_from(queue, i, cpu, remaining).1.holds_int_id(int_id),
    decreases queue.len() - i,
{
    if i < queue.len() {
        let first = queue[i];
        crate::vgic::lemma_injected_keeps(cpu, first.1, int_id);
        if first.0 != cpu.target {
            lemma_draining_keeps_held(queue, i + 1, cpu, remaining.push(first), int_id);
        } else if cpu.accepts(first.1) {
            lemma_draining_keeps_held(queue, i + 1, cpu.injected(first.1), remaining, int_id);
        } else {
            lemma_draining_keeps_held(
                queue,
                i + 1,
                cpu.injected(first.1),
                remaining.push(first),
                int_id,
            );
        }
    }
}

/// Filtering looks at the first element, then at the rest.
proof fn lemma_filter_first(s: Seq<(u8, u32)>, keep: spec_fn((u8, u32)) -> bool)
    requires
        s.len() > 0,
    ensures
        s.filter(keep) == if keep(s[0]) {
            seq![s[0]] + s.drop_first().filter(keep)
        } else {
            s.drop_first().filter(keep)
        },
    decreases s.len(),
{
    reveal(Seq::filter);
    if s.len() == 1 {
        assert(s.drop_last() =~= Seq::empty());
        assert(s.drop_first() =~= Seq::empty());
        assert(s.drop_last().filter(keep) =~= Seq::empty());
        assert(s.drop_first().filter(keep) =~= Seq::empty());
    } else {
        lemma_filter_first(s.drop_last(), keep);
        assert(s.drop_last().drop_first() =~= s.drop_first().drop_last());
        assert(s.drop_first().last() == s.last());
        assert(s.drop_last()[0] == s[0]);
        if keep(s[0]) && keep(s.last()) {
            assert((seq![s[0]] + s.drop_first().drop_last().filter(keep)).push(s.last())
                =~= seq![s[0]] + s.drop_first().drop_last().filter(keep).push(s.last()));
        }
    }
}

/// Changing the pending bit of one INTID leaves the others.
pub proof fn lemma_pended_bit(distributor: Distributor, cpu: int, int_id: int, on: bool, c: int, k: int)
    requires
        distributor.valid(),
        0 <= cpu < 8,
        0 <= int_id < 1024,
        0 <= c < 8,
        0 <= k < 1024,
    ensures
        distributor.with_pending(cpu, int_id, on).valid(),
        k != int_id ==> distributor.with_pending(cpu, int_id, on).is_pending(c, k)
            == distributor.is_pending(c, k),
        k == int_id && (c == cpu || int_id >= 32) ==> distributor.with_pending(
            cpu,
            int_id,
            on,
        ).is_pending(c, k) == on,
        k == int_id && c != cpu && int_id < 32 ==> distributor.with_pending(
            cpu,
            int_id,
            on,
        ).is_pending(c, k) == distributor.is_pending(c, k),
{
    let registers = distributor.pending;
    let r = int_id / 32;
    let after = distributor.with_pending(cpu, int_id, on).pending;
    crate::bits::lemma_change_bit(registers[cpu][r], int_id % 32, k % 32);
    assert(registers[c][r] == registers[0][r] || r == 0);
    assert(registers[cpu][r] == registers[0][r] || r == 0);
    if k / 32 == r && k != int_id {
        assert(k % 32 != int_id % 32);
    }
    assert forall|d: int| 0 <= d < 8 implies (#[trigger] after[d]).len() == 32 by {}
    assert forall|d: int, i: int| 0 <= d < 8 && 1 <= i < 32 implies #[trigger] after[d][i]
        == after[0][i] by {
        assert(registers[d][i] == registers[0][i]);
    }
}

/// What triggering an interrupt changes: the pending bit of its own INTID and the queue, and of
/// the CPU interface the List Registers, the overflow count and the CPUs to prod.
pub proof fn lemma_triggered_frame(
    distributor: Distributor,
    cpu: CpuModel,
    int_id: int,
    physical_int_id: Option<u32>,
    targets: u8,
    bit: int,
    injected: bool,
)
    requires
        distributor.valid(),
        0 <= int_id < 1024,
        0 <= bit,
    ensures
        ({
            let after = distributor.triggered(
                cpu,
                int_id,
                physical_int_id,
                targets,
                bit,
                injected,
            );
            &&& after.0 == (Distributor {
                pending: after.0.pending,
                queue: after.0.queue,
                ..distributor
            })
            &&& after.0.valid()
            &&& forall|c: int, k: int|
                0 <= c < 8 && 0 <= k < 1024 && k != int_id ==> #[trigger] after.0.is_pending(c, k)
                    == distributor.is_pending(c, k)
            &&& after.1.target == cpu.target
            &&& after.1.count == cpu.count
        }),
    decreases 8 - bit,
{
    if bit < 8 {
        let target = 1u8 << (bit as u8);
        let pended = distributor.with_pending(bit, int_id, true);
        let entry = pended.entry(bit, int_id, physical_int_id);
        lemma_pended_bit(distributor, bit, int_id, true, 0, 0);
        assert forall|c: int, k: int| 0 <= c < 8 && 0 <= k < 1024 && k != int_id implies
            #[trigger] pended.is_pending(c, k) == distributor.is_pending(c, k) by {
            lemma_pended_bit(distributor, bit, int_id, true, c, k);
        }
        if targets & target == 0 {
            lemma_triggered_frame(
                distributor,
                cpu,
                int_id,
                physical_int_id,
                targets,
                bit + 1,
                injected,
            );
        } else if !pended.delivers(bit, int_id) {
            lemma_triggered_frame(
                pended,
                cpu,
                int_id,
                physical_int_id,
                targets,
                bit + 1,
                injected,
            );
        } else if target == cpu.target {
            lemma_triggered_frame(
                pended,
                cpu.injected(entry),
                int_id,
                physical_int_id,
                targets,
                bit + 1,
                injected || cpu.accepts(entry),
            );
        } else {
            let queued = Distributor { queue: pended.queue.push((target, entry)), ..pended };
            assert forall|c: int, k: int| 0 <= c < 8 && 0 <= k < 1024 implies
                #[trigger] queued.is_pending(c, k) == pended.is_pending(c, k) by {}
            lemma_triggered_frame(
                queued,
                CpuModel { sgi_targets: cpu.sgi_targets.push(target), ..cpu },
                int_id,
                physical_int_id,
                targets,
                bit + 1,
                true,
            );
        }
    }
}

/// Whether the following INTIDs can be triggered does not depend on what was triggered before.
pub proof fn lemma_can_retrigger_frame(
    before: Distributor,
    after: Distributor,
    cpu_before: CpuModel,
    cpu_after: CpuModel,
    int_id: int,
    value: int,
    after_enable: bool,
)
    requires
        before.can_retrigger(cpu_before, int_id, value, after_enable),
        0 <= int_id,
        cpu_after.target == cpu_before.target,
        after.enable == before.enable,
        after.ctlr == before.ctlr,
        after.own_target == before.own_target,
        forall|c: int, k: int|
            0 <= c < 8 && int_id <= k < 1024 ==> #[trigger] after.is_pending(c, k)
                == before.is_pending(c, k),
    ensures
        after.can_retrigger(cpu_after, int_id, value, after_enable),
    decreases value,
{
    if value > 0 {
        if value % 2 == 1 {
            let c = cpu_index(cpu_before.target);
            assert(after.is_pending(c, int_id) == before.is_pending(c, int_id));
        }
        lemma_can_retrigger_frame(
            before,
            after,
            cpu_before,
            cpu_after,
            int_id + 1,
            value / 2,
            after_enable,
        );
    }
}

/// Retriggering changes pending bits and the queue only.
pub proof fn lemma_retriggered_frame(
    distributor: Distributor,
    cpu: CpuModel,
    int_id: int,
    value: int,
    after_enable: bool,
)
    requires
        distributor.valid(),
        0 <= int_id,
        distributor.can_retrigger(cpu, int_id, value, after_enable),
    ensures
        ({
            let after = distributor.retriggered(cpu, int_id, value, after_enable);
            &&& after.0 == (Distributor {
                pending: after.0.pending,
                queue: after.0.queue,
                ..distributor
            })
            &&& after.0.valid()
            &&& after.1.target == cpu.target
        }),
    decreases value,
{
    if value > 0 {
        if value % 2 == 1 && distributor.is_selected(
            cpu_index(cpu.target),
            int_id,
            after_enable,
        ) {
            let targets = distributor.retrigger_targets(cpu, int_id);
            lemma_triggered_frame(distributor, cpu, int_id, None, targets, 0, false);
            let next = distributor.triggered(cpu, int_id, None, targets, 0, false);
            lemma_can_retrigger_frame(
                distributor,
                next.0,
                cpu,
                next.1,
                int_id + 1,
                value / 2,
                after_enable,
            );
            lemma_retriggered_frame(next.0, next.1, int_id + 1, value / 2, after_enable);
        } else {
            lemma_retriggered_frame(distributor, cpu, int_id + 1, value / 2, after_enable);
        }
    }
}

/// The SGI and PPI registers are private: whatever one CPU writes, the group, enable, active,
/// priority and configuration of INTIDs 0-31 stay as they are for every other CPU.
pub proof fn banked_registers_are_private(
    distributor: Distributor,
    cpu: CpuModel,
    offset: int,
    width: int,
    value: u64,
    other: int,
)
    requires
        distributor.valid(),
        distributor.can_write(cpu, offset, width, value),
        0 <= other < 8,
        other != cpu_index(cpu.target),
    ensures
        ({
            let after = distributor.written(cpu, offset, width, value).0;
            &&& after.group[other][0] == distributor.group[other][0]
            &&& after.enable[other][0] == distributor.enable[other][0]
            &&& after.active[other][0] == distributor.active[other][0]
            &&& forall|i: int|
                0 <= i < 8 ==> #[trigger] after.priority[other][i] == distributor.priority[other][i]
            &&& forall|i: int|
                0 <= i < 2 ==> #[trigger] after.configuration[other][i]
                    == distributor.configuration[other][i]
        }),
{
    let index = cpu_index(cpu.target);
    let word = #[verifier::truncate] (value as u32);
    if GICD_ISENABLER0 <= offset <= GICD_ISENABLER31 && width == 32 {
        let r = (offset - GICD_ISENABLER0) / 4;
        let enabled = distributor.with_enabled(index, r, word);
        lemma_set_register_shared(
            distributor.enable,
            1,
            32,
            index,
            r,
            distributor.enable[index][r] | word,
        );
        lemma_retriggered_frame(enabled, cpu, r * 32, value as int, true);
    } else if GICD_ISPENDR0 <= offset <= GICD_ISPENDR31 && width == 32 {
        let r = (offset - GICD_ISPENDR0) / 4;
        let pended = distributor.with_pended(index, r, word);
        lemma_set_register_shared(
            distributor.pending,
            1,
            32,
            index,
            r,
            distributor.pending[index][r] | word,
        );
        lemma_retriggered_frame(pended, cpu, r * 32, value as int, false);
    } else if offset == GICD_SGIR && width == 32 {
        assert(word & 0xF <= 15) by (bit_vector);
        lemma_triggered_frame(
            distributor,
            cpu,
            (word & 0xF) as int,
            None,
            Distributor::sgi_targets(cpu, value),
            0,
            false,
        );
    }
}

/// Writing a register keeps the views alike but for the banked registers.
pub proof fn lemma_set_register_shared(
    registers: Seq<Seq<u32>>,
    banked: int,
    n: nat,
    cpu: int,
    index: int,
    value: u32,
)
    requires
        is_shared(registers, banked, n),
        0 <= banked,
        0 <= cpu < 8,
        0 <= index < n,
    ensures
        is_shared(set_register(registers, banked, cpu, index, value), banked, n),
{
    let after = set_register(registers, banked, cpu, index, value);
    assert forall|c: int, i: int| 0 <= c < 8 && banked <= i < n implies #[trigger] after[c][i]
        == after[0][i] by {
        assert(registers[c][i] == registers[0][i]);
    }
}

/// A triggered interrupt is pending at every CPU that it was triggered at.
pub proof fn triggered_interrupt_is_pending(
    distributor: Distributor,
    cpu: CpuModel,
    int_id: int,
    physical_int_id: Option<u32>,
    targets: u8,
    bit: int,
    injected: bool,
    c: int,
)
    requires
        distributor.valid(),
        0 <= int_id < 1024,
        0 <= bit <= 8,
        0 <= c < 8,
        c >= bit && targets & (1u8 << (c as u8)) != 0 || distributor.is_pending(c, int_id),
    ensures
        distributor.triggered(
            cpu,
            int_id,
            physical_int_id,
            targets,
            bit,
            injected,
        ).0.is_pending(c, int_id),
    decreases 8 - bit,
{
    if bit < 8 {
        let target = 1u8 << (bit as u8);
        let pended = distributor.with_pending(bit, int_id, true);
        let entry = pended.entry(bit, int_id, physical_int_id);
        lemma_pended_bit(distributor, bit, int_id, true, c, int_id);
        if targets & target == 0 {
            triggered_interrupt_is_pending(
                distributor,
                cpu,
                int_id,
                physical_int_id,
                targets,
                bit + 1,
                injected,
                c,
            );
        } else if !pended.delivers(bit, int_id) {
            triggered_interrupt_is_pending(
                pended,
                cpu,
                int_id,
                physical_int_id,
                targets,
                bit + 1,
                injected,
                c,
            );
        } else if target == cpu.target {
            triggered_interrupt_is_pending(
                pended,
                cpu.injected(entry),
                int_id,
                physical_int_id,
                targets,
                bit + 1,
                injected || cpu.accepts(entry),
                c,
            );
        } else {
            let queued = Distributor { queue: pended.queue.push((target, entry)), ..pended };
            assert(queued.is_pending(c, int_id) == pended.is_pending(c, int_id));
            triggered_interrupt_is_pending(
                queued,
                CpuModel { sgi_targets: cpu.sgi_targets.push(target), ..cpu },
                int_id,
                physical_int_id,
                targets,
                bit + 1,
                true,
                c,
            );
        }
    }
}

/// After the waiting interrupts were injected, one waits only where every List Register in use is
/// occupied.
pub proof fn waiting_interrupts_are_injected(
    distributor: Distributor,
    cpu: CpuModel,
    from: int,
    int_id: int,
)
    requires
        cpu.list_registers.len() == 4,
        0 <= from <= int_id < 1020,
    ensures
        ({
            let after = distributor.pending_injected(cpu, from);
            distributor.is_waiting(after, int_id) ==> forall|i: int|
                0 <= i < after.used() ==> crate::vgic::is_occupied(
                    #[trigger] after.list_registers[i],
                )
        }),
    decreases 1020 - from,
{
    crate::vgic::lemma_free_from(cpu.list_registers, cpu.used(), 0);
    if cpu.has_free() {
        let index = cpu_index(cpu.target);
        let entry = distributor.entry(index, from, None);
        let next = if distributor.is_waiting(cpu, from) {
            cpu.injected(entry)
        } else {
            cpu
        };
        if distributor.is_waiting(cpu, from) {
            lemma_entry_names_its_interrupt(distributor, index, from);
            crate::vgic::lemma_injected_is_held(cpu, entry, from);
        }
        if from < int_id {
            waiting_interrupts_are_injected(distributor, next, from + 1, int_id);
        } else {
            lemma_pending_injected_frame(distributor, next, from + 1, int_id);
        }
    }
}

/// Injecting what waits takes no interrupt out of the List Registers.
proof fn lemma_pending_injected_frame(
    distributor: Distributor,
    cpu: CpuModel,
    from: int,
    int_id: int,
)
    requires
        cpu.list_registers.len() == 4,
        0 <= from,
        0 <= int_id < 1024,
    ensures
        ({
            let after = distributor.pending_injected(cpu, from);
            &&& after.target == cpu.target
            &&& after.count == cpu.count
            &&& after.list_registers.len() == 4
            &&& cpu.holds_int_id(int_id) ==> after.holds_int_id(int_id)
        }),
    decreases 1020 - from,
{
    if from < 1020 && cpu.has_free() {
        if distributor.is_waiting(cpu, from) {
            let entry = distributor.entry(cpu_index(cpu.target), from, None);
            crate::vgic::lemma_injected_keeps(cpu, entry, int_id);
            lemma_pending_injected_frame(distributor, cpu.injected(entry), from + 1, int_id);
        } else {
            lemma_pending_injected_frame(distributor, cpu, from + 1, int_id);
        }
    }
}

/// The List Register entry of an interrupt holds its INTID.
pub proof fn lemma_entry_names_its_interrupt(distributor: Distributor, cpu: int, int_id: int)
    requires
        0 <= int_id < 1024,
    ensures
        distributor.entry(cpu, int_id, None) & 0x3FF == int_id,
        crate::vgic::is_occupied(distributor.entry(cpu, int_id, None)),
{
    let group = distributor.group_of(cpu, int_id);
    let value = distributor.group[cpu][int_id / 32];
    let shift = (int_id % 32) as u32;
    let id = int_id as u32;
    assert((value >> shift) & 1 <= 1) by (bit_vector);
    crate::vgic_lr::list_register_fields(id, group, distributor.priority_of(cpu, int_id), None);
    let entry = distributor.entry(cpu, int_id, None);
    assert(id & 0x3FF == id) by (bit_vector)
        requires
            id < 1024,
    ;
    assert(entry & 0x3000_0000 != 0) by (bit_vector)
        requires
            (entry >> 28u32) & 3 == 1,
    ;
}

/// The CPUs see the same registers of the shared interrupts, whatever the guest does.
pub proof fn shared_registers_are_shared(distributor: GicDistributorMmio)
    ensures
        distributor@.valid(),
{
}

} // verus!
