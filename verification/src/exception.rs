//! Exceptions and interrupts that are taken to EL2.

use crate::drivers::gicv2::GicCpuInterface;
use crate::mmio::gicv2::INJECT_INTERRUPT_INT_ID;
use crate::registers::{
    ESR_EL2_EC, ESR_EL2_EC_BITS_OFFSET, ESR_EL2_EC_DATA_ABORT, ESR_EL2_EC_SMC64, ESR_EL2_EC_WFX,
    ESR_EL2_ISS_ISV, ESR_EL2_ISS_SAS, ESR_EL2_ISS_SAS_BITS_OFFSET, ESR_EL2_ISS_SF, ESR_EL2_ISS_SRT,
    ESR_EL2_ISS_SRT_BITS_OFFSET, ESR_EL2_ISS_WNR, HPFAR_EL2_FIPA, HPFAR_EL2_FIPA_BITS_OFFSET,
};
use crate::vgic::MAINTENANCE_INTERRUPT_INTID;
use vstd::prelude::*;

verus! {

/// The general purpose registers of a vCPU in a trap frame.
pub struct Registers {
    pub x0: u64,
    pub x1: u64,
    pub x2: u64,
    pub x3: u64,
    pub x4: u64,
    pub x5: u64,
    pub x6: u64,
    pub x7: u64,
    pub x8: u64,
    pub x9: u64,
    pub x10: u64,
    pub x11: u64,
    pub x12: u64,
    pub x13: u64,
    pub x14: u64,
    pub x15: u64,
    pub x16: u64,
    pub x17: u64,
    pub x18: u64,
    pub x19: u64,
    pub x20: u64,
    pub x21: u64,
    pub x22: u64,
    pub x23: u64,
    pub x24: u64,
    pub x25: u64,
    pub x26: u64,
    pub x27: u64,
    pub x28: u64,
    pub x29: u64,
    pub x30: u64,
    pub padding: u64,
}

impl Registers {
    /// Number of `u64` slots in this struct (x0-x30 plus the trailing padding slot, which stands
    /// for the zero register).
    pub const NUMBER_OF_SLOTS: usize = 32;

    pub open spec fn view(&self) -> Seq<u64> {
        seq![
            self.x0, self.x1, self.x2, self.x3, self.x4, self.x5, self.x6, self.x7, self.x8, self.x9, self.x10, self.x11, self.x12, self.x13, self.x14, self.x15, self.x16, self.x17, self.x18, self.x19, self.x20, self.x21, self.x22, self.x23, self.x24, self.x25, self.x26, self.x27, self.x28, self.x29, self.x30, self.padding,
        ]
    }

    /// This trap frame as a flat array, for saving the context of a vCPU that yields the CPU.
    pub fn as_array(&self) -> (array: [u64; 32])
        ensures
            array@ == self@,
    {
        let array: [u64; 32] = [
            self.x0, self.x1, self.x2, self.x3, self.x4, self.x5, self.x6, self.x7, self.x8, self.x9, self.x10, self.x11, self.x12, self.x13, self.x14, self.x15, self.x16, self.x17, self.x18, self.x19, self.x20, self.x21, self.x22, self.x23, self.x24, self.x25, self.x26, self.x27, self.x28, self.x29, self.x30, self.padding,
        ];
        assert(array@ =~= self@);
        array
    }

    /// Overwrites this trap frame with a previously saved context.
    pub fn load_array(&mut self, array: &[u64; 32])
        ensures
            final(self)@ == array@,
    {
        self.x0 = array[0];
        self.x1 = array[1];
        self.x2 = array[2];
        self.x3 = array[3];
        self.x4 = array[4];
        self.x5 = array[5];
        self.x6 = array[6];
        self.x7 = array[7];
        self.x8 = array[8];
        self.x9 = array[9];
        self.x10 = array[10];
        self.x11 = array[11];
        self.x12 = array[12];
        self.x13 = array[13];
        self.x14 = array[14];
        self.x15 = array[15];
        self.x16 = array[16];
        self.x17 = array[17];
        self.x18 = array[18];
        self.x19 = array[19];
        self.x20 = array[20];
        self.x21 = array[21];
        self.x22 = array[22];
        self.x23 = array[23];
        self.x24 = array[24];
        self.x25 = array[25];
        self.x26 = array[26];
        self.x27 = array[27];
        self.x28 = array[28];
        self.x29 = array[29];
        self.x30 = array[30];
        self.padding = array[31];
        assert(self@ =~= array@);
    }
}

/// Why a guest trapped.
#[derive(Clone, Copy, PartialEq, Eq, Debug, Structural)]
pub enum SynchronousException {
    DataAbort,
    /// WFI or WFE.
    Wfx,
    Smc,
    /// The exception class of another exception.
    Unknown(u64),
}

/// Classifies a synchronous exception by its syndrome.
pub fn synchronous_handler(esr_el2: u64) -> (exception: SynchronousException)
    ensures
        exception == ({
            let ec = esr_el2 & 0xFC00_0000;
            if ec == 0x9000_0000 {
                SynchronousException::DataAbort
            } else if ec == 0x0400_0000 {
                SynchronousException::Wfx
            } else if ec == 0x5C00_0000 {
                SynchronousException::Smc
            } else {
                SynchronousException::Unknown(ec >> 26u64)
            }
        }),
{
    let ec: u64 = esr_el2 & ESR_EL2_EC;
    if ec == ESR_EL2_EC_DATA_ABORT {
        SynchronousException::DataAbort
    } else if ec == ESR_EL2_EC_WFX {
        SynchronousException::Wfx
    } else if ec == ESR_EL2_EC_SMC64 {
        SynchronousException::Smc
    } else {
        SynchronousException::Unknown(ec >> ESR_EL2_EC_BITS_OFFSET)
    }
}

/// An access of the guest to an address that is not its memory.
#[derive(Clone, Copy, PartialEq, Eq, Debug, Structural)]
pub struct MmioAccess {
    pub address: u64,
    /// 8, 16, 32 or 64 bits.
    pub access_width: u64,
    pub is_write_access: bool,
    /// The register that is stored or loaded; 31 is the zero register.
    pub register_number: usize,
    pub is_64bit_register: bool,
}

/// The access that a data abort with syndrome `esr_el2` stands for.
pub open spec fn mmio_access(esr_el2: u64, hpfar_el2: u64, far_el2: u64) -> MmioAccess {
    let sas = (esr_el2 & 0x00C0_0000) >> 22u64;
    MmioAccess {
        address: (((hpfar_el2 & 0x0FFF_FFFF_FFF0) >> 4u64) << 12u64) | (far_el2 & 0xFFF),
        access_width: if sas == 0 {
            8
        } else if sas == 1 {
            16
        } else if sas == 2 {
            32
        } else {
            64
        },
        is_write_access: (esr_el2 & 0x40) != 0,
        register_number: ((esr_el2 & 0x001F_0000) >> 16u64) as usize,
        is_64bit_register: (esr_el2 & 0x8000) != 0,
    }
}

/// Decodes a data abort. `None` where the syndrome does not describe the access.
pub fn data_abort_handler(esr_el2: u64, hpfar_el2: u64, far_el2: u64) -> (access: Option<
    MmioAccess,
>)
    ensures
        match access {
            Some(a) => {
                &&& esr_el2 & 0x0100_0000 != 0
                &&& a == mmio_access(esr_el2, hpfar_el2, far_el2)
                &&& a.register_number < 32
            },
            None => esr_el2 & 0x0100_0000 == 0,
        },
{
    if esr_el2 & ESR_EL2_ISS_ISV == 0 {
        return None;
    }
    let sas: u64 = (esr_el2 & ESR_EL2_ISS_SAS) >> ESR_EL2_ISS_SAS_BITS_OFFSET;
    let access_width: u64 = match sas {
        0 => 8,
        1 => 16,
        2 => 32,
        _ => 64,
    };
    proof {
        assert((esr_el2 & 0x001F_0000) >> 16u64 < 32) by (bit_vector);
    }
    Some(
        MmioAccess {
            address: (((hpfar_el2 & HPFAR_EL2_FIPA) >> HPFAR_EL2_FIPA_BITS_OFFSET) << 12u64) | (
            far_el2 & 0xFFF),
            access_width,
            is_write_access: (esr_el2 & ESR_EL2_ISS_WNR) != 0,
            register_number: ((esr_el2 & ESR_EL2_ISS_SRT) >> ESR_EL2_ISS_SRT_BITS_OFFSET) as usize,
            is_64bit_register: (esr_el2 & ESR_EL2_ISS_SF) != 0,
        },
    )
}

impl MmioAccess {
    /// The value that a write access stores: a 32-bit register stores its low half.
    pub fn written_value(&self, registers: &Registers) -> (value: u64)
        requires
            self.register_number < 32,
        ensures
            value == if self.is_64bit_register {
                registers@[self.register_number as int]
            } else {
                registers@[self.register_number as int] & 0xFFFF_FFFF
            },
    {
        let array: [u64; 32] = registers.as_array();
        let value: u64 = array[self.register_number];
        if self.is_64bit_register {
            value
        } else {
            value & 0xFFFF_FFFF
        }
    }

    /// Puts the value that a read access loads into its register.
    pub fn load_value(&self, registers: &mut Registers, value: u64)
        requires
            self.register_number < 32,
        ensures
            final(registers)@ == old(registers)@.update(self.register_number as int, value),
    {
        let mut array: [u64; 32] = registers.as_array();
        array[self.register_number] = value;
        registers.load_array(&array);
    }
}

/// The device polls that trapped WFIs trigger.
pub struct WfxPolls {
    /// How often a WFI trapped.
    pub count: u64,
    /// When each CPU polled last.
    pub last_poll: [u64; 8],
}

impl WfxPolls {
    pub fn new() -> (polls: Self)
        ensures
            polls.count == 0,
            polls.last_poll@ == Seq::new(8, |i: int| 0u64),
    {
        let polls = Self { count: 0, last_poll: [0; 8] };
        assert(polls.last_poll@ =~= Seq::new(8, |i: int| 0u64));
        polls
    }

    /// CPU `cpu` polls at time `now`: a millisecond of a timer of `frequency` Hz has passed since
    /// it did last.
    pub open spec fn is_due(&self, cpu: int, now: u64, frequency: u64) -> bool {
        cpu < 8 && (now - self.last_poll@[cpu]) % 0x1_0000_0000_0000_0000 >= frequency / 1000
    }

    /// Counts a trapped WFI, and tells whether the devices have to be polled now. Idle vCPUs hit
    /// WFI in a tight loop, so each CPU polls at most once per millisecond.
    pub fn wfx_handler(&mut self, mpidr_el1: u64, now: u64, frequency: u64) -> (poll: bool)
        ensures
            poll == old(self).is_due((mpidr_el1 % 256) as int, now, frequency),
            final(self).count == old(self).count.wrapping_add(1),
            final(self).last_poll@ == if poll {
                old(self).last_poll@.update((mpidr_el1 % 256) as int, now)
            } else {
                old(self).last_poll@
            },
    {
        self.count = self.count.wrapping_add(1);
        let cpu: usize = (mpidr_el1 % 256) as usize;
        if cpu < 8 {
            let last: u64 = self.last_poll[cpu];
            if now.wrapping_sub(last) >= frequency / 1000 {
                self.last_poll[cpu] = now;
                return true;
            }
        }
        false
    }
}

/// Two polls of one CPU are at least a millisecond apart, however often it traps, while the timer
/// has not come round.
pub proof fn polls_are_a_millisecond_apart(
    before: WfxPolls,
    cpu: int,
    first: u64,
    now: u64,
    frequency: u64,
)
    requires
        0 <= cpu < 8,
        before.last_poll@[cpu] == first,
        first <= now,
        now - first < frequency / 1000,
    ensures
        !before.is_due(cpu, now, frequency),
{
}

/// What a physical interrupt is for.
#[derive(Clone, Copy, PartialEq, Eq, Debug, Structural)]
pub enum IrqSource {
    Uart,
    Maintenance,
    Inject,
    Timer,
    Net,
    /// No interrupt is pending.
    Spurious,
    Unknown,
}

/// The interrupts of the devices that the hypervisor owns.
#[derive(Clone, Copy)]
pub struct DeviceInterrupts {
    pub pl011: u32,
    pub timer: u32,
    pub net: u32,
}

/// What the acknowledged interrupt is for.
pub fn irq_handler(interrupt_number: u32, devices: &DeviceInterrupts) -> (source: IrqSource)
    ensures
        source == if interrupt_number == devices.pl011 {
            IrqSource::Uart
        } else if interrupt_number == 25 {
            IrqSource::Maintenance
        } else if interrupt_number == 11 {
            IrqSource::Inject
        } else if interrupt_number == devices.timer {
            IrqSource::Timer
        } else if interrupt_number == devices.net {
            IrqSource::Net
        } else if interrupt_number == 1023 {
            IrqSource::Spurious
        } else {
            IrqSource::Unknown
        },
{
    if interrupt_number == devices.pl011 {
        IrqSource::Uart
    } else if interrupt_number == MAINTENANCE_INTERRUPT_INTID {
        IrqSource::Maintenance
    } else if interrupt_number == INJECT_INTERRUPT_INT_ID {
        IrqSource::Inject
    } else if interrupt_number == devices.timer {
        IrqSource::Timer
    } else if interrupt_number == devices.net {
        IrqSource::Net
    } else if interrupt_number == GicCpuInterface::SPURIOUS_INT_ID {
        IrqSource::Spurious
    } else {
        IrqSource::Unknown
    }
}

/// Whether the priority has to be dropped and the interrupt deactivated, in this order. There is
/// nothing to end for the spurious ID. A timer interrupt that was injected is deactivated by the
/// guest; one that was not would mask the timer forever, and is deactivated here.
pub fn irq_end(interrupt_number: u32, source: IrqSource, injected: bool) -> (end: (bool, bool))
    ensures
        end.0 == (interrupt_number != 1023),
        end.1 == (interrupt_number != 1023 && !(source == IrqSource::Timer && injected)),
{
    if interrupt_number == GicCpuInterface::SPURIOUS_INT_ID {
        return (false, false);
    }
    let deactivate: bool = if source == IrqSource::Timer {
        !injected
    } else {
        true
    };
    (true, deactivate)
}

/// Dispatches a physical FIQ, i.e. a Group 0 interrupt. An SPI that no secure firmware assigned to
/// Group 1 stays in Group 0, so this can be the delivery path of the UART.
pub fn fiq_handler(interrupt_number: u32, devices: &DeviceInterrupts) -> (source: IrqSource)
    ensures
        source == if interrupt_number == devices.pl011 {
            IrqSource::Uart
        } else if interrupt_number == 1023 {
            IrqSource::Spurious
        } else {
            IrqSource::Unknown
        },
{
    if interrupt_number == devices.pl011 {
        IrqSource::Uart
    } else if interrupt_number == GicCpuInterface::SPURIOUS_INT_ID {
        IrqSource::Spurious
    } else {
        IrqSource::Unknown
    }
}

} // verus!
