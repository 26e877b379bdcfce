//! Traps and interrupts.

use crate::exception::{
    data_abort_handler, fiq_handler, irq_end, irq_handler, synchronous_handler, DeviceInterrupts,
    IrqSource, MmioAccess, Registers, SynchronousException, WfxPolls,
};
use vstd::prelude::*;

verus! {

/// Register `n` of a trap frame is register `n` of the guest; number 31 is the last slot.
pub proof fn trap_frame_is_in_order(registers: Registers)
    ensures
        registers@.len() == 32,
        registers@[0] == registers.x0 && registers@[1] == registers.x1,
        registers@[2] == registers.x2 && registers@[3] == registers.x3,
        registers@[4] == registers.x4 && registers@[5] == registers.x5,
        registers@[6] == registers.x6 && registers@[7] == registers.x7,
        registers@[8] == registers.x8 && registers@[9] == registers.x9,
        registers@[10] == registers.x10 && registers@[11] == registers.x11,
        registers@[12] == registers.x12 && registers@[13] == registers.x13,
        registers@[14] == registers.x14 && registers@[15] == registers.x15,
        registers@[16] == registers.x16 && registers@[17] == registers.x17,
        registers@[18] == registers.x18 && registers@[19] == registers.x19,
        registers@[20] == registers.x20 && registers@[21] == registers.x21,
        registers@[22] == registers.x22 && registers@[23] == registers.x23,
        registers@[24] == registers.x24 && registers@[25] == registers.x25,
        registers@[26] == registers.x26 && registers@[27] == registers.x27,
        registers@[28] == registers.x28 && registers@[29] == registers.x29,
        registers@[30] == registers.x30 && registers@[31] == registers.padding,
{
}

/// A saved trap frame gives back every register, one by one.
pub proof fn trap_frame_reads_back(
    saved: &Registers,
    array: [u64; 32],
    restored: &mut Registers,
)
    requires
        call_ensures(Registers::as_array, (saved,), array),
        call_ensures(Registers::load_array, (restored, &array), ()),
    ensures
        final(restored)@ == saved@,
        array@.len() == 32,
        array@[0] == saved.x0 && array@[8] == saved.x8 && array@[30] == saved.x30,
{
}

/// A data abort is decoded where bit 24 of its syndrome is set. The register is the number in bits
/// 20 to 16, the width 8, 16, 32 or 64 bits by bits 23 and 22; bit 6 tells a write and bit 15 a 64-bit
/// register. The page comes from HPFAR_EL2, and the place in it from FAR_EL2.
pub proof fn data_abort_names_its_access(
    esr_el2: u64,
    hpfar_el2: u64,
    far_el2: u64,
    access: Option<MmioAccess>,
)
    requires
        call_ensures(data_abort_handler, (esr_el2, hpfar_el2, far_el2), access),
    ensures
        access is Some <==> esr_el2 / 0x100_0000 % 2 == 1,
        access matches Some(a) ==> {
            &&& a.register_number == esr_el2 / 0x1_0000 % 32
            &&& a.access_width == 8 * vstd::arithmetic::power2::pow2(
                (esr_el2 / 0x40_0000 % 4) as nat,
            )
            &&& a.is_write_access <==> esr_el2 / 0x40 % 2 == 1
            &&& a.is_64bit_register <==> esr_el2 / 0x8000 % 2 == 1
            &&& a.address == (hpfar_el2 / 16 % 0x100_0000_0000) * 0x1000 + far_el2 % 0x1000
        },
{
    crate::laws::fields::lemma_syndrome(esr_el2, hpfar_el2, far_el2);
    vstd::arithmetic::power2::lemma2_to64();
}

/// A syndrome that names register `n` loads register `n`, and leaves every other one.
pub proof fn load_reaches_the_named_register(
    esr_el2: u64,
    hpfar_el2: u64,
    far_el2: u64,
    access: &MmioAccess,
    registers: &mut Registers,
    value: u64,
    n: int,
    i: int,
)
    requires
        call_ensures(data_abort_handler, (esr_el2, hpfar_el2, far_el2), Some(*access)),
        call_ensures(MmioAccess::load_value, (access, registers, value), ()),
        0 <= n < 32,
        0 <= i < 32,
        esr_el2 as int / 0x1_0000 % 32 == n,
    ensures
        final(registers)@[i] == if i == n {
            value
        } else {
            old(registers)@[i]
        },
{
    crate::laws::fields::lemma_syndrome(esr_el2, hpfar_el2, far_el2);
}

/// A syndrome that names register `n` stores what register `n` holds: all of it, or its low 32 bits.
pub proof fn store_takes_the_named_register(
    esr_el2: u64,
    hpfar_el2: u64,
    far_el2: u64,
    access: &MmioAccess,
    registers: &Registers,
    value: u64,
    n: int,
)
    requires
        call_ensures(data_abort_handler, (esr_el2, hpfar_el2, far_el2), Some(*access)),
        call_ensures(MmioAccess::written_value, (access, registers), value),
        0 <= n < 32,
        esr_el2 as int / 0x1_0000 % 32 == n,
    ensures
        value == if esr_el2 / 0x8000 % 2 == 1 {
            registers@[n]
        } else {
            registers@[n] % 0x1_0000_0000
        },
{
    crate::laws::fields::lemma_syndrome(esr_el2, hpfar_el2, far_el2);
    crate::laws::fields::lemma_syndrome(registers@[n], 0, 0);
}

/// The exception class is the number in bits 31 to 26 of the syndrome.
pub proof fn exception_is_that_of_its_class(esr_el2: u64, exception: SynchronousException)
    requires
        call_ensures(synchronous_handler, (esr_el2,), exception),
    ensures
        ({
            let class = esr_el2 / 0x400_0000 % 64;
            &&& exception is DataAbort <==> class == 0x24
            &&& exception is Wfx <==> class == 1
            &&& exception is Smc <==> class == 0x17
            &&& exception matches SynchronousException::Unknown(c) ==> c == class
        }),
{
    crate::laws::fields::lemma_syndrome(esr_el2, 0, 0);
}

/// After a poll the same CPU polls again once a millisecond has passed, and not before. Another CPU
/// does not make it wait.
pub proof fn polls_come_once_a_millisecond(
    polls: &mut WfxPolls,
    mpidr_el1: u64,
    now: u64,
    frequency: u64,
    again: &mut WfxPolls,
    other: u64,
    later: u64,
    poll: bool,
)
    requires
        call_ensures(WfxPolls::wfx_handler, (polls, mpidr_el1, now, frequency), true),
        *old(again) == *final(polls),
        call_ensures(WfxPolls::wfx_handler, (again, other, later, frequency), poll),
        now <= later,
        other % 256 < 8,
    ensures
        mpidr_el1 % 256 < 8,
        other % 256 == mpidr_el1 % 256 ==> poll == (later - now >= frequency as int / 1000),
        other % 256 != mpidr_el1 % 256 && old(polls).last_poll@[(other % 256) as int] <= later
            ==> poll == (later - old(polls).last_poll@[(other % 256) as int] >= frequency as int
            / 1000),
        final(again).count == old(polls).count.wrapping_add(1).wrapping_add(1),
{
}

/// Each interrupt is taken for what it is: the UART's, 25 for maintenance, 11 for an injection from
/// another CPU, the timer's, the network's, and 1023 for none.
pub proof fn interrupts_have_their_sources(number: u32, devices: &DeviceInterrupts, source: IrqSource)
    requires
        call_ensures(irq_handler, (number, devices), source),
        devices.pl011 != 25 && devices.pl011 != 11 && devices.pl011 != 1023,
        devices.timer != 25 && devices.timer != 11 && devices.timer != 1023,
        devices.net != 25 && devices.net != 11 && devices.net != 1023,
        devices.pl011 != devices.timer && devices.timer != devices.net && devices.net
            != devices.pl011,
    ensures
        source is Uart <==> number == devices.pl011,
        source is Maintenance <==> number == 25,
        source is Inject <==> number == 11,
        source is Timer <==> number == devices.timer,
        source is Net <==> number == devices.net,
        source is Spurious <==> number == 1023,
{
}

/// Every interrupt but the spurious one has its priority dropped, and is deactivated unless it is the
/// timer's and the guest will do so.
pub proof fn interrupts_are_ended(
    number: u32,
    source: IrqSource,
    injected: bool,
    end: (bool, bool),
)
    requires
        call_ensures(irq_end, (number, source, injected), end),
    ensures
        end.0 <==> number != 1023,
        end.1 ==> end.0,
        end.0 && !end.1 <==> number != 1023 && source is Timer && injected,
{
}

/// An FIQ is the UART's or none that is known.
pub proof fn fast_interrupts_have_their_sources(
    number: u32,
    devices: &DeviceInterrupts,
    source: IrqSource,
)
    requires
        call_ensures(fiq_handler, (number, devices), source),
    ensures
        source is Uart <==> number == devices.pl011,
        source is Spurious <==> number == 1023 && devices.pl011 != 1023,
        source is Uart || source is Spurious || source is Unknown,
{
}

} // verus!
