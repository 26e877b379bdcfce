//! A guest's accesses to its devices, and its UART.

use crate::exception::Registers;
use crate::guest_ram::GuestRam;
use crate::mmio::gicv2::GicDistributorMmio;
use crate::mmio::pl011::Pl011Mmio;
use crate::trap::{handle_data_abort, AbortError, AbortOutcome};
use crate::vgic::CpuInterface;
use crate::vm::{MmioDevice, VM};
use vstd::prelude::*;

verus! {

/// The VM has its devices where a guest expects them: the interrupt controller at 0x800_0000, the UART
/// at 0x900_0000, the disk at 0xA00_0000 and the network at 0xA00_0200.
pub open spec fn has_guest_devices(vm: VM) -> bool {
    let entries = vm.mmio_handlers@;
    &&& entries.len() == 4
    &&& entries[0].base_address == 0x900_0000 && entries[0].length == 0x1000 && entries[0].device
        == MmioDevice::Pl011
    &&& entries[1].base_address == 0xA00_0000 && entries[1].length == 0x200 && entries[1].device
        == MmioDevice::VirtioBlk
    &&& entries[2].base_address == 0x800_0000 && entries[2].length == 0x1_0000 && entries[2].device
        == MmioDevice::GicDistributor
    &&& entries[3].base_address == 0xA00_0200 && entries[3].length == 0x200 && entries[3].device
        == MmioDevice::VirtioNet
}

/// A new guest has these devices.
pub proof fn new_guest_has_its_devices(vm: VM)
    requires
        vm.mmio_handlers@ == crate::guest::guest_devices(),
    ensures
        has_guest_devices(vm),
{
}

/// The address of an access, from the registers of the trap.
pub open spec fn trapped_address(hpfar_el2: u64, far_el2: u64) -> int {
    (hpfar_el2 as int / 16 % 0x100_0000_0000) * 0x1000 + far_el2 as int % 0x1000
}

/// The number of the register, from the syndrome.
pub open spec fn trapped_register(esr_el2: u64) -> int {
    esr_el2 as int / 0x1_0000 % 32
}

/// The syndrome describes a write, or a read.
pub open spec fn is_trapped(esr_el2: u64, is_write: bool) -> bool {
    esr_el2 / 0x100_0000 % 2 == 1 && is_write == (esr_el2 / 0x40 % 2 == 1)
}

/// The width of an access in bits, from the syndrome.
pub open spec fn trapped_width(esr_el2: u64) -> u64 {
    let size = esr_el2 / 0x40_0000 % 4;
    if size == 0 {
        8
    } else if size == 1 {
        16
    } else if size == 2 {
        32
    } else {
        64
    }
}

/// The value that a write stores.
pub open spec fn trapped_value(esr_el2: u64, registers: Seq<u64>) -> u64 {
    let value = registers[trapped_register(esr_el2)];
    if esr_el2 / 0x8000 % 2 == 1 {
        value
    } else {
        value % 0x1_0000_0000
    }
}

proof fn lemma_access(esr_el2: u64, hpfar_el2: u64, far_el2: u64, registers: Seq<u64>)
    requires
        registers.len() == 32,
    ensures
        (esr_el2 & 0x0100_0000 == 0) == (esr_el2 / 0x100_0000 % 2 == 0),
        ({
            let access = crate::exception::mmio_access(esr_el2, hpfar_el2, far_el2);
            &&& access.address == trapped_address(hpfar_el2, far_el2)
            &&& access.register_number == trapped_register(esr_el2)
            &&& access.is_write_access == (esr_el2 / 0x40 % 2 == 1)
            &&& access.access_width == trapped_width(esr_el2)
            &&& crate::trap::stored_value(access, registers) == trapped_value(esr_el2, registers)
        }),
{
    crate::laws::fields::lemma_syndrome(esr_el2, hpfar_el2, far_el2);
    crate::laws::fields::lemma_syndrome(registers[trapped_register(esr_el2)], 0, 0);
}

proof fn lemma_device(vm: VM, address: u64)
    requires
        has_guest_devices(vm),
    ensures
        vm.device_at(address) == if 0x900_0000 <= address < 0x900_1000 {
            Some((MmioDevice::Pl011, address - 0x900_0000))
        } else if 0xA00_0000 <= address < 0xA00_0200 {
            Some((MmioDevice::VirtioBlk, address - 0xA00_0000))
        } else if 0x800_0000 <= address < 0x801_0000 {
            Some((MmioDevice::GicDistributor, address - 0x800_0000))
        } else if 0xA00_0200 <= address < 0xA00_0400 {
            Some((MmioDevice::VirtioNet, address - 0xA00_0200))
        } else {
            None
        },
{
    reveal_with_fuel(crate::vm::entry_from, 5);
}

/// A trap without a valid syndrome is refused and changes nothing.
pub proof fn trap_without_syndrome_is_refused(
    vm: &mut VM,
    cpu: &mut CpuInterface,
    ram: &GuestRam,
    esr_el2: u64,
    hpfar_el2: u64,
    far_el2: u64,
    registers: &mut Registers,
    result: Result<AbortOutcome, AbortError>,
)
    requires
        call_ensures(
            handle_data_abort,
            (vm, cpu, ram, esr_el2, hpfar_el2, far_el2, registers),
            result,
        ),
    ensures
        result == Err::<AbortOutcome, AbortError>(AbortError::NoSyndrome) <==> esr_el2 / 0x100_0000
            % 2 == 0,
        esr_el2 / 0x100_0000 % 2 == 0 ==> final(registers)@ == old(registers)@ && *final(vm) == *old(
            vm,
        ) && final(cpu)@ == old(cpu)@,
{
    crate::laws::fields::lemma_syndrome(esr_el2, hpfar_el2, far_el2);
}

/// An access where there is no device is refused.
pub proof fn access_without_a_device_is_refused(
    vm: &mut VM,
    cpu: &mut CpuInterface,
    ram: &GuestRam,
    esr_el2: u64,
    hpfar_el2: u64,
    far_el2: u64,
    registers: &mut Registers,
    result: Result<AbortOutcome, AbortError>,
)
    requires
        call_ensures(
            handle_data_abort,
            (vm, cpu, ram, esr_el2, hpfar_el2, far_el2, registers),
            result,
        ),
        has_guest_devices(*old(vm)),
        ({
            let address = trapped_address(hpfar_el2, far_el2);
            address < 0x800_0000 || 0x801_0000 <= address < 0x900_0000 || 0x900_1000 <= address
                < 0xA00_0000 || 0xA00_0400 <= address
        }),
    ensures
        result is Err,
        final(registers)@ == old(registers)@,
{
    lemma_access(esr_el2, hpfar_el2, far_el2, old(registers)@);
    lemma_device(*old(vm), trapped_address(hpfar_el2, far_el2) as u64);
}

/// What a guest writes to the data register of its UART goes out: the low byte of the register that it
/// stores.
pub proof fn uart_output_is_put_out(
    vm: &mut VM,
    cpu: &mut CpuInterface,
    ram: &GuestRam,
    esr_el2: u64,
    hpfar_el2: u64,
    far_el2: u64,
    registers: &mut Registers,
    result: Result<AbortOutcome, AbortError>,
)
    requires
        call_ensures(
            handle_data_abort,
            (vm, cpu, ram, esr_el2, hpfar_el2, far_el2, registers),
            result,
        ),
        has_guest_devices(*old(vm)),
        is_trapped(esr_el2, true),
        trapped_address(hpfar_el2, far_el2) == 0x900_0000,
    ensures
        result matches Ok(AbortOutcome::Output(byte)) && byte == old(
            registers,
        )@[trapped_register(esr_el2)] % 256,
        final(registers)@ == old(registers)@,
{
    lemma_access(esr_el2, hpfar_el2, far_el2, old(registers)@);
    lemma_device(*old(vm), 0x900_0000);
    lemma_low_byte(trapped_value(esr_el2, old(registers)@));
}

proof fn lemma_low_byte(value: u64)
    ensures
        (#[verifier::truncate] (value as u8)) == value % 256,
        (#[verifier::truncate] (value as u16)) == value % 0x1_0000,
{
    crate::laws::fields::lemma_truncation(value);
}

/// A guest that reads a register of its interrupt controller gets the value in the register that the
/// syndrome names, and nowhere else.
pub proof fn interrupt_controller_reads_go_to_their_register(
    vm: &mut VM,
    cpu: &mut CpuInterface,
    ram: &GuestRam,
    esr_el2: u64,
    hpfar_el2: u64,
    far_el2: u64,
    registers: &mut Registers,
    result: Result<AbortOutcome, AbortError>,
    offset: usize,
    value: u64,
    i: int,
)
    requires
        call_ensures(
            handle_data_abort,
            (vm, cpu, ram, esr_el2, hpfar_el2, far_el2, registers),
            result,
        ),
        has_guest_devices(*old(vm)),
        is_trapped(esr_el2, false),
        offset < 0x1_0000,
        trapped_address(hpfar_el2, far_el2) == 0x800_0000 + offset,
        call_ensures(
            GicDistributorMmio::read,
            (&old(vm).gic_distributor_mmio, &*old(cpu), offset, trapped_width(esr_el2)),
            Ok(value),
        ),
        0 <= i < 32,
    ensures
        result == Ok::<AbortOutcome, AbortError>(AbortOutcome::Done),
        final(registers)@[i] == if i == trapped_register(esr_el2) {
            value
        } else {
            old(registers)@[i]
        },
        final(vm).gic_distributor_mmio == old(vm).gic_distributor_mmio,
        final(cpu)@ == old(cpu)@,
{
    lemma_access(esr_el2, hpfar_el2, far_el2, old(registers)@);
    lemma_device(*old(vm), (0x800_0000 + offset) as u64);
}

/// A guest that writes a register of its interrupt controller writes the value of the register that the
/// syndrome names.
pub proof fn interrupt_controller_writes_take_their_register(
    vm: &mut VM,
    cpu: &mut CpuInterface,
    ram: &GuestRam,
    esr_el2: u64,
    hpfar_el2: u64,
    far_el2: u64,
    registers: &mut Registers,
    result: Result<AbortOutcome, AbortError>,
    offset: usize,
    distributor: &mut GicDistributorMmio,
    interface: &mut CpuInterface,
)
    requires
        call_ensures(
            handle_data_abort,
            (vm, cpu, ram, esr_el2, hpfar_el2, far_el2, registers),
            result,
        ),
        has_guest_devices(*old(vm)),
        is_trapped(esr_el2, true),
        offset < 0x1_0000,
        trapped_address(hpfar_el2, far_el2) == 0x800_0000 + offset,
        result is Ok,
        old(distributor)@ == old(vm).gic_distributor_mmio@,
        old(interface)@ == old(cpu)@,
        call_ensures(
            GicDistributorMmio::write,
            (
                distributor,
                interface,
                offset,
                trapped_width(esr_el2),
                trapped_value(esr_el2, old(registers)@),
            ),
            Ok(()),
        ),
    ensures
        result == Ok::<AbortOutcome, AbortError>(AbortOutcome::Done),
        final(vm).gic_distributor_mmio@ == final(distributor)@,
        final(cpu)@ == final(interface)@,
        final(registers)@ == old(registers)@,
        final(vm).pl011_mmio@ == old(vm).pl011_mmio@,
        final(vm).virtio_net_mmio.device@ == old(vm).virtio_net_mmio.device@,
{
    lemma_access(esr_el2, hpfar_el2, far_el2, old(registers)@);
    lemma_device(*old(vm), (0x800_0000 + offset) as u64);
}

/// A guest that reads a register of its UART gets the value in the register that the syndrome names.
pub proof fn uart_reads_go_to_their_register(
    vm: &mut VM,
    cpu: &mut CpuInterface,
    ram: &GuestRam,
    esr_el2: u64,
    hpfar_el2: u64,
    far_el2: u64,
    registers: &mut Registers,
    result: Result<AbortOutcome, AbortError>,
    offset: usize,
    uart: &mut Pl011Mmio,
    value: u64,
    i: int,
)
    requires
        old(vm).wf(),
        call_ensures(
            handle_data_abort,
            (vm, cpu, ram, esr_el2, hpfar_el2, far_el2, registers),
            result,
        ),
        has_guest_devices(*old(vm)),
        is_trapped(esr_el2, false),
        offset < 0x1000,
        trapped_address(hpfar_el2, far_el2) == 0x900_0000 + offset,
        *old(uart) == old(vm).pl011_mmio,
        call_ensures(Pl011Mmio::read, (uart, offset, trapped_width(esr_el2)), Ok(value)),
        0 <= i < 32,
    ensures
        result == Ok::<AbortOutcome, AbortError>(AbortOutcome::Done),
        final(registers)@[i] == if i == trapped_register(esr_el2) {
            value
        } else {
            old(registers)@[i]
        },
        final(vm).pl011_mmio@ == final(uart)@,
{
    lemma_access(esr_el2, hpfar_el2, far_el2, old(registers)@);
    lemma_device(*old(vm), (0x900_0000 + offset) as u64);
}

/// The disk is accessed at the offset of the access, with the value and the width that the trap names.
pub proof fn disk_accesses_are_passed_on(
    vm: &mut VM,
    cpu: &mut CpuInterface,
    ram: &GuestRam,
    esr_el2: u64,
    hpfar_el2: u64,
    far_el2: u64,
    registers: &mut Registers,
    result: Result<AbortOutcome, AbortError>,
    offset: usize,
    is_write: bool,
)
    requires
        call_ensures(
            handle_data_abort,
            (vm, cpu, ram, esr_el2, hpfar_el2, far_el2, registers),
            result,
        ),
        has_guest_devices(*old(vm)),
        is_trapped(esr_el2, is_write),
        offset < 0x200,
        trapped_address(hpfar_el2, far_el2) == 0xA00_0000 + offset,
    ensures
        is_write ==> result == Ok::<AbortOutcome, AbortError>(
            AbortOutcome::BlockWrite {
                offset,
                access_width: trapped_width(esr_el2),
                value: trapped_value(esr_el2, old(registers)@),
            },
        ),
        !is_write ==> {
            &&& result matches Ok(AbortOutcome::BlockRead { offset: o, access })
            &&& o == offset
            &&& access.register_number == trapped_register(esr_el2)
            &&& access.access_width == trapped_width(esr_el2)
        },
        final(registers)@ == old(registers)@,
{
    lemma_access(esr_el2, hpfar_el2, far_el2, old(registers)@);
    lemma_device(*old(vm), (0xA00_0000 + offset) as u64);
}

/// A guest that writes 1 to the notification register of its network device has frames to send.
pub proof fn network_notification_sends_frames(
    vm: &mut VM,
    cpu: &mut CpuInterface,
    ram: &GuestRam,
    esr_el2: u64,
    hpfar_el2: u64,
    far_el2: u64,
    registers: &mut Registers,
    result: Result<AbortOutcome, AbortError>,
)
    requires
        call_ensures(
            handle_data_abort,
            (vm, cpu, ram, esr_el2, hpfar_el2, far_el2, registers),
            result,
        ),
        has_guest_devices(*old(vm)),
        is_trapped(esr_el2, true),
        0xA00_0200 <= trapped_address(hpfar_el2, far_el2) < 0xA00_0400,
    ensures
        result == Ok::<AbortOutcome, AbortError>(AbortOutcome::NetTx) <==> trapped_address(
            hpfar_el2,
            far_el2,
        ) == 0xA00_0250 && trapped_value(esr_el2, old(registers)@) == 1,
        final(vm).gic_distributor_mmio@ == old(vm).gic_distributor_mmio@,
        final(vm).pl011_mmio@ == old(vm).pl011_mmio@,
{
    lemma_access(esr_el2, hpfar_el2, far_el2, old(registers)@);
    lemma_device(*old(vm), trapped_address(hpfar_el2, far_el2) as u64);
}

/// What arrives at the UART is read at 0 in the order of arrival, as long as no more than 256 bytes wait.
/// The flag register at 0x18 tells by bit 4 that nothing waits, and by bit 6 that no more fit.
pub proof fn uart_input_is_read_in_order(
    uart: &mut Pl011Mmio,
    width: u64,
    value: u64,
    flags: u64,
    flagged: &mut Pl011Mmio,
)
    requires
        old(uart).wf(),
        call_ensures(Pl011Mmio::read, (uart, 0, width), Ok(value)),
        *old(flagged) == *old(uart),
        call_ensures(Pl011Mmio::read, (flagged, 0x18, width), Ok(flags)),
    ensures
        old(uart)@.fifo.len() > 0 ==> value == old(uart)@.fifo[0] && final(uart)@.fifo == old(
            uart,
        )@.fifo.drop_first(),
        old(uart)@.fifo.len() == 0 ==> value == 0 && final(uart)@ == old(uart)@,
        flags / 16 % 2 == 1 <==> old(uart)@.fifo.len() == 0,
        flags / 64 % 2 == 1 <==> old(uart)@.fifo.len() == 256,
        final(flagged)@ == old(flagged)@,
{
}

/// A byte that arrives waits behind the others, unless 256 wait. The guest is interrupted where it has
/// bit 4 of its mask set; interrupt 33 is then pending.
pub proof fn uart_input_waits_and_interrupts(
    uart: &mut Pl011Mmio,
    data: u8,
    distributor: &mut GicDistributorMmio,
    cpu: &mut CpuInterface,
    c: int,
)
    requires
        old(uart).wf(),
        call_ensures(Pl011Mmio::push, (uart, data, distributor, cpu), ()),
        0 <= c < 8,
        old(distributor).own_target == 1u8 << (c as u8),
    ensures
        old(uart)@.fifo.len() < 256 ==> final(uart)@.fifo == old(uart)@.fifo.push(data),
        old(uart)@.fifo.len() == 256 ==> final(uart)@ == old(uart)@,
        ({
            let raised = old(uart)@.fifo.len() < 256 && old(uart).interrupt_mask & 0x10 != 0;
            &&& raised ==> final(distributor)@.is_pending(c, 33) && final(uart).raw_interrupt_status & 0x10 != 0
            &&& !raised ==> final(distributor)@ == old(distributor)@ && final(cpu)@ == old(cpu)@
                && final(uart).raw_interrupt_status == old(uart).raw_interrupt_status
        }),
        final(uart).interrupt_mask == old(uart).interrupt_mask,
        final(uart).control == old(uart).control,
{
    assert(old(distributor)@.valid());
    crate::laws::fields::lemma_target_bits(c as u8, c as u8, 0);
    crate::mmio::gicv2::triggered_interrupt_is_pending(
        old(distributor)@,
        old(cpu)@,
        33,
        None,
        old(distributor).own_target,
        0,
        false,
        c,
    );
    crate::laws::fields::lemma_receive_bit(old(uart).raw_interrupt_status);
}

/// The registers of the UART that hold what was written read back in 16 bits. The masked status at 0x40
/// is the raw one at 0x3C under the mask at 0x38, and a one written to 0x44 clears a bit of it.
pub proof fn uart_registers_read_back(
    uart: &mut Pl011Mmio,
    offset: usize,
    width: u64,
    value: u64,
    put_out: Option<u8>,
    reread: &mut Pl011Mmio,
    other: usize,
    read: u64,
    before: &mut Pl011Mmio,
    held: u64,
)
    requires
        old(uart).wf(),
        call_ensures(Pl011Mmio::write, (uart, offset, width, value), Ok(put_out)),
        *old(reread) == *final(uart),
        call_ensures(Pl011Mmio::read, (reread, other, width), Ok(read)),
        *old(before) == *old(uart),
        call_ensures(Pl011Mmio::read, (before, other, width), Ok(held)),
    ensures
        ({
            let holds = other == 0x20 || other == 0x24 || other == 0x28 || other == 0x2C || other
                == 0x30 || other == 0x34 || other == 0x38 || other == 0x48;
            &&& holds ==> read == if other == offset {
                value % 0x1_0000
            } else {
                held
            }
        }),
        put_out == if offset == 0 {
            Some((value % 256) as u8)
        } else {
            None
        },
        other == 0x40 ==> read == (final(uart).raw_interrupt_status & final(uart).interrupt_mask) as u64,
        other == 0x3C ==> read == final(uart).raw_interrupt_status,
        final(uart).raw_interrupt_status == if offset == 0x44 {
            old(uart).raw_interrupt_status & !((value % 0x1_0000) as u16)
        } else {
            old(uart).raw_interrupt_status
        },
        final(uart)@.fifo == old(uart)@.fifo,
{
    lemma_low_byte(value);
}

/// The UART identifies itself as a PL011.
pub proof fn uart_identifies_itself(uart: &mut Pl011Mmio, offset: usize, width: u64, value: u64)
    requires
        old(uart).wf(),
        call_ensures(Pl011Mmio::read, (uart, offset, width), Ok(value)),
    ensures
        offset == 0xFE0 ==> value == 0x11,
        offset == 0xFE4 ==> value == 0x10,
        offset == 0xFE8 ==> value == 0x34,
        offset == 0xFEC ==> value == 0,
        offset == 0xFF0 ==> value == 0x0D,
        offset == 0xFF4 ==> value == 0xF0,
        offset == 0xFF8 ==> value == 0x05,
        offset == 0xFFC ==> value == 0xB1,
{
}

} // verus!
