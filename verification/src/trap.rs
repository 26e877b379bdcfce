//! Accesses of a guest that trap because there is no memory.

use crate::exception::{data_abort_handler, MmioAccess, Registers};
use crate::guest_ram::{GuestRam, Ram};
use crate::vgic::{CpuInterface, CpuModel};
use crate::vm::{MmioNotice, MmioValue, VM};
use vstd::prelude::*;

verus! {

/// What is left to do for an access of a guest, before it goes on behind the instruction.
#[derive(Clone, Copy, PartialEq, Eq, Debug, Structural)]
pub enum AbortOutcome {
    Done,
    /// This byte goes out through the UART.
    Output(u8),
    /// The guest has frames to send.
    NetTx,
    /// The Virtio-Blk device is read at this offset, and the value goes to the register.
    BlockRead { offset: usize, access: MmioAccess },
    /// The Virtio-Blk device is written at this offset.
    BlockWrite { offset: usize, access_width: u64, value: u64 },
}

/// Why an access of a guest cannot be handled.
#[derive(Clone, Copy, PartialEq, Eq, Debug, Structural)]
pub enum AbortError {
    /// The syndrome does not describe the access.
    NoSyndrome,
    Read(MmioAccess),
    Write { access: MmioAccess, value: u64 },
}

/// The value that an access stores.
pub open spec fn stored_value(access: MmioAccess, registers: Seq<u64>) -> u64 {
    if access.is_64bit_register {
        registers[access.register_number as int]
    } else {
        registers[access.register_number as int] & 0xFFFF_FFFF
    }
}

/// What comes of an access of a guest.
pub open spec fn abort_outcome(
    vm: VM,
    cpu: CpuModel,
    ram: Ram,
    access: MmioAccess,
    registers: Seq<u64>,
) -> Result<AbortOutcome, AbortError> {
    if access.is_write_access {
        let value = stored_value(access, registers);
        match vm.write_result(cpu, ram, access.address, access.access_width, value) {
            Ok(MmioNotice::Done) => Ok(AbortOutcome::Done),
            Ok(MmioNotice::Output(byte)) => Ok(AbortOutcome::Output(byte)),
            Ok(MmioNotice::NetTx) => Ok(AbortOutcome::NetTx),
            Ok(MmioNotice::Block(offset)) => Ok(
                AbortOutcome::BlockWrite { offset, access_width: access.access_width, value },
            ),
            Err(()) => Err(AbortError::Write { access, value }),
        }
    } else {
        match vm.read_result(cpu, access.address, access.access_width) {
            Ok(MmioValue::Value(_)) => Ok(AbortOutcome::Done),
            Ok(MmioValue::Block(offset)) => Ok(AbortOutcome::BlockRead { offset, access }),
            Err(()) => Err(AbortError::Read(access)),
        }
    }
}

/// Handles a data abort: finds the device that the guest accessed and makes the access.
pub fn handle_data_abort(
    vm: &mut VM,
    cpu: &mut CpuInterface,
    ram: &GuestRam,
    esr_el2: u64,
    hpfar_el2: u64,
    far_el2: u64,
    registers: &mut Registers,
) -> (result: Result<AbortOutcome, AbortError>)
    requires
        old(vm).wf(),
        ram@.valid(),
    ensures
        final(vm).wf(),
        ({
            let access = crate::exception::mmio_access(esr_el2, hpfar_el2, far_el2);
            if esr_el2 & 0x0100_0000 == 0 {
                &&& result == Err::<AbortOutcome, AbortError>(AbortError::NoSyndrome)
                &&& *final(vm) == *old(vm)
                &&& final(cpu)@ == old(cpu)@
                &&& final(registers)@ == old(registers)@
            } else {
                &&& result == abort_outcome(*old(vm), old(cpu)@, ram@, access, old(registers)@)
                &&& if access.is_write_access {
                    &&& old(vm).is_written(
                        *final(vm),
                        old(cpu)@,
                        final(cpu)@,
                        ram@,
                        access.address,
                        access.access_width,
                        stored_value(access, old(registers)@),
                    )
                    &&& final(registers)@ == old(registers)@
                } else {
                    &&& old(vm).is_read(*final(vm), access.address)
                    &&& final(cpu)@ == old(cpu)@
                    &&& final(registers)@ == match old(vm).read_result(
                        old(cpu)@,
                        access.address,
                        access.access_width,
                    ) {
                        Ok(MmioValue::Value(value)) => old(registers)@.update(
                            access.register_number as int,
                            value,
                        ),
                        _ => old(registers)@,
                    }
                }
            }
        }),
{
    let access: MmioAccess = match data_abort_handler(esr_el2, hpfar_el2, far_el2) {
        Some(access) => access,
        None => {
            return Err(AbortError::NoSyndrome);
        },
    };
    if access.is_write_access {
        let value: u64 = access.written_value(registers);
        match vm.handle_mmio_write(cpu, ram, access.address, access.access_width, value) {
            Ok(MmioNotice::Done) => Ok(AbortOutcome::Done),
            Ok(MmioNotice::Output(byte)) => Ok(AbortOutcome::Output(byte)),
            Ok(MmioNotice::NetTx) => Ok(AbortOutcome::NetTx),
            Ok(MmioNotice::Block(offset)) => Ok(
                AbortOutcome::BlockWrite { offset, access_width: access.access_width, value },
            ),
            Err(()) => Err(AbortError::Write { access, value }),
        }
    } else {
        match vm.handle_mmio_read(cpu, access.address, access.access_width) {
            Ok(MmioValue::Value(value)) => {
                access.load_value(registers, value);
                Ok(AbortOutcome::Done)
            },
            Ok(MmioValue::Block(offset)) => Ok(AbortOutcome::BlockRead { offset, access }),
            Err(()) => Err(AbortError::Read(access)),
        }
    }
}

} // verus!
