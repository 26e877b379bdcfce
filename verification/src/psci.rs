//! Power State Coordination Interface.

use vstd::prelude::*;

verus! {

pub const PSCI_VERSION: u64 = 0x8400_0000;

pub const PSCI_SYSTEM_OFF: u64 = 0x8400_0008;

pub const PSCI_SYSTEM_RESET: u64 = 0x8400_0009;

/// PSCI CPU_ON function ID (SMC64 variant). Also the function ID that a guest kernel issues to
/// this hypervisor to bring up an additional vCPU.
pub const PSCI_CPU_ON: u64 = 0xC400_0003;

/// PSCI CPU_OFF function ID, shared by the SMC32 and SMC64 calling conventions. Also the function
/// ID that a guest kernel issues to this hypervisor to retire one of its own vCPUs.
pub const PSCI_CPU_OFF: u64 = 0x8400_0002;

#[derive(Copy, Clone, Eq, PartialEq, Debug, Structural)]
pub enum PsciErrorCodes {
    Success,
    NotSupported,
    InvalidParameters,
    Denied,
    AlreadyOn,
    OnPending,
    InternalFailure,
    NotPresent,
    Disabled,
    InvalidAddress,
    Unknown,
}

/// A PSCI result is a signed 32-bit number: the low half of the register, where
/// `0x1_0000_0000 - n` stands for `-n`.
pub open spec fn error_code(value: u64) -> PsciErrorCodes {
    let low = value % 0x1_0000_0000;
    if low == 0 {
        PsciErrorCodes::Success
    } else if low == 0xFFFF_FFFF {
        PsciErrorCodes::NotSupported
    } else if low == 0xFFFF_FFFE {
        PsciErrorCodes::InvalidParameters
    } else if low == 0xFFFF_FFFD {
        PsciErrorCodes::Denied
    } else if low == 0xFFFF_FFFC {
        PsciErrorCodes::AlreadyOn
    } else if low == 0xFFFF_FFFB {
        PsciErrorCodes::OnPending
    } else if low == 0xFFFF_FFFA {
        PsciErrorCodes::InternalFailure
    } else if low == 0xFFFF_FFF9 {
        PsciErrorCodes::NotPresent
    } else if low == 0xFFFF_FFF8 {
        PsciErrorCodes::Disabled
    } else if low == 0xFFFF_FFF7 {
        PsciErrorCodes::InvalidAddress
    } else {
        PsciErrorCodes::Unknown
    }
}

impl From<u64> for PsciErrorCodes {
    fn from(value: u64) -> (code: Self) {
        let low: u64 = value % 0x1_0000_0000;
        match low {
            0 => Self::Success,
            0xFFFF_FFFF => Self::NotSupported,
            0xFFFF_FFFE => Self::InvalidParameters,
            0xFFFF_FFFD => Self::Denied,
            0xFFFF_FFFC => Self::AlreadyOn,
            0xFFFF_FFFB => Self::OnPending,
            0xFFFF_FFFA => Self::InternalFailure,
            0xFFFF_FFF9 => Self::NotPresent,
            0xFFFF_FFF8 => Self::Disabled,
            0xFFFF_FFF7 => Self::InvalidAddress,
            _ => Self::Unknown,
        }
    }
}

impl vstd::std_specs::convert::FromSpecImpl<u64> for PsciErrorCodes {
    open spec fn obeys_from_spec() -> bool {
        true
    }

    open spec fn from_spec(value: u64) -> Self {
        error_code(value)
    }
}

/// The major and minor version in the result of a PSCI_VERSION call.
pub fn check_psci_version(version: u64) -> (result: Result<(u16, u16), PsciErrorCodes>)
    ensures
        match result {
            Ok((major, minor)) => {
                &&& version % 0x1_0000_0000 != 0xFFFF_FFFF
                &&& major == (version / 0x1_0000) % 0x1_0000
                &&& minor == version % 0x1_0000
            },
            Err(error) => {
                &&& version % 0x1_0000_0000 == 0xFFFF_FFFF
                &&& error == PsciErrorCodes::NotSupported
            },
        },
{
    if version % 0x1_0000_0000 == 0xFFFF_FFFF {
        return Err(PsciErrorCodes::NotSupported);
    }
    let major_version: u16 = ((version / 0x1_0000) % 0x1_0000) as u16;
    let minor_version: u16 = (version % 0x1_0000) as u16;
    Ok((major_version, minor_version))
}

/// The function ID and arguments of a CPU_ON call.
pub fn cpu_on_call(target_cpu: u64, entry_point: u64, argument: u64) -> (call: [u64; 4])
    ensures
        call@ == seq![0xC400_0003u64, target_cpu, entry_point, argument],
{
    let call: [u64; 4] = [PSCI_CPU_ON, target_cpu, entry_point, argument];
    assert(call@ =~= seq![0xC400_0003u64, target_cpu, entry_point, argument]);
    call
}

/// Whether a CPU_ON call that returned `result` succeeded.
pub fn cpu_on(result: u64) -> (outcome: Result<(), PsciErrorCodes>)
    ensures
        match outcome {
            Ok(()) => error_code(result) == PsciErrorCodes::Success,
            Err(error) => error == error_code(result) && error != PsciErrorCodes::Success,
        },
{
    let error_code: PsciErrorCodes = PsciErrorCodes::from(result);
    if error_code == PsciErrorCodes::Success {
        Ok(())
    } else {
        Err(error_code)
    }
}

} // verus!
