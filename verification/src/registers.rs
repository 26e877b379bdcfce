//! Fields of the system registers.

use vstd::prelude::*;

verus! {

/* HCR_EL2 */
pub const HCR_EL2_API: u64 = 0x0200_0000_0000;

pub const HCR_EL2_RW: u64 = 0x8000_0000;

/// Trap guest (EL1/EL0) WFI to EL2: while the guest idles it executes WFI, which gives a reliable
/// hook to poll the physical UART.
pub const HCR_EL2_TWI: u64 = 0x2000;

pub const HCR_EL2_AMO: u64 = 0x20;

pub const HCR_EL2_IMO: u64 = 0x10;

pub const HCR_EL2_FMO: u64 = 0x08;

pub const HCR_EL2_VM: u64 = 0x01;

/// Trap guest (EL1/EL0) SMC instructions to EL2 instead of EL3, so that the hypervisor can provide
/// CPU_ON for the guest's own vCPUs.
pub const HCR_EL2_TSC: u64 = 0x0008_0000;

/* SPSR_EL2 */
pub const SPSR_EL2_M_EL1H: u64 = 0x05;

/* VTTBR_EL2 */
pub const VTTBR_BADDR: u64 = 0x7FFF_FFFF_FFFE;

pub const VTTBR_VMID_BITS_OFFSET: u64 = 48;

/// 8-bit VMID field. It tags Stage 2 TLB entries, so that vCPUs with different Stage 2 tables can
/// share a physical CPU.
pub const VTTBR_VMID: u64 = 0x00FF_0000_0000_0000;

/* VTCR_EL2 */
pub const VTCR_EL2_RES1: u64 = 0x8000_0000;

pub const VTCR_EL2_PS_BITS_OFFSET: u64 = 16;

pub const VTCR_EL2_SH0_BITS_OFFSET: u64 = 12;

pub const VTCR_EL2_ORGN0_BITS_OFFSET: u64 = 10;

pub const VTCR_EL2_IRGN0_BITS_OFFSET: u64 = 8;

pub const VTCR_EL2_SL0_BITS_OFFSET: u64 = 6;

pub const VTCR_EL2_SL0: u64 = 0xC0;

pub const VTCR_EL2_T0SZ: u64 = 0x3F;

/* ID_AA64MMFR0_EL1 */
pub const ID_AA64MMFR0_EL1_PARANGE: u64 = 0x0F;

/* ESR_EL2 */
pub const ESR_EL2_EC_BITS_OFFSET: u64 = 26;

pub const ESR_EL2_EC: u64 = 0xFC00_0000;

pub const ESR_EL2_EC_DATA_ABORT: u64 = 0x9000_0000;

/// EC value for a trapped WFI/WFE instruction.
pub const ESR_EL2_EC_WFX: u64 = 0x0400_0000;

/// EC value for a trapped SMC instruction executed in AArch64 state.
pub const ESR_EL2_EC_SMC64: u64 = 0x5C00_0000;

pub const ESR_EL2_ISS_ISV: u64 = 0x0100_0000;

pub const ESR_EL2_ISS_SAS_BITS_OFFSET: u64 = 22;

pub const ESR_EL2_ISS_SAS: u64 = 0x00C0_0000;

pub const ESR_EL2_ISS_SRT_BITS_OFFSET: u64 = 16;

pub const ESR_EL2_ISS_SRT: u64 = 0x001F_0000;

pub const ESR_EL2_ISS_SF: u64 = 0x8000;

pub const ESR_EL2_ISS_WNR: u64 = 0x40;

/* HPFAR_EL2 */
pub const HPFAR_EL2_FIPA_BITS_OFFSET: u64 = 4;

pub const HPFAR_EL2_FIPA: u64 = 0x0FFF_FFFF_FFF0;

} // verus!
