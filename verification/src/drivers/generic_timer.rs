//! Arm Generic Timer.

use crate::device::RegisterOp;
use crate::drivers::gicv2::{GicDistributor, DTB_GIC_PPI, GIC_PPI_BASE};
use crate::mmio::gicv2::GicDistributorMmio;
use crate::vgic::CpuInterface;
use vstd::prelude::*;

verus! {

/// The INTID of the virtual timer, as the guest sees it.
pub const GENERIC_TIMER_VIRTUAL_INT_ID: u32 = 27;

/// The physical INTID of the virtual timer, from the cells of the timer node's `interrupts`
/// property: the third of its interrupts, where that is a PPI.
pub fn init_generic_timer_global(interrupts: &[u32]) -> (int_id: Option<u32>)
    requires
        interrupts@.len() >= 8,
        interrupts@[6] == 1 ==> interrupts@[7] <= u32::MAX - 16,
    ensures
        int_id == (if interrupts@[6] == 1 {
            Some((16 + interrupts@[7]) as u32)
        } else {
            None
        }),
{
    if interrupts[6] == DTB_GIC_PPI {
        Some(GIC_PPI_BASE + interrupts[7])
    } else {
        None
    }
}

/// Enables the timer interrupt on this CPU.
pub fn init_generic_timer_local(distributor: &GicDistributor, int_id: u32) -> (ops: Vec<RegisterOp>)
    requires
        distributor.reaches(int_id),
    ensures
        ops@ == crate::vgic::enabling_ops(distributor.base_address as int, int_id as int, true),
{
    crate::vgic::enable_interrupt(distributor, int_id, true)
}

/// Raises the virtual timer interrupt of the vCPU that runs on this CPU. The List Register names
/// the physical interrupt, so that the guest's deactivation deactivates it too.
///
/// Returns `false` when the interrupt was not injected; the physical interrupt then has to be
/// deactivated by the caller.
pub fn generic_timer_interrupt_handler(
    distributor: &mut GicDistributorMmio,
    cpu: &mut CpuInterface,
    physical_int_id: u32,
) -> (injected: bool)
    ensures
        (final(distributor)@, final(cpu)@, injected) == old(distributor)@.triggered(
            old(cpu)@,
            27,
            Some(physical_int_id),
            old(cpu).target,
            0,
            false,
        ),
{
    let target: u8 = cpu.target;
    distributor.trigger_interrupt_to(
        cpu,
        GENERIC_TIMER_VIRTUAL_INT_ID,
        Some(physical_int_id),
        target,
    )
}

} // verus!
