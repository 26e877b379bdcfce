//! GICv2 GICH_LR (List Register) bit packing.

use vstd::prelude::*;

verus! {

/* Fields (32-bit) of the GICv2 GICH_LR (List Register) */
pub const GICH_LR_VIRTUAL_ID: u32 = 0x3FF;

pub const GICH_LR_PHYSICAL_ID_OFFSET: u32 = 10;

pub const GICH_LR_PHYSICAL_ID: u32 = 0x000F_FC00;

pub const GICH_LR_EOI: u32 = 0x0008_0000;

pub const GICH_LR_PRIORITY_OFFSET: u32 = 23;

pub const GICH_LR_STATE_PENDING: u32 = 0x1000_0000;

pub const GICH_LR_GROUP1_OFFSET: u32 = 30;

pub const GICH_LR_HW: u32 = 0x8000_0000;

/// The List Register value of a pending interrupt. Where the interrupt stands for a physical one,
/// the register names it, and the guest's deactivation deactivates that one too; otherwise the
/// end of the interrupt is signalled to the hypervisor.
pub open spec fn list_register_entry(
    int_id: u32,
    group: u32,
    priority: u32,
    physical_int_id: Option<u32>,
) -> u32 {
    let common = 0x1000_0000u32 | (group << 30u32) | (((priority >> 3u32) & 0x1F) << 23u32) | (
    int_id & 0x3FF);
    match physical_int_id {
        Some(p) => common | (0x8000_0000u32 | ((p << 10u32) & 0x000F_FC00)),
        None => common | 0x0008_0000u32,
    }
}

pub fn create_list_register_entry(
    int_id: u32,
    group: u32,
    priority: u32,
    physical_int_id: Option<u32>,
) -> (entry: u32)
    ensures
        entry == list_register_entry(int_id, group, priority, physical_int_id),
{
    let entry: u32 = GICH_LR_STATE_PENDING | (group << GICH_LR_GROUP1_OFFSET) | (((priority >> 3u32)
        & 0x1F) << GICH_LR_PRIORITY_OFFSET) | (int_id & GICH_LR_VIRTUAL_ID);
    if let Some(p_int_id) = physical_int_id {
        entry | (GICH_LR_HW | ((p_int_id << GICH_LR_PHYSICAL_ID_OFFSET) & GICH_LR_PHYSICAL_ID))
    } else {
        entry | GICH_LR_EOI
    }
}

/// What each field of a List Register value holds: the low ten bits of the virtual INTID, the
/// pending state, the top five of the eight bits of the priority, the group, and either the
/// HW bit with the physical INTID or the EOI bit.
pub proof fn list_register_fields(
    int_id: u32,
    group: u32,
    priority: u32,
    physical_int_id: Option<u32>,
)
    requires
        group <= 1,
    ensures
        ({
            let entry = list_register_entry(int_id, group, priority, physical_int_id);
            &&& entry & 0x3FF == int_id & 0x3FF
            &&& (entry >> 28u32) & 3 == 1
            &&& (entry >> 23u32) & 0x1F == (priority >> 3u32) & 0x1F
            &&& (entry >> 30u32) & 1 == group
            &&& match physical_int_id {
                Some(p) => entry >> 31u32 == 1 && (entry >> 10u32) & 0x3FF == p & 0x3FF,
                None => entry >> 31u32 == 0 && (entry >> 19u32) & 1 == 1 && (entry >> 10u32) & 0x1FF
                    == 0,
            }
        }),
{
    let p = match physical_int_id {
        Some(p) => p,
        None => 0,
    };
    let common = 0x1000_0000u32 | (group << 30u32) | (((priority >> 3u32) & 0x1F) << 23u32) | (
    int_id & 0x3FF);
    let hardware = common | (0x8000_0000u32 | ((p << 10u32) & 0x000F_FC00));
    let software = common | 0x0008_0000u32;
    assert({
        &&& hardware & 0x3FF == int_id & 0x3FF
        &&& software & 0x3FF == int_id & 0x3FF
        &&& (hardware >> 28u32) & 3 == 1
        &&& (software >> 28u32) & 3 == 1
        &&& (hardware >> 23u32) & 0x1F == (priority >> 3u32) & 0x1F
        &&& (software >> 23u32) & 0x1F == (priority >> 3u32) & 0x1F
        &&& (hardware >> 30u32) & 1 == group
        &&& (software >> 30u32) & 1 == group
        &&& hardware >> 31u32 == 1
        &&& (hardware >> 10u32) & 0x3FF == p & 0x3FF
        &&& software >> 31u32 == 0
        &&& (software >> 19u32) & 1 == 1
        &&& (software >> 10u32) & 0x1FF == 0
    }) by (bit_vector)
        requires
            group <= 1,
            common == 0x1000_0000u32 | (group << 30u32) | (((priority >> 3u32) & 0x1F) << 23u32) | (
            int_id & 0x3FF),
            hardware == common | (0x8000_0000u32 | ((p << 10u32) & 0x000F_FC00)),
            software == common | 0x0008_0000u32,
    ;
}

} // verus!
