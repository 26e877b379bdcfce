//! Guest virtual to physical RAM address translation.

use vstd::prelude::*;

verus! {

/// Translates `virtual_address` (an address within the guest's own identity or kernel virtual
/// mapping of its RAM) into the corresponding hypervisor-physical address, given that guest's
/// RAM window (`ram_virtual_base_address`, `ram_physical_base_address`, `ram_size`).
///
/// Returns `None` when `virtual_address` falls outside that guest's RAM window (e.g. it points at
/// an MMIO region instead). This is not the same as a physical address that happens to be `0`.
pub fn translate_guest_physical_address(
    virtual_address: usize,
    ram_virtual_base_address: usize,
    ram_physical_base_address: usize,
    ram_size: usize,
) -> (physical_address: Option<usize>)
    requires
        ram_virtual_base_address + ram_size <= usize::MAX,
        ram_virtual_base_address <= virtual_address < ram_virtual_base_address + ram_size
            ==> virtual_address - ram_virtual_base_address + ram_physical_base_address
            <= usize::MAX,
    ensures
        match physical_address {
            Some(address) => {
                &&& ram_virtual_base_address <= virtual_address < ram_virtual_base_address
                    + ram_size
                &&& address == virtual_address - ram_virtual_base_address
                    + ram_physical_base_address
            },
            None => !(ram_virtual_base_address <= virtual_address < ram_virtual_base_address
                + ram_size),
        },
{
    if ram_virtual_base_address <= virtual_address && virtual_address < ram_virtual_base_address
        + ram_size {
        Some(virtual_address - ram_virtual_base_address + ram_physical_base_address)
    } else {
        None
    }
}

} // verus!
