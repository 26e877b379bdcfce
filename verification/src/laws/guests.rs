//! Setting up guests, their memory and their CPUs.

use crate::bits::le_number;
use crate::cpu::{
    get_currentel, get_daif_and_disable_irq_fiq, get_dcache_line_size, get_icache_line_size,
    CacheLines,
};
use crate::guest::{
    activate_vm_on_this_pcpu, add_vm, boot_vm, disk_file_name, kernel_entry, kernel_placement,
    setup_hypervisor_registers, Added, HypervisorRegisters, KernelError,
};
use crate::lock::{Mutex, MutexGuard};
use crate::paging::{
    activate_stage2_translation_table, needs_tlb_flush, number_of_concatenated_page_tables,
    set_vtcr_el2_for_this_pcpu, Descriptor, Shareability,
};
use crate::vm::VM;
use crate::vm_list::VmList;
use vstd::prelude::*;

verus! {

/// A kernel image has its magic number, ARM\\x64, at byte 56. It starts as far behind its address as the
/// eight bytes from 8 on say, or 512 KiB where it states no size in the eight bytes from 16 on.
pub proof fn kernel_starts_behind_its_offset(
    header: &[u8],
    address: u64,
    entry: Result<u64, KernelError>,
)
    requires
        call_ensures(kernel_entry, (header, address), entry),
    ensures
        header@.len() < 64 ==> entry == Err::<u64, KernelError>(KernelError::Header),
        header@.len() >= 64 ==> {
            let magic = header@[56] == 0x41 && header@[57] == 0x52 && header@[58] == 0x4D
                && header@[59] == 0x64;
            let offset = if le_number(header@, 16, 8) == 0 {
                0x8_0000
            } else {
                le_number(header@, 8, 8)
            };
            &&& !magic ==> entry == Err::<u64, KernelError>(
                KernelError::Magic(
                    (header@[56] + 0x100 * header@[57] + 0x1_0000 * header@[58] + 0x100_0000
                        * header@[59]) as u32,
                ),
            )
            &&& magic && address + offset <= u64::MAX ==> entry == Ok::<u64, KernelError>(
                (address + offset) as u64,
            )
            &&& magic && address + offset > u64::MAX ==> entry == Err::<u64, KernelError>(
                KernelError::Entry,
            )
        },
{
    crate::laws::virtio::numbers_are_little_endian(header@, 56);
}

/// The kernel is at the first multiple of 2 MiB that is not in front of the end of the devicetree, which is at
/// the start of the guest's memory.
pub proof fn kernel_is_behind_the_devicetree(
    vm: &VM,
    dtb_size: u64,
    placement: Option<(u64, u64)>,
)
    requires
        vm.wf(),
        call_ensures(kernel_placement, (vm, dtb_size), placement),
    ensures
        placement matches Some((virtual_address, physical_address)) ==> {
            &&& virtual_address as int % 0x20_0000 == 0
            &&& virtual_address >= 0x4000_0000 + dtb_size
            &&& virtual_address - 0x20_0000 < 0x4000_0000 + dtb_size
            &&& vm.ram_virtual_base_address <= virtual_address < vm.ram_virtual_base_address
                + vm.ram_size
            &&& physical_address - vm.ram_physical_base_address == virtual_address
                - vm.ram_virtual_base_address
        },
        vm.ram_virtual_base_address == 0x4000_0000 && dtb_size + 0x20_0000 <= vm.ram_size
            ==> placement is Some,
{
}

/// The memory of a guest is where its physical memory is, byte for byte, and nowhere else.
pub proof fn guest_memory_is_contiguous(vm: &VM, virtual_address: u64, address: Option<u64>)
    requires
        vm.wf(),
        call_ensures(VM::get_physical_address, (vm, virtual_address), address),
    ensures
        address is Some <==> vm.ram_virtual_base_address <= virtual_address
            < vm.ram_virtual_base_address + vm.ram_size,
        address matches Some(physical) ==> physical - vm.ram_physical_base_address == virtual_address
            - vm.ram_virtual_base_address,
{
}

/// A guest is put behind the others. It starts at its entry point in EL1 with the address of its devicetree,
/// at once where it is the first on its CPU, which then has the input.
pub proof fn added_guest_starts_at_its_entry(
    list: &mut VmList,
    vm: VM,
    entry_point: u64,
    added: Added,
)
    requires
        old(list).wf(),
        vm.wf(),
        vm.vm_id < old(list).next_vm_id,
        old(list).place_of(vm.vm_id as int) is None,
        call_ensures(add_vm, (list, vm, entry_point), added),
    ensures
        ({
            let n = old(list).vms@.len() as int;
            let alone = forall|i: int|
                0 <= i < n ==> (#[trigger] old(list).vms@[i]).owner_affinity != vm.owner_affinity;
            &&& final(list).vms@.len() == n + 1
            &&& final(list).vms@[n].vm_id == vm.vm_id
            &&& final(list).vms@[n].context.elr_el2 == entry_point
            &&& final(list).vms@[n].context.regs@[0] == 0x4000_0000
            &&& final(list).vms@[n].context.spsr_el2 == 5
            &&& forall|i: int| 0 <= i < n ==> #[trigger] final(list).vms@[i] == old(list).vms@[i]
            &&& added is Running <==> alone
            &&& final(list).active == if alone {
                Some(n as usize)
            } else {
                old(list).active
            }
            &&& added matches Added::Running { tpidr_el2, .. } ==> tpidr_el2 == vm.vm_id
        }),
{
    let n = old(list).vms@.len() as int;
    assert(final(list).vms@[n].same_but_context(vm));
}

/// A vCPU starts in EL1 with interrupts unmasked, at its entry point, with its argument in x0.
pub proof fn vcpu_starts_in_el1(entry_point: u64, argument: u64, state: (u64, u64, u64))
    requires
        call_ensures(boot_vm, (entry_point, argument), state),
    ensures
        state.0 == 5,
        state.1 == entry_point,
        state.2 == argument,
{
}

/// A guest sees the CPU as it is. Bit 0 has its memory translated, bits 3 to 5 have interrupts taken to EL2,
/// bit 13 traps WFI, bit 19 traps SMC, bit 31 has EL1 in AArch64, bit 41 leaves pointer authentication.
pub proof fn hypervisor_traps_what_it_handles(
    midr: u64,
    mpidr: u64,
    registers: HypervisorRegisters,
)
    requires
        call_ensures(setup_hypervisor_registers, (midr, mpidr), registers),
    ensures
        registers.vpidr_el2 == midr,
        registers.vmpidr_el2 == mpidr,
        registers.hcr_el2 == 0x1 + 0x8 + 0x10 + 0x20 + 0x2000 + 0x8_0000 + 0x8000_0000
            + 0x200_0000_0000,
{
}

/// The disk of guest `n` below 80 is DISK with the n-th character from 0 on.
pub proof fn disk_is_named_after_its_guest(vm_id: usize, name: Option<[u8; 5]>)
    requires
        call_ensures(disk_file_name, (vm_id,), name),
    ensures
        vm_id < 80 ==> (name matches Some(n) && n[0] == 0x44 && n[1] == 0x49 && n[2] == 0x53 && n[3]
            == 0x4B && n[4] == 0x30 + vm_id),
        80 <= vm_id < 256 ==> name is None,
{
}

/// The physical address range of a CPU in bits, by the field that states it.
pub open spec fn address_bits(parange: int) -> int {
    if parange == 0 {
        32
    } else if parange == 1 {
        36
    } else if parange == 2 {
        40
    } else if parange == 3 {
        42
    } else if parange == 4 {
        44
    } else {
        48
    }
}

proof fn lemma_vtcr(id: u64)
    ensures
        ({
            let vtcr = crate::paging::vtcr_of(id);
            let t0sz = crate::paging::stage2_parameters(id & 0xF).0;
            &&& id & 0xF == id % 16
            &&& vtcr % 64 == t0sz
            &&& vtcr / 64 % 4 == if crate::paging::stage2_parameters(id & 0xF).1 == 1 {
                1u64
            } else {
                2u64
            }
            &&& vtcr / 0x100 % 4 == 3
            &&& vtcr / 0x400 % 4 == 3
            &&& vtcr / 0x1000 % 4 == 3
            &&& vtcr / 0x4000 % 4 == 0
            &&& vtcr / 0x1_0000 % 16 == id % 16
            &&& vtcr / 0x10_0000 == 0x800
        }),
{
    let ps = id & 0xF;
    let t0sz = crate::paging::stage2_parameters(ps).0;
    let sl0 = if crate::paging::stage2_parameters(ps).1 == 1 {
        1u64
    } else {
        2u64
    };
    let vtcr = 0x8000_0000u64 | (ps << 16u64) | (3u64 << 12u64) | (3u64 << 10u64) | (3u64 << 8u64) | (
    sl0 << 6u64) | t0sz;
    assert({
        &&& id & 0xF == id % 16
        &&& vtcr % 64 == t0sz
        &&& vtcr / 64 % 4 == sl0
        &&& vtcr / 0x100 % 4 == 3
        &&& vtcr / 0x400 % 4 == 3
        &&& vtcr / 0x1000 % 4 == 3
        &&& vtcr / 0x4000 % 4 == 0
        &&& vtcr / 0x1_0000 % 16 == id % 16
        &&& vtcr / 0x10_0000 == 0x800
    }) by (bit_vector)
        requires
            ps == id & 0xF,
            t0sz < 64,
            sl0 < 4,
            vtcr == 0x8000_0000u64 | (ps << 16u64) | (3u64 << 12u64) | (3u64 << 10u64) | (3u64
                << 8u64) | (sl0 << 6u64) | t0sz,
    ;
}

/// The translation of a guest's addresses covers as many bits as the CPU has physical ones. Tables are walked
/// through caches that are shared, in pages of 4 KiB, from level 1 on up to 42 bits and from level 0 on above.
pub proof fn translation_covers_the_physical_addresses(id: u64, vtcr: u64)
    requires
        call_ensures(set_vtcr_el2_for_this_pcpu, (id,), vtcr),
    ensures
        ({
            let bits = address_bits(id as int % 16);
            &&& vtcr as int % 64 == 64 - bits
            &&& vtcr as int / 64 % 4 == if bits <= 42 {
                1int
            } else {
                2int
            }
            &&& vtcr as int / 0x100 % 4 == 3
            &&& vtcr as int / 0x400 % 4 == 3
            &&& vtcr as int / 0x1000 % 4 == 3
            &&& vtcr as int / 0x4000 % 4 == 0
            &&& vtcr as int / 0x1_0000 % 16 == id as int % 16
            &&& vtcr as int / 0x10_0000 == 0x800
        }),
{
    lemma_vtcr(id);
}

/// The tables that a translation starts with side by side are as many as the bits need that one table of 512
/// entries at this level does not resolve.
pub proof fn tables_side_by_side_resolve_the_rest(t0sz: u8, first_level: i8, number: u64)
    requires
        -1 <= first_level <= 3,
        t0sz < 64,
        call_ensures(number_of_concatenated_page_tables, (t0sz, first_level), number),
    ensures
        ({
            let resolved = 12 + 9 * (4 - first_level);
            &&& 64 - t0sz <= resolved ==> number == 1
            &&& 64 - t0sz > resolved ==> number == vstd::arithmetic::power2::pow2(
                (64 - t0sz - resolved) as nat,
            )
        }),
{
    vstd::arithmetic::power2::lemma2_to64();
}

/// A CPU that joins a guest has the guest's translation, tagged by the guest's number, and knows which guest
/// it is.
pub proof fn joining_cpu_has_the_translation(
    vm: &VM,
    id: u64,
    registers: (u64, u64, u64),
    vtcr: u64,
    vttbr: u64,
    other_table: u64,
    flush: bool,
)
    requires
        vm.vmid <= 0xFF,
        vm.stage2_table.address & 0x7FFF_FFFF_FFFE == vm.stage2_table.address,
        call_ensures(activate_vm_on_this_pcpu, (vm, id), registers),
        call_ensures(set_vtcr_el2_for_this_pcpu, (id,), vtcr),
        call_ensures(
            activate_stage2_translation_table,
            (vm.stage2_table.address, vm.vmid),
            vttbr,
        ),
        call_ensures(needs_tlb_flush, (other_table, vttbr), flush),
    ensures
        registers == (vtcr, vttbr, vm.vm_id as u64),
        vttbr >> 48u64 == vm.vmid,
        vttbr & 0x7FFF_FFFF_FFFE == vm.stage2_table.address,
        flush <==> other_table == vm.stage2_table.address,
{
    crate::paging::vttbr_fields(vm.stage2_table.address, vm.vmid);
}

/// A descriptor that maps memory names it, with the permission in bits 6 and 7, the attribute in bits 2 to 5,
/// inner shareable in bits 8 and 9 and accessed in bit 10. At level 3 it is a page, above it a block.
pub proof fn descriptor_maps_its_memory(
    address: u64,
    permission: u64,
    is_device: bool,
    level: u8,
    descriptor: Descriptor,
    table: bool,
    next: u64,
)
    requires
        address & 0x0003_FFFF_FFFF_F000 == address,
        permission <= 3,
        call_ensures(
            Descriptor::create_leaf,
            (address, permission, is_device, level),
            descriptor,
        ),
        call_ensures(Descriptor::is_table_descriptor, (&descriptor,), table),
        call_ensures(Descriptor::get_next_level_table_address, (&descriptor,), next),
    ensures
        next == address,
        descriptor.0 & 0x0003_FFFF_FFFF_F000 == address,
        (descriptor.0 >> 6u64) & 3 == permission,
        (descriptor.0 >> 2u64) & 0xF == (if is_device {
            0u64
        } else {
            0xFu64
        }),
        (descriptor.0 >> 8u64) & 3 == 3,
        (descriptor.0 >> 10u64) & 1 == 1,
        table <==> level == 3,
        level != 3 ==> descriptor.0 & 3 == 1,
{
    crate::paging::leaf_fields(address, permission, is_device, level as int);
}

/// The shareability of a descriptor is in bits 8 and 9, and nothing else changes.
pub proof fn shareability_is_set(descriptor: &mut Descriptor, shareability: Shareability)
    requires
        call_ensures(Descriptor::set_shareability, (descriptor, shareability), ()),
    ensures
        (final(descriptor).0 >> 8u64) & 3 == match shareability {
            Shareability::NonShareable => 0u64,
            Shareability::OuterShareable => 2u64,
            Shareability::InnerShareable => 3u64,
        },
        final(descriptor).0 & !0x300u64 == old(descriptor).0 & !0x300u64,
{
    let before = old(descriptor).0;
    let s = match shareability {
        Shareability::NonShareable => 0u64,
        Shareability::OuterShareable => 2u64,
        Shareability::InnerShareable => 3u64,
    };
    assert({
        let after = (before & !0x300u64) | (s << 8u64);
        (after >> 8u64) & 3 == s && after & !0x300u64 == before & !0x300u64
    }) by (bit_vector)
        requires
            s <= 3,
    ;
}

/// The exception level is in bits 2 and 3, and a line of the data cache has two to the power of bits 16 to 19
/// words, one of the instruction cache two to the power of the lowest four bits.
pub proof fn cpu_registers_are_read(
    currentel: u64,
    level: u64,
    ctr: u64,
    data: u64,
    instruction: u64,
)
    requires
        currentel < 16,
        currentel % 4 == 0,
        call_ensures(get_currentel, (currentel,), level),
        call_ensures(get_dcache_line_size, (ctr,), data),
        call_ensures(get_icache_line_size, (ctr,), instruction),
    ensures
        currentel == 4 * level,
        data == 4 * vstd::arithmetic::power2::pow2((ctr as int / 0x1_0000 % 16) as nat),
        instruction == 4 * vstd::arithmetic::power2::pow2((ctr as int % 16) as nat),
{
}

/// IRQ and FIQ are masked, and what was masked before stays so.
pub proof fn interrupts_are_masked(daif: u64, masked: u64)
    requires
        call_ensures(get_daif_and_disable_irq_fiq, (daif,), masked),
    ensures
        (masked >> 6u64) & 1 == 1,
        (masked >> 7u64) & 1 == 1,
        masked & !0xC0u64 == daif & !0xC0u64,
{
    assert({
        let after = daif | 0xC0;
        (after >> 6u64) & 1 == 1 && (after >> 7u64) & 1 == 1 && after & !0xC0u64 == daif & !0xC0u64
    }) by (bit_vector);
}

/// The first cache line of a range is the one that its first byte is in. Each is followed by the next one, as
/// long as that starts inside the range.
pub proof fn cache_lines_follow_each_other(
    address: u64,
    size: u64,
    line_size: u64,
    lines: CacheLines,
    left: &mut CacheLines,
    first: Option<u64>,
)
    requires
        line_size > 0,
        size > 0,
        address + size <= u64::MAX,
        call_ensures(CacheLines::new, (address, size, line_size), lines),
        *old(left) == lines,
        call_ensures(CacheLines::next_line, (left,), first),
    ensures
        first is Some,
        first->0 as int % line_size as int == 0,
        first->0 <= address < first->0 + line_size,
        final(left).line is Some <==> first->0 + line_size < address + size,
        final(left).line matches Some(line) ==> line == first->0 + line_size,
{
    let a = address as int;
    let l = line_size as int;
    vstd::arithmetic::div_mod::lemma_mod_bound(a, l);
    vstd::arithmetic::div_mod::lemma_mod_decreases(address as nat, line_size as nat);
}

/// Every ticket is drawn once, and the lock goes from each to the next one. Only the ticket that is served gets
/// the lock, and it gets its interrupt mask back.
pub proof fn lock_goes_from_ticket_to_ticket(
    mutex: &mut Mutex<u64>,
    ticket: u32,
    served: &mut Mutex<u64>,
    guard: Option<MutexGuard>,
    daif: u64,
    held: MutexGuard,
    restored: u64,
)
    requires
        call_ensures(Mutex::<u64>::draw_ticket, (mutex,), ticket),
        call_ensures(Mutex::<u64>::lock, (&*old(served), ticket, daif), guard),
        call_ensures(Mutex::<u64>::release, (served, held), restored),
    ensures
        ticket == old(mutex).next_ticket,
        old(mutex).next_ticket < u32::MAX ==> final(mutex).next_ticket == ticket + 1,
        old(mutex).next_ticket == u32::MAX ==> final(mutex).next_ticket == 0,
        final(mutex).now_serving == old(mutex).now_serving,
        guard is Some <==> old(served).now_serving == ticket,
        guard matches Some(g) ==> g.daif == daif && g.ticket == ticket,
        restored == held.daif,
        old(served).now_serving < u32::MAX ==> final(served).now_serving == old(served).now_serving
            + 1,
        old(served).now_serving == u32::MAX ==> final(served).now_serving == 0,
        final(served).next_ticket == old(served).next_ticket,
        final(served).data == old(served).data,
        final(mutex).data == old(mutex).data,
{
}

} // verus!
