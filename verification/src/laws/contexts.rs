//! What a vCPU has of its own: its registers, its identifiers, its memory and its queued interrupts.

use crate::exception::Registers;
use crate::guest::{create_vm, CreateError, HostCpu};
use crate::guest_memory::translate_guest_physical_address;
use crate::guest_ram::GuestRam;
use crate::memory_allocator::MemoryAllocator;
use crate::mmio::gicv2::{inject_interrupt_handler, GicDistributorMmio};
use crate::smp::SmpCpus;
use crate::vgic::{CpuInterface, CpuModel};
use crate::vm::{El1Context, VM};
use crate::vm_list::{
    get_active_vm, input_net_packet, switch_active_vm, switch_to_other_vcpu_on_retire, VcpuSwitch,
    VmList,
};
use vstd::prelude::*;

verus! {

/// A vCPU is resumed with what it had when it was saved.
pub proof fn saved_context_is_restored(
    vm: &mut VM,
    registers: &Registers,
    elr_el2: u64,
    spsr_el2: u64,
    gich_lr: [u32; 4],
    el1: El1Context,
    resumed: &VM,
    frame: &mut Registers,
    state: (u64, u64, [u32; 4], El1Context),
)
    requires
        call_ensures(VM::save_context, (vm, registers, elr_el2, spsr_el2, gich_lr, el1), ()),
        *resumed == *final(vm),
        call_ensures(VM::restore_context, (resumed, frame), state),
    ensures
        final(frame)@ == registers@,
        state == (elr_el2, spsr_el2, gich_lr, el1),
        final(vm).vm_id == old(vm).vm_id,
        final(vm).vmid == old(vm).vmid,
        final(vm).stage2_table == old(vm).stage2_table,
        final(vm).ram_physical_base_address == old(vm).ram_physical_base_address,
{
}

/// A vCPU starts at its entry point, in EL1 with the stack of EL1, with its argument in x0.
pub proof fn vcpu_starts_at_its_entry(
    vm: &mut VM,
    boot_entry_point: u64,
    boot_argument: u64,
    resumed: &VM,
    frame: &mut Registers,
    state: (u64, u64, [u32; 4], El1Context),
    r: int,
)
    requires
        call_ensures(VM::set_initial_context, (vm, boot_entry_point, boot_argument), ()),
        *resumed == *final(vm),
        call_ensures(VM::restore_context, (resumed, frame), state),
        1 <= r < 32,
    ensures
        final(frame)@[0] == boot_argument,
        final(frame)@[r] == old(vm).context.regs@[r],
        state.0 == boot_entry_point,
        state.1 == 5,
        state.2 == old(vm).context.gich_lr,
        state.3 == old(vm).context.el1,
{
}

/// VMIDs have eight bits, and two that follow one another differ.
pub proof fn vmids_come_in_turn(list: &mut VmList, vmid: u64, after: &mut VmList, next: u64)
    requires
        call_ensures(VmList::allocate_vmid, (list,), vmid),
        *old(after) == *final(list),
        call_ensures(VmList::allocate_vmid, (after,), next),
    ensures
        vmid <= 255,
        next == if vmid == 255 {
            0
        } else {
            vmid + 1
        },
        final(after).vms == old(list).vms,
        final(after).active == old(list).active,
        final(after).next_vm_id == old(list).next_vm_id,
{
    assert(usize::MAX == 0xFFFF_FFFF || usize::MAX == 0xFFFF_FFFF_FFFF_FFFF);
}

/// The vCPUs of a CPU start with the registers that the CPU had when it asked first, whatever another
/// vCPU has put into them since, and whichever other CPU has asked in between.
pub proof fn reset_registers_are_the_first_ones(
    list: &mut VmList,
    affinity: u64,
    current: El1Context,
    first: El1Context,
    between: &mut VmList,
    other: u64,
    others: El1Context,
    given: El1Context,
    later: &mut VmList,
    changed: El1Context,
    second: El1Context,
)
    requires
        call_ensures(VmList::reset_el1_context, (list, affinity, current), first),
        *old(between) == *final(list),
        call_ensures(VmList::reset_el1_context, (between, other, others), given),
        *old(later) == *final(between),
        call_ensures(VmList::reset_el1_context, (later, affinity, changed), second),
    ensures
        second == first,
        (forall|i: int|
            0 <= i < old(list).reset_el1@.len() ==> (#[trigger] old(list).reset_el1@[i]).0
                != affinity) ==> first == current,
        final(list).vms == old(list).vms,
        final(list).active == old(list).active,
{
    lemma_reset_found(old(list).reset_el1@, affinity, 0);
    lemma_reset_found(final(list).reset_el1@, affinity, 0);
    lemma_reset_found(final(between).reset_el1@, affinity, 0);
    lemma_reset_pushed(old(list).reset_el1@, affinity, affinity, current, 0);
    lemma_reset_pushed(old(between).reset_el1@, affinity, other, others, 0);
}

proof fn lemma_reset_found(contexts: Seq<(u64, El1Context)>, affinity: u64, i: int)
    requires
        0 <= i <= contexts.len(),
    ensures
        crate::vm_list::reset_from(contexts, affinity, i) is Some == exists|k: int|
            i <= k < contexts.len() && (#[trigger] contexts[k]).0 == affinity,
    decreases contexts.len() - i,
{
    if i < contexts.len() && contexts[i].0 != affinity {
        lemma_reset_found(contexts, affinity, i + 1);
    }
}

proof fn lemma_reset_pushed(
    contexts: Seq<(u64, El1Context)>,
    affinity: u64,
    other: u64,
    current: El1Context,
    i: int,
)
    requires
        0 <= i <= contexts.len(),
    ensures
        crate::vm_list::reset_from(contexts.push((other, current)), affinity, i) == match
            crate::vm_list::reset_from(contexts, affinity, i) {
            Some(found) => Some(found),
            None => if other == affinity {
                Some(current)
            } else {
                None
            },
        },
    decreases contexts.len() - i,
{
    let pushed = contexts.push((other, current));
    if i < contexts.len() {
        lemma_reset_pushed(contexts, affinity, other, current, i + 1);
    } else {
        assert(pushed[i] == (other, current));
        reveal_with_fuel(crate::vm_list::reset_from, 2);
    }
}

/// The UART input goes to the VM that it was last directed to.
pub proof fn active_vm_is_the_chosen_one(
    list: &mut VmList,
    vm_id: usize,
    switched: bool,
    after: &VmList,
    place: Option<usize>,
)
    requires
        old(list).wf(),
        call_ensures(switch_active_vm, (list, vm_id), switched),
        *after == *final(list),
        call_ensures(get_active_vm, (after,), place),
    ensures
        switched ==> (place matches Some(i) && i < after.vms@.len() && after.vms@[i as int].vm_id
            == vm_id),
        !switched ==> place == old(list).active,
{
    lemma_vm_found(old(list).vms@, vm_id as int, 0);
    assert(old(list).vms@.len() == old(list).vms.len());
}

proof fn lemma_vm_found(vms: Seq<VM>, vm_id: int, i: int)
    requires
        0 <= i <= vms.len(),
    ensures
        match crate::vm_list::vm_from(vms, vm_id, i) {
            Some(k) => i <= k < vms.len() && vms[k].vm_id == vm_id,
            None => forall|k: int| i <= k < vms.len() ==> (#[trigger] vms[k]).vm_id != vm_id,
        },
    decreases vms.len() - i,
{
    if i < vms.len() && vms[i].vm_id != vm_id {
        lemma_vm_found(vms, vm_id, i + 1);
    }
}

/// A frame goes to the VM that the CPU runs, and to no other: the others stay as they were.
pub proof fn frame_goes_to_the_running_vm(
    list: &mut VmList,
    tpidr_el2: u64,
    data: &[u8],
    ram: &mut GuestRam,
    cpu: &mut CpuInterface,
    delivered: bool,
    k: int,
)
    requires
        old(list).wf(),
        old(ram)@.valid(),
        call_ensures(input_net_packet, (list, tpidr_el2, data, ram, cpu), delivered),
        0 <= k < old(list).vms@.len(),
    ensures
        final(list).vms@.len() == old(list).vms@.len(),
        final(list).active == old(list).active,
        old(list).vms@[k].vm_id != tpidr_el2 ==> final(list).vms@[k] == old(list).vms@[k],
        final(list).vms@[k].context == old(list).vms@[k].context,
        final(list).vms@[k].pl011_mmio == old(list).vms@[k].pl011_mmio,
        delivered ==> exists|i: int|
            0 <= i < old(list).vms@.len() && (#[trigger] old(list).vms@[i]).vm_id == tpidr_el2,
        !delivered ==> *final(list) == *old(list) && final(ram)@ == old(ram)@ && final(cpu)@ == old(cpu)@,
{
    lemma_vm_found(old(list).vms@, tpidr_el2 as int, 0);
}

/// A CPU whose vCPU retires goes on with another of its own vCPUs, from where that was saved, if it has
/// one. Otherwise nothing changes.
pub proof fn cpu_goes_on_with_another_of_its_vcpus(
    list: &mut VmList,
    retiring_vm_id: u64,
    affinity: u64,
    registers: &mut Registers,
    switch: Option<VcpuSwitch>,
)
    requires
        old(list).wf(),
        call_ensures(
            switch_to_other_vcpu_on_retire,
            (list, retiring_vm_id, affinity, registers),
            switch,
        ),
    ensures
        final(list).vms == old(list).vms,
        switch matches Some(resumed) ==> {
            &&& final(list).active matches Some(i)
            &&& i < old(list).vms@.len()
            &&& ({
                let vm = old(list).vms@[i as int];
                &&& vm.owner_affinity == affinity
                &&& vm.vm_id != retiring_vm_id
                &&& final(registers)@ == vm.context.regs@
                &&& resumed.elr_el2 == vm.context.elr_el2
                &&& resumed.spsr_el2 == vm.context.spsr_el2
                &&& resumed.gich_lr == vm.context.gich_lr
                &&& resumed.el1 == vm.context.el1
                &&& resumed.tpidr_el2 == vm.vm_id
            })
        },
        switch is None ==> {
            &&& *final(list) == *old(list)
            &&& final(registers)@ == old(registers)@
            &&& forall|k: int|
                0 <= k < old(list).vms@.len() ==> (#[trigger] old(list).vms@[k]).owner_affinity
                    != affinity || old(list).vms@[k].vm_id == retiring_vm_id
        },
{
    lemma_other_found(old(list).vms@, retiring_vm_id as int, affinity, 0);
    assert(old(list).vms@.len() == old(list).vms.len());
}

proof fn lemma_other_found(vms: Seq<VM>, vm_id: int, affinity: u64, i: int)
    requires
        0 <= i <= vms.len(),
    ensures
        match crate::vm_list::other_from(vms, vm_id, affinity, i) {
            Some(k) => i <= k < vms.len() && vms[k].owner_affinity == affinity && vms[k].vm_id
                != vm_id,
            None => forall|k: int|
                i <= k < vms.len() ==> (#[trigger] vms[k]).owner_affinity != affinity
                    || vms[k].vm_id == vm_id,
        },
    decreases vms.len() - i,
{
    if i < vms.len() && !(vms[i].owner_affinity == affinity && vms[i].vm_id != vm_id) {
        lemma_other_found(vms, vm_id, affinity, i + 1);
    }
}

/// An address of the guest is as far into its physical memory as into its own view of it. Outside of
/// that there is no such address.
pub proof fn guest_memory_is_one_piece(
    base: usize,
    physical: usize,
    size: usize,
    first: usize,
    second: usize,
    a: Option<usize>,
    b: Option<usize>,
)
    requires
        base + size <= usize::MAX,
        physical + size <= usize::MAX,
        call_ensures(translate_guest_physical_address, (first, base, physical, size), a),
        call_ensures(translate_guest_physical_address, (second, base, physical, size), b),
    ensures
        a is Some == (base <= first && first < base + size),
        a matches Some(x) ==> physical <= x < physical + size,
        a matches Some(x) ==> (b matches Some(y) ==> x - y == first - second),
        first == base && size > 0 ==> a == Some(physical),
{
}

/// What was written into a guest's memory is read back from there, and nothing else changes.
pub proof fn guest_memory_keeps_its_bytes(
    ram: &mut GuestRam,
    address: u64,
    data: &[u8],
    after: &GuestRam,
    read: Vec<u8>,
    other: u64,
    n: u64,
    before: &GuestRam,
    kept: Vec<u8>,
    still: Vec<u8>,
)
    requires
        old(ram)@.valid(),
        old(ram)@.holds(address as int, data@.len() as int),
        call_ensures(GuestRam::write_bytes, (ram, address, data), ()),
        after@ == final(ram)@,
        call_ensures(GuestRam::read_bytes, (after, address, data@.len() as u64), read),
        data@.len() <= u64::MAX,
        before@ == old(ram)@,
        old(ram)@.holds(other as int, n as int),
        other + n <= address || address + data@.len() <= other,
        call_ensures(GuestRam::read_bytes, (before, other, n), kept),
        call_ensures(GuestRam::read_bytes, (after, other, n), still),
    ensures
        read@ == data@,
        still@ == kept@,
        kept@.len() == n,
{
}

/// Bytes are the guest's exactly where they start and end inside its memory.
pub proof fn guest_has_its_bytes(ram: &GuestRam, address: u64, n: u64, contained: bool)
    requires
        ram@.valid(),
        call_ensures(GuestRam::contains, (ram, address, n), contained),
    ensures
        contained == (ram@.physical_base <= address && address + n <= ram@.physical_base
            + ram@.bytes.len()),
{
}

/// A CPU that is parked is available from then on, and the CPUs that were are still.
pub proof fn parked_cpu_is_available(cpus: &mut SmpCpus, affinity: u64)
    requires
        call_ensures(SmpCpus::park, (cpus, affinity), ()),
    ensures
        final(cpus).parked@.contains(affinity),
        forall|a: u64|
            a != affinity ==> (#[trigger] final(cpus).parked@.contains(a) == old(cpus).parked@.contains(a)),
        final(cpus).launches@ == old(cpus).launches@,
{
    let before = old(cpus).parked@;
    let after = final(cpus).parked@;
    assert(after[before.len() as int] == affinity);
    assert forall|a: u64| a != affinity implies #[trigger] after.contains(a) == before.contains(
        a,
    ) by {
        if before.contains(a) {
            let i = choose|i: int| 0 <= i < before.len() && before[i] == a;
            assert(after[i] == a);
        }
    }
}

/// What is queued for another CPU stays in the queue, in its order, and what is queued for this one is
/// either taken out or stays.
pub proof fn queue_keeps_what_is_for_others(
    distributor: &mut GicDistributorMmio,
    cpu: &mut CpuInterface,
    target: u8,
)
    requires
        call_ensures(inject_interrupt_handler, (distributor, cpu), ()),
        target != old(cpu).target,
    ensures
        entries_for(final(distributor)@.queue, target) == entries_for(
            old(distributor)@.queue,
            target,
        ),
        final(cpu).target == old(cpu).target,
        final(distributor)@.pending == old(distributor)@.pending,
        final(distributor)@.enable == old(distributor)@.enable,
{
    lemma_drained_others(old(distributor)@.queue, 0, old(cpu)@, Seq::empty(), target);
    let queue = old(distributor)@.queue;
    assert(queue.subrange(0, queue.len() as int) =~= queue);
    assert(entries_for(Seq::empty(), target) + entries_for(queue, target) =~= entries_for(
        queue,
        target,
    ));
}

/// The entries of a queue that are for one CPU, in their order.
pub open spec fn entries_for(queue: Seq<(u8, u32)>, target: u8) -> Seq<(u8, u32)>
    decreases queue.len(),
{
    if queue.len() == 0 {
        Seq::empty()
    } else if queue.last().0 == target {
        entries_for(queue.drop_last(), target).push(queue.last())
    } else {
        entries_for(queue.drop_last(), target)
    }
}

proof fn lemma_entries_joined(a: Seq<(u8, u32)>, b: Seq<(u8, u32)>, target: u8)
    ensures
        entries_for(a + b, target) == entries_for(a, target) + entries_for(b, target),
    decreases b.len(),
{
    if b.len() == 0 {
        assert(a + b =~= a);
        assert(entries_for(a, target) + entries_for(b, target) =~= entries_for(a, target));
    } else {
        lemma_entries_joined(a, b.drop_last(), target);
        assert((a + b).drop_last() =~= a + b.drop_last());
        assert((a + b).last() == b.last());
        assert(entries_for(a + b, target) =~= entries_for(a, target) + entries_for(b, target));
    }
}

proof fn lemma_drained_others(
    queue: Seq<(u8, u32)>,
    i: int,
    cpu: CpuModel,
    remaining: Seq<(u8, u32)>,
    target: u8,
)
    requires
        0 <= i <= queue.len(),
        target != cpu.target,
    ensures
        ({
            let after = crate::mmio::gicv2::drained_from(queue, i, cpu, remaining);
            &&& entries_for(after.0, target) == entries_for(remaining, target) + entries_for(
                queue.subrange(i, queue.len() as int),
                target,
            )
            &&& after.1.target == cpu.target
        }),
    decreases queue.len() - i,
{
    let rest = queue.subrange(i, queue.len() as int);
    if i == queue.len() {
        assert(rest =~= Seq::empty());
        assert(entries_for(remaining, target) + entries_for(rest, target) =~= entries_for(
            remaining,
            target,
        ));
    } else {
        let next = queue.subrange(i + 1, queue.len() as int);
        let single = seq![queue[i]];
        assert(rest =~= single + next);
        lemma_entries_joined(single, next, target);
        let pushed = remaining.push(queue[i]);
        assert(pushed.drop_last() =~= remaining);
        assert(single.drop_last() =~= Seq::empty());
        assert(entries_for(single, target) =~= if queue[i].0 == target {
            single
        } else {
            Seq::empty()
        }) by {
            reveal_with_fuel(entries_for, 2);
        }
        assert(entries_for(pushed, target) =~= entries_for(remaining, target) + entries_for(
            single,
            target,
        ));
        if queue[i].0 != cpu.target {
            lemma_drained_others(queue, i + 1, cpu, pushed, target);
            assert((entries_for(remaining, target) + entries_for(single, target)) + entries_for(
                next,
                target,
            ) =~= entries_for(remaining, target) + (entries_for(single, target) + entries_for(
                next,
                target,
            )));
        } else if cpu.accepts(queue[i].1) {
            lemma_drained_others(queue, i + 1, cpu.injected(queue[i].1), remaining, target);
            assert(entries_for(single, target) + entries_for(next, target) =~= entries_for(
                next,
                target,
            ));
        } else {
            lemma_drained_others(queue, i + 1, cpu.injected(queue[i].1), pushed, target);
            assert((entries_for(remaining, target) + entries_for(single, target)) + entries_for(
                next,
                target,
            ) =~= entries_for(remaining, target) + (entries_for(single, target) + entries_for(
                next,
                target,
            )));
        }
    }
}

/// The one interrupt that waits for this CPU leaves the queue when it is injected, as any other injected
/// interrupt is, and stays in it when it cannot be.
pub proof fn queued_interrupt_is_injected(
    distributor: &mut GicDistributorMmio,
    cpu: &mut CpuInterface,
    entry: u32,
    other: &mut CpuInterface,
    injected: bool,
)
    requires
        call_ensures(inject_interrupt_handler, (distributor, cpu), ()),
        old(distributor)@.queue == seq![(old(cpu).target, entry)],
        *old(other) == *old(cpu),
        call_ensures(crate::vgic::add_virtual_interrupt, (other, entry), injected),
    ensures
        final(cpu)@ == final(other)@,
        final(distributor)@.queue == if injected {
            Seq::<(u8, u32)>::empty()
        } else {
            old(distributor)@.queue
        },
{
    reveal_with_fuel(crate::mmio::gicv2::drained_from, 3);
    assert(Seq::<(u8, u32)>::empty().push((old(cpu).target, entry)) =~= old(distributor)@.queue);
}

/// A new guest has an identifier of its own, 256 MiB of memory from 0x4000_0000 on, the affinity of the
/// CPU that creates it, the network address that it is given, and nothing in its registers.
pub proof fn new_guest_is_as_asked_for(
    list: &mut VmList,
    allocator: &mut MemoryAllocator,
    host: &HostCpu,
    net_mac: [u8; 6],
    result: Result<VM, CreateError>,
    k: int,
)
    requires
        old(list).wf(),
        call_ensures(create_vm, (list, allocator, host, net_mac), result),
        0 <= k < 32,
    ensures
        final(list).vms == old(list).vms,
        final(list).active == old(list).active,
        result matches Ok(vm) ==> {
            &&& vm.vm_id == old(list).next_vm_id
            &&& final(list).next_vm_id == vm.vm_id + 1
            &&& vm.vmid == old(list).next_vmid % 256
            &&& vm.owner_affinity == crate::cpu::affinity_of(host.mpidr_el1)
            &&& vm.ram_virtual_base_address == 0x4000_0000
            &&& vm.ram_size == 0x1000_0000
            &&& vm.virtio_net_mmio.mac@ == net_mac@
            &&& crate::laws::devices::has_guest_devices(vm)
            &&& vm.gic_distributor_mmio.own_target == host.own_target
            &&& vm.context.regs@[k] == 0
            &&& vm.context.elr_el2 == 0
            &&& vm.context.gich_lr@ =~= seq![0u32, 0, 0, 0]
            &&& (forall|i: int|
                0 <= i < old(list).reset_el1@.len() ==> (#[trigger] old(list).reset_el1@[i]).0
                    != vm.owner_affinity) ==> vm.context.el1 == host.el1
        },
        result is Err ==> *final(list) == *old(list),
{
    lemma_reset_found(
        old(list).reset_el1@,
        crate::cpu::affinity_of(host.mpidr_el1),
        0,
    );
}

/// A new guest's own memory is where its translation table leads, byte for byte, for reading and writing,
/// and no other page leads to memory.
pub proof fn new_guest_finds_its_memory(
    list: &mut VmList,
    allocator: &mut MemoryAllocator,
    host: &HostCpu,
    net_mac: [u8; 6],
    result: Result<VM, CreateError>,
    x: u64,
)
    requires
        old(list).wf(),
        old(allocator).wf(),
        crate::allocator_laws::is_below(old(allocator)@, usize::MAX - 0x1000),
        call_ensures(create_vm, (list, allocator, host, net_mac), result),
        host.gicv_size % 0x1000 == 0,
        host.gicv_size <= 0x37FF_0000,
        0x4000_0000 <= x < 0x5000_0000,
    ensures
        result matches Ok(vm) ==> (vm.ram_physical_base_address % 0x1000 == 0
            && vm.ram_physical_base_address + 0x1000_0000 <= 0x4_0000_0000_0000 ==> {
            let level = crate::paging::initial_level(
                crate::paging::vtcr_of(host.id_aa64mmfr0_el1),
            );
            &&& vm.stage2_table.mapping(level, x as int / 0x1000) matches Some(leaf)
            &&& crate::stage2::output_of(leaf, x) == vm.ram_physical_base_address + (x
                - 0x4000_0000)
            &&& crate::stage2::gives(leaf, 3, false)
        }),
{
    if let Ok(vm) = result {
        let ram = vm.ram_physical_base_address;
        if ram % 0x1000 == 0 && ram + 0x1000_0000 <= 0x4_0000_0000_0000 {
            let taken = crate::guest::ram_taken(old(allocator)@)->0;
            let table = crate::guest::table_taken(taken.1, host.id_aa64mmfr0_el1)->0;
            crate::guest::guest_memory_translates(
                vm.stage2_table,
                *host,
                ram,
                table.1,
                final(allocator)@,
                x,
            );
        }
    }
}

} // verus!
