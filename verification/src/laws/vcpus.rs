//! The vCPUs of the guests, and the calls by which they are started and stopped.

use crate::cpu::{advance_elr_el2, mpidr_to_affinity};
use crate::exception::Registers;
use crate::paging::activate_stage2_translation_table;
use crate::psci::{check_psci_version, cpu_on, cpu_on_call, PsciErrorCodes};
use crate::smp::{
    handle_guest_cpu_off, handle_guest_smc, launch_cpu, launch_outcome, CpuNode, CpuOffAction,
    LaunchOutcome, SmcAction, SmpCpus, SmpLaunchRequest, StartPlan,
};
use crate::vgic::{add_virtual_interrupt, CpuInterface};
use crate::vm_list::{
    get_current_vm, input_uart, switch_active_vm, try_yield_to_next_vcpu, TrappedCpu, VcpuSwitch, VmList,
};
use vstd::prelude::*;

verus! {

/// A CPU is named by its MPIDR_EL1 without bits 31 and 30.
pub proof fn affinity_is_without_the_flags(mpidr: u64, affinity: u64)
    requires
        call_ensures(mpidr_to_affinity, (mpidr,), affinity),
    ensures
        affinity == mpidr % 0x4000_0000 + mpidr / 0x1_0000_0000 * 0x1_0000_0000,
{
    crate::laws::fields::lemma_affinity(mpidr);
}

/// The next instruction is four bytes further.
pub proof fn next_instruction_is_four_bytes_further(elr_el2: u64, next: u64)
    requires
        call_ensures(advance_elr_el2, (elr_el2,), next),
    ensures
        elr_el2 + 4 <= u64::MAX ==> next == elr_el2 + 4,
{
}

/// VTTBR_EL2 names the VMID in its top bits and the table below.
pub proof fn live_table_is_the_given_one(table_address: u64, vmid: u64, vttbr_el2: u64)
    requires
        vmid <= 0xFF,
        table_address & 0x7FFF_FFFF_FFFE == table_address,
        call_ensures(activate_stage2_translation_table, (table_address, vmid), vttbr_el2),
    ensures
        vttbr_el2 >> 48u64 == vmid,
        vttbr_el2 & 0x7FFF_FFFF_FFFE == table_address,
{
    crate::paging::vttbr_fields(table_address, vmid);
}

/// What a guest's SMC means. CPU_ON (0xC400_0003) takes the CPU, the entry point and the argument from
/// x1, x2 and x3; CPU_OFF is 0x8400_0002. Everything else goes to the firmware, where there is one;
/// without one the version (0x8400_0000) is 0.2, turning off (0x8400_0008) and resetting (0x8400_0009)
/// stop the vCPU, and other calls are not supported.
pub proof fn smc_is_what_its_function_says(
    registers: &Registers,
    has_psci: bool,
    action: SmcAction,
)
    requires
        call_ensures(handle_guest_smc, (registers, has_psci), action),
    ensures
        registers.x0 == 0xC400_0003 <==> action is CpuOn,
        action matches SmcAction::CpuOn { target_cpu, entry_point, context_id } ==> target_cpu
            == registers.x1 && entry_point == registers.x2 && context_id == registers.x3,
        registers.x0 == 0x8400_0002 <==> action is CpuOff,
        action is Forward <==> has_psci && registers.x0 != 0xC400_0003 && registers.x0
            != 0x8400_0002,
        action matches SmcAction::Forward { x0, x1, x2, x3 } ==> x0 == registers.x0 && x1
            == registers.x1 && x2 == registers.x2 && x3 == registers.x3,
        !has_psci && registers.x0 == 0x8400_0000 ==> action == SmcAction::Return(2),
        action is Park <==> !has_psci && (registers.x0 == 0x8400_0008 || registers.x0
            == 0x8400_0009),
        action matches SmcAction::Return(code) ==> code == 2 && registers.x0 == 0x8400_0000 || code
            == 0xFFFF_FFFF_FFFF_FFFF,
{
}

/// A CPU_ON call succeeds where the named CPU is parked. That CPU is parked no more, and finds what it
/// is to run; no other CPU is concerned. Otherwise the call gives -4, and nothing changes.
pub proof fn cpu_on_takes_the_named_cpu(
    cpus: &mut SmpCpus,
    target_cpu: u64,
    entry_point: u64,
    context_id: u64,
    vm_id: u64,
    code: u64,
    affinity: u64,
)
    requires
        call_ensures(
            SmpCpus::handle_guest_cpu_on,
            (cpus, target_cpu, entry_point, context_id, vm_id),
            code,
        ),
        affinity == target_cpu % 0x4000_0000 + target_cpu / 0x1_0000_0000 * 0x1_0000_0000,
    ensures
        code == 0 <==> old(cpus).parked@.contains(affinity),
        code == 0 || code == 0xFFFF_FFFC,
        code == 0 ==> {
            &&& final(cpus).launches@ == old(cpus).launches@.push(
                (affinity, SmpLaunchRequest { vm_id, entry_point, context_id }),
            )
            &&& exists|i: int|
                0 <= i < old(cpus).parked@.len() && old(cpus).parked@[i] == affinity && final(
                    cpus
                ).parked@ == #[trigger] old(cpus).parked@.remove(i)
        },
        code != 0 ==> final(cpus).parked@ == old(cpus).parked@ && final(cpus).launches@ == old(
            cpus,
        ).launches@,
{
    crate::laws::fields::lemma_affinity(target_cpu);
    lemma_parked(old(cpus).parked@, affinity, 0);
}

proof fn lemma_parked(parked: Seq<u64>, affinity: u64, from: int)
    requires
        0 <= from <= parked.len(),
    ensures
        match crate::smp::parked_from(parked, affinity, from) {
            Some(i) => from <= i < parked.len() && parked[i] == affinity,
            None => forall|i: int| from <= i < parked.len() ==> #[trigger] parked[i] != affinity,
        },
    decreases parked.len() - from,
{
    if from < parked.len() && parked[from] != affinity {
        lemma_parked(parked, affinity, from + 1);
    }
}

/// A parked CPU takes the first request that is for it, and leaves those for others.
pub proof fn parked_cpu_takes_its_own_launch(
    cpus: &mut SmpCpus,
    affinity: u64,
    request: Option<SmpLaunchRequest>,
    i: int,
)
    requires
        call_ensures(SmpCpus::take_launch, (cpus, affinity), request),
        0 <= i < old(cpus).launches@.len(),
        forall|k: int| 0 <= k < i ==> (#[trigger] old(cpus).launches@[k]).0 != affinity,
        old(cpus).launches@[i].0 == affinity,
    ensures
        request == Some(old(cpus).launches@[i].1),
        final(cpus).launches@ == old(cpus).launches@.remove(i),
{
    lemma_launch(old(cpus).launches@, affinity, 0, i);
}

proof fn lemma_launch(launches: Seq<(u64, SmpLaunchRequest)>, affinity: u64, from: int, i: int)
    requires
        0 <= from <= i < launches.len(),
        forall|k: int| from <= k < i ==> (#[trigger] launches[k]).0 != affinity,
        launches[i].0 == affinity,
    ensures
        crate::smp::launch_from(launches, affinity, from) == Some(i),
    decreases i - from,
{
    if from < i {
        lemma_launch(launches, affinity, from + 1, i);
    }
}

/// Where no request is for a CPU, it gets none.
pub proof fn parked_cpu_waits_without_a_launch(
    cpus: &mut SmpCpus,
    affinity: u64,
    request: Option<SmpLaunchRequest>,
)
    requires
        call_ensures(SmpCpus::take_launch, (cpus, affinity), request),
        forall|k: int|
            0 <= k < old(cpus).launches@.len() ==> (#[trigger] old(cpus).launches@[k]).0 != affinity,
    ensures
        request is None,
        final(cpus).launches@ == old(cpus).launches@,
{
    lemma_no_launch(old(cpus).launches@, affinity, 0);
}

proof fn lemma_no_launch(launches: Seq<(u64, SmpLaunchRequest)>, affinity: u64, from: int)
    requires
        0 <= from <= launches.len(),
        forall|k: int| from <= k < launches.len() ==> (#[trigger] launches[k]).0 != affinity,
    ensures
        crate::smp::launch_from(launches, affinity, from) is None,
    decreases launches.len() - from,
{
    if from < launches.len() {
        lemma_no_launch(launches, affinity, from + 1);
    }
}

/// A CPU that is tried is another one than the CPU that runs. By the spin table it is started at its own
/// release address, and by PSCI under its own affinity.
pub proof fn launched_cpu_is_started_its_own_way(
    current: u64,
    cpus: &[CpuNode],
    from: usize,
    next: Option<(usize, StartPlan)>,
)
    requires
        from <= cpus@.len(),
        call_ensures(launch_cpu, (current, cpus, from), next),
    ensures
        next matches Some((i, plan)) ==> {
            let cpu = cpus@[i as int];
            &&& from <= i < cpus@.len()
            &&& cpu.affinity is Some && cpu.affinity != Some(current)
            &&& plan == if cpu.spin_table {
                StartPlan::SpinTable { release_address: cpu.release_address->0 }
            } else {
                StartPlan::Psci { affinity: cpu.affinity->0 }
            }
            &&& cpu.spin_table ==> cpu.release_address is Some
            &&& forall|k: int|
                from <= k < i ==> {
                    let other = #[trigger] cpus@[k];
                    other.affinity is None || other.affinity == Some(current) || other.spin_table
                        && other.release_address is None
                }
        },
        next is None ==> forall|k: int|
            from <= k < cpus@.len() ==> {
                let other = #[trigger] cpus@[k];
                other.affinity is None || other.affinity == Some(current) || other.spin_table
                    && other.release_address is None
            },
{
    lemma_startable(current, cpus@, from as int);
}

proof fn lemma_startable(current: u64, cpus: Seq<CpuNode>, from: int)
    requires
        0 <= from <= cpus.len(),
    ensures
        ({
            let end = match crate::smp::startable_from(current, cpus, from) {
                Some(i) => i,
                None => cpus.len() as int,
            };
            &&& from <= end <= cpus.len()
            &&& crate::smp::startable_from(current, cpus, from) is Some ==> end < cpus.len() && {
                let plan = crate::smp::start_plan(current, cpus[end], true);
                plan is SpinTable || plan is Psci
            }
            &&& forall|k: int|
                from <= k < end ==> {
                    let other = #[trigger] cpus[k];
                    other.affinity is None || other.affinity == Some(current) || other.spin_table
                        && other.release_address is None
                }
        }),
    decreases cpus.len() - from,
{
    if from < cpus.len() {
        let plan = crate::smp::start_plan(current, cpus[from], true);
        if !(plan is SpinTable || plan is Psci) {
            lemma_startable(current, cpus, from + 1);
        }
    }
}

/// What comes of an attempt to start a CPU.
pub proof fn launch_goes_on_with_the_next_cpu(
    result: Result<(), PsciErrorCodes>,
    outcome: LaunchOutcome,
)
    requires
        call_ensures(launch_outcome, (result,), outcome),
    ensures
        outcome is Started <==> result is Ok,
        outcome is Next <==> result == Err::<(), PsciErrorCodes>(PsciErrorCodes::AlreadyOn),
        outcome matches LaunchOutcome::Failed(error) ==> result == Err::<(), PsciErrorCodes>(error),
{
}

/// A PSCI call that gives 0 has succeeded, and -1 to -9 are its errors, in 32 bits.
pub proof fn psci_results_are_signed(result: u64, outcome: Result<(), PsciErrorCodes>)
    requires
        call_ensures(cpu_on, (result,), outcome),
    ensures
        ({
            let low = result as int % 0x1_0000_0000;
            let code = if low < 0x8000_0000 {
                low
            } else {
                low - 0x1_0000_0000
            };
            &&& outcome is Ok <==> code == 0
            &&& outcome == Err::<(), PsciErrorCodes>(PsciErrorCodes::NotSupported) <==> code == -1
            &&& outcome == Err::<(), PsciErrorCodes>(PsciErrorCodes::InvalidParameters) <==> code
                == -2
            &&& outcome == Err::<(), PsciErrorCodes>(PsciErrorCodes::Denied) <==> code == -3
            &&& outcome == Err::<(), PsciErrorCodes>(PsciErrorCodes::AlreadyOn) <==> code == -4
            &&& outcome == Err::<(), PsciErrorCodes>(PsciErrorCodes::OnPending) <==> code == -5
            &&& outcome == Err::<(), PsciErrorCodes>(PsciErrorCodes::InternalFailure) <==> code
                == -6
            &&& outcome == Err::<(), PsciErrorCodes>(PsciErrorCodes::NotPresent) <==> code == -7
            &&& outcome == Err::<(), PsciErrorCodes>(PsciErrorCodes::Disabled) <==> code == -8
            &&& outcome == Err::<(), PsciErrorCodes>(PsciErrorCodes::InvalidAddress) <==> code
                == -9
        }),
{
}

/// The version is made of two halves, and the call for a CPU names it, where it starts and what it is
/// told.
pub proof fn psci_calls_have_their_parts(
    version: u64,
    parts: (u16, u16),
    target_cpu: u64,
    entry_point: u64,
    argument: u64,
    call: [u64; 4],
)
    requires
        call_ensures(check_psci_version, (version,), Ok(parts)),
        call_ensures(cpu_on_call, (target_cpu, entry_point, argument), call),
    ensures
        parts.0 * 0x1_0000 + parts.1 == version % 0x1_0000_0000,
        call@[0] == 0xC400_0003,
        call@[1] == target_cpu,
        call@[2] == entry_point,
        call@[3] == argument,
{
}

/// The VM that runs on a CPU is the one whose identifier the CPU holds.
pub proof fn current_vm_has_the_identifier(list: &VmList, tpidr_el2: u64, place: Option<usize>)
    requires
        call_ensures(get_current_vm, (list, tpidr_el2), place),
    ensures
        match place {
            Some(i) => i < list.vms@.len() && list.vms@[i as int].vm_id == tpidr_el2,
            None => forall|i: int|
                0 <= i < list.vms@.len() ==> (#[trigger] list.vms@[i]).vm_id != tpidr_el2,
        },
{
    crate::vm_list::lemma_vm_from(list.vms@, tpidr_el2 as int, 0);
}

/// The UART input goes to the VM that it was switched to, and to no other.
pub proof fn input_goes_where_it_was_switched(
    list: &mut VmList,
    vm_id: usize,
    switched: bool,
    fed: &mut VmList,
    c: u8,
    cpu: &mut CpuInterface,
    i: int,
)
    requires
        old(list).wf(),
        call_ensures(switch_active_vm, (list, vm_id), switched),
        switched,
        *old(fed) == *final(list),
        call_ensures(input_uart, (fed, c, cpu), ()),
        0 <= i < old(list).vms@.len(),
    ensures
        ({
            let before = old(list).vms@[i].pl011_mmio@.fifo;
            let after = final(fed).vms@[i].pl011_mmio@.fifo;
            after == if old(list).vms@[i].vm_id == vm_id && before.len() != 256 {
                before.push(c)
            } else {
                before
            }
        }),
        final(fed).vms@.len() == old(list).vms@.len(),
{
    let vms = old(list).vms@;
    crate::vm_list::lemma_vm_from(vms, vm_id as int, 0);
    let place = old(list).place_of(vm_id as int)->0;
    assert(vms.len() == old(list).vms.len());
    assert(old(fed).active == Some(place as usize));
    assert((place as usize) as int == place);
    assert(vms[place].vm_id == vm_id);
    if i < place {
        assert(vms[i].vm_id != vms[place].vm_id);
    } else if place < i {
        assert(vms[place].vm_id != vms[i].vm_id);
    }
}

/// A switch to a VM that does not exist changes nothing.
pub proof fn input_stays_without_such_a_vm(list: &mut VmList, vm_id: usize, switched: bool)
    requires
        old(list).wf(),
        call_ensures(switch_active_vm, (list, vm_id), switched),
    ensures
        switched <==> exists|i: int|
            0 <= i < old(list).vms@.len() && (#[trigger] old(list).vms@[i]).vm_id == vm_id,
        !switched ==> *final(list) == *old(list),
{
    crate::vm_list::lemma_vm_from(old(list).vms@, vm_id as int, 0);
}

/// A vCPU that waits gives its CPU to the next VM of the same CPU in the list, and behind the last one to
/// the first one. The CPU gets what that VM had: its registers, and where it goes on. The vCPU that waits
/// goes on behind the instruction, with what it had.
pub proof fn waiting_vcpu_makes_room_for_the_next(
    list: &mut VmList,
    trapped: &TrappedCpu,
    registers: &mut Registers,
    switch: VcpuSwitch,
    current: int,
)
    requires
        old(list).wf(),
        0 <= current < old(list).vms@.len(),
        old(list).vms@[current].vm_id == trapped.tpidr_el2,
        old(list).place_of(trapped.tpidr_el2 as int) is Some,
        call_ensures(try_yield_to_next_vcpu, (list, trapped, registers), Some(switch)),
    ensures
        ({
            let vms = old(list).vms@;
            let affinity = crate::cpu::affinity_of(trapped.mpidr_el1);
            exists|next: int|
                {
                    &&& 0 <= next < vms.len()
                    &&& next != current
                    &&& (#[trigger] vms[next]).owner_affinity == affinity
                    &&& switch.tpidr_el2 == vms[next].vm_id
                    &&& switch.elr_el2 == vms[next].context.elr_el2
                    &&& switch.spsr_el2 == vms[next].context.spsr_el2
                    &&& switch.gich_lr == vms[next].context.gich_lr
                    &&& switch.el1 == vms[next].context.el1
                    &&& final(registers)@ == vms[next].context.regs@
                    &&& final(list).active == Some(next as usize)
                    &&& next > current ==> forall|k: int|
                        current < k < next ==> (#[trigger] vms[k]).owner_affinity != affinity
                    &&& next < current ==> forall|k: int|
                        current < k < vms.len() || 0 <= k < next ==> (
                        #[trigger] vms[k]).owner_affinity != affinity
                }
        }),
        ({
            let saved = final(list).vms@[current].context;
            &&& saved.regs@ == old(registers)@
            &&& trapped.elr_el2 + 4 <= u64::MAX ==> saved.elr_el2 == trapped.elr_el2 + 4
            &&& saved.spsr_el2 == trapped.spsr_el2
            &&& saved.gich_lr == trapped.gich_lr
            &&& saved.el1 == trapped.el1
        }),
{
    let vms = old(list).vms@;
    let affinity = crate::cpu::affinity_of(trapped.mpidr_el1);
    let id = trapped.tpidr_el2 as int;
    crate::vm_list::lemma_vm_from(vms, id, 0);
    let i = old(list).place_of(id)->0;
    assert(i == current) by {
        if i < current {
            assert(vms[i].vm_id != vms[current].vm_id);
        } else if current < i {
            assert(vms[current].vm_id != vms[i].vm_id);
        }
    }
    crate::vm_list::lemma_vcpus_of(vms, affinity, vms.len());
    let places = crate::vm_list::vcpus_of(vms, affinity, vms.len());
    crate::vm_list::lemma_place_from(vms, places, id, 0);
    let at = crate::vm_list::place_from(vms, places, id, 0)->0;
    let length = places.len() as int;
    assert(places[at] == current) by {
        let p = places[at];
        if p < current {
            assert(vms[p].vm_id != vms[current].vm_id);
        } else if current < p {
            assert(vms[current].vm_id != vms[p].vm_id);
        }
    }
    crate::vm_list::lemma_turn(at, length);
    let next = places[(at + 1) % length];
    assert forall|k: int|
        0 <= k < vms.len() && (#[trigger] vms[k]).owner_affinity == affinity implies places.contains(
        k,
    ) by {}
    if at + 1 < length {
        assert(places[at] < places[at + 1]);
        assert forall|k: int| current < k < next implies (#[trigger] vms[k]).owner_affinity
            != affinity by {
            if vms[k].owner_affinity == affinity {
                let m = places.index_of(k);
                assert(places[m] == k);
                if m <= at {
                    if m < at {
                        assert(places[m] < places[at]);
                    }
                } else if m > at + 1 {
                    assert(places[at + 1] < places[m]);
                }
            }
        }
    } else {
        assert forall|k: int| current < k < vms.len() || 0 <= k < next implies (
        #[trigger] vms[k]).owner_affinity != affinity by {
            if vms[k].owner_affinity == affinity {
                let m = places.index_of(k);
                assert(places[m] == k);
                if m < at {
                    assert(places[m] < places[at]);
                }
                if m > 0 {
                    assert(places[0] < places[m]);
                }
            }
        }
        if next >= current {
            if at > 0 {
                assert(places[0] < places[at]);
            }
        }
    }
    assert(vms[next].owner_affinity == affinity);
}

/// A vCPU that retires gives its CPU to the first other VM of the same CPU, and otherwise the CPU is
/// parked with its own stack.
pub proof fn retiring_vcpu_makes_room(
    list: &mut VmList,
    cpus: &SmpCpus,
    tpidr_el2: u64,
    mpidr_el1: u64,
    registers: &mut Registers,
    action: CpuOffAction,
)
    requires
        old(list).wf(),
        call_ensures(
            handle_guest_cpu_off,
            (list, cpus, tpidr_el2, mpidr_el1, registers),
            action,
        ),
    ensures
        ({
            let vms = old(list).vms@;
            let affinity = crate::cpu::affinity_of(mpidr_el1);
            match action {
                CpuOffAction::Switch(switch) => exists|next: int|
                    {
                        &&& 0 <= next < vms.len()
                        &&& (#[trigger] vms[next]).owner_affinity == affinity
                        &&& vms[next].vm_id != tpidr_el2
                        &&& switch.tpidr_el2 == vms[next].vm_id
                        &&& switch.elr_el2 == vms[next].context.elr_el2
                        &&& switch.el1 == vms[next].context.el1
                        &&& final(registers)@ == vms[next].context.regs@
                        &&& forall|k: int|
                            0 <= k < next ==> (#[trigger] vms[k]).owner_affinity != affinity
                                || vms[k].vm_id == tpidr_el2
                    },
                CpuOffAction::Park { stack_top } => {
                    &&& forall|k: int|
                        0 <= k < vms.len() ==> (#[trigger] vms[k]).owner_affinity != affinity
                            || vms[k].vm_id == tpidr_el2
                    &&& cpus.stack_tops@.contains((affinity, stack_top))
                },
                CpuOffAction::NoStack => {
                    &&& forall|k: int|
                        0 <= k < vms.len() ==> (#[trigger] vms[k]).owner_affinity != affinity
                            || vms[k].vm_id == tpidr_el2
                    &&& forall|k: int|
                        0 <= k < cpus.stack_tops@.len() ==> (#[trigger] cpus.stack_tops@[k]).0
                            != affinity
                },
            }
        }),
{
    let affinity = crate::cpu::affinity_of(mpidr_el1);
    lemma_other(old(list).vms@, tpidr_el2 as int, affinity, 0);
    lemma_stack(cpus.stack_tops@, affinity, 0);
}

proof fn lemma_other(vms: Seq<crate::vm::VM>, vm_id: int, affinity: u64, from: int)
    requires
        0 <= from <= vms.len(),
    ensures
        ({
            let end = match crate::vm_list::other_from(vms, vm_id, affinity, from) {
                Some(i) => i,
                None => vms.len() as int,
            };
            &&& from <= end <= vms.len()
            &&& crate::vm_list::other_from(vms, vm_id, affinity, from) is Some ==> end < vms.len()
                && vms[end].owner_affinity == affinity && vms[end].vm_id != vm_id
            &&& forall|k: int|
                from <= k < end ==> (#[trigger] vms[k]).owner_affinity != affinity || vms[k].vm_id
                    == vm_id
        }),
    decreases vms.len() - from,
{
    if from < vms.len() && !(vms[from].owner_affinity == affinity && vms[from].vm_id != vm_id) {
        lemma_other(vms, vm_id, affinity, from + 1);
    }
}

proof fn lemma_stack(stacks: Seq<(u64, u64)>, affinity: u64, from: int)
    requires
        0 <= from <= stacks.len(),
    ensures
        match crate::smp::stack_from(stacks, affinity, from) {
            Some(top) => stacks.contains((affinity, top)),
            None => forall|k: int| from <= k < stacks.len() ==> (#[trigger] stacks[k]).0 != affinity,
        },
    decreases stacks.len() - from,
{
    if from < stacks.len() {
        if stacks[from].0 != affinity {
            lemma_stack(stacks, affinity, from + 1);
        } else {
            assert(stacks[from] == (affinity, stacks[from].1));
        }
    }
}

/// An injected interrupt is in one List Register of the first four, pending. Where its INTID was in one,
/// that one becomes pending and keeps the rest; otherwise a free one takes it. No other List Register
/// changes. It is refused only where all of those in use hold other interrupts, and that is counted.
pub proof fn injected_interrupt_is_in_one_list_register(
    cpu: &mut CpuInterface,
    entry: u32,
    injected: bool,
)
    requires
        call_ensures(add_virtual_interrupt, (cpu, entry), injected),
    ensures
        ({
            let before = old(cpu).list_registers@;
            let after = final(cpu).list_registers@;
            let used = if old(cpu).number_of_list_registers < 4 {
                old(cpu).number_of_list_registers as int
            } else {
                4
            };
            &&& injected ==> exists|i: int|
                {
                    &&& 0 <= i < used
                    &&& after == before.update(i, #[trigger] after[i])
                    &&& if before[i] / 0x1000_0000 % 4 == 0 {
                        after[i] == entry && forall|j: int|
                            0 <= j < used ==> (#[trigger] before[j]) / 0x1000_0000 % 4 == 0
                                || before[j] % 0x400 != entry % 0x400
                    } else {
                        &&& before[i] % 0x400 == entry % 0x400
                        &&& after[i] % 0x1000_0000 == before[i] % 0x1000_0000
                        &&& after[i] / 0x1000_0000 % 2 == 1
                        &&& after[i] / 0x2000_0000 == before[i] / 0x2000_0000
                    }
                }
            &&& !injected ==> {
                &&& after == before
                &&& forall|j: int|
                    0 <= j < used ==> (#[trigger] before[j]) / 0x1000_0000 % 4 != 0 && before[j]
                        % 0x400 != entry % 0x400
                &&& final(cpu).overflow_count == old(cpu).overflow_count.wrapping_add(1)
            }
            &&& injected ==> final(cpu).overflow_count == old(cpu).overflow_count
            &&& final(cpu).target == old(cpu).target
            &&& final(cpu).sgi_targets@ == old(cpu).sgi_targets@
        }),
{
    let before = old(cpu)@;
    let used = before.used();
    crate::vgic::lemma_holder_from(before.list_registers, used, entry, 0);
    crate::vgic::lemma_free_from(before.list_registers, used, 0);
    assert forall|j: int| 0 <= j < 4 implies (crate::vgic::is_occupied(
        #[trigger] before.list_registers[j],
    ) == (before.list_registers[j] / 0x1000_0000 % 4 != 0)) && (crate::vgic::holds(
        before.list_registers[j],
        entry,
    ) == (before.list_registers[j] / 0x1000_0000 % 4 != 0 && before.list_registers[j] % 0x400
        == entry % 0x400)) by {
        crate::laws::fields::lemma_list_register(before.list_registers[j]);
        crate::laws::fields::lemma_list_register(entry);
    }
    let holder = crate::vgic::holder_from(before.list_registers, used, entry, 0);
    let free = crate::vgic::free_from(before.list_registers, used, 0);
    let i = if holder < used {
        holder
    } else {
        free
    };
    if holder < used {
        crate::laws::fields::lemma_list_register(before.list_registers[holder]);
    }
    if injected {
        assert(final(cpu).list_registers@ =~= before.list_registers.update(
            i,
            final(cpu).list_registers@[i],
        ));
    }
}

} // verus!
