//! The virtual machines, and which of them runs on a CPU.

use crate::cpu::{advance_elr_el2, mpidr_to_affinity};
use crate::exception::Registers;
use crate::guest_ram::GuestRam;
use crate::paging::activate_stage2_translation_table;
use crate::vgic::CpuInterface;
use crate::vm::{El1Context, VM};
use vstd::prelude::*;

verus! {

pub struct VmList {
    pub vms: Vec<VM>,
    /// The place of the VM that the UART input goes to.
    pub active: Option<usize>,
    pub next_vm_id: usize,
    /// The number of VMIDs that were given out.
    pub next_vmid: usize,
    /// The system registers that each CPU had before any guest ran on it, by its affinity. Every
    /// vCPU of the CPU starts with them.
    pub reset_el1: Vec<(u64, El1Context)>,
}

/// The first registers from `i` on that belong to the CPU with this affinity.
pub open spec fn reset_from(contexts: Seq<(u64, El1Context)>, affinity: u64, i: int) -> Option<
    El1Context,
>
    decreases contexts.len() - i,
{
    if i < 0 || i >= contexts.len() {
        None
    } else if contexts[i].0 == affinity {
        Some(contexts[i].1)
    } else {
        reset_from(contexts, affinity, i + 1)
    }
}

/// The registers that a vCPU of the CPU with this affinity starts with, where the CPU has `current`
/// ones by now.
pub open spec fn reset_of(
    contexts: Seq<(u64, El1Context)>,
    affinity: u64,
    current: El1Context,
) -> El1Context {
    match reset_from(contexts, affinity, 0) {
        Some(reset) => reset,
        None => current,
    }
}

/// The registers are kept the first time that a CPU asks for them.
pub open spec fn with_reset(
    contexts: Seq<(u64, El1Context)>,
    affinity: u64,
    current: El1Context,
) -> Seq<(u64, El1Context)> {
    if reset_from(contexts, affinity, 0) is Some {
        contexts
    } else {
        contexts.push((affinity, current))
    }
}

/// The first VM from `i` on with this identifier.
pub open spec fn vm_from(vms: Seq<VM>, vm_id: int, i: int) -> Option<int>
    decreases vms.len() - i,
{
    if i < 0 || i >= vms.len() {
        None
    } else if vms[i].vm_id == vm_id {
        Some(i)
    } else {
        vm_from(vms, vm_id, i + 1)
    }
}

/// The places of the first `n` VMs that belong to the CPU with this affinity.
pub open spec fn vcpus_of(vms: Seq<VM>, affinity: u64, n: nat) -> Seq<int>
    decreases n,
{
    if n == 0 {
        Seq::empty()
    } else {
        let rest = vcpus_of(vms, affinity, (n - 1) as nat);
        if vms[n - 1].owner_affinity == affinity {
            rest.push(n - 1)
        } else {
            rest
        }
    }
}

/// Where the VM with this identifier stands among `places`, from `i` on.
pub open spec fn place_from(vms: Seq<VM>, places: Seq<int>, vm_id: int, i: int) -> Option<int>
    decreases places.len() - i,
{
    if i < 0 || i >= places.len() {
        None
    } else if vms[places[i]].vm_id == vm_id {
        Some(i)
    } else {
        place_from(vms, places, vm_id, i + 1)
    }
}

/// The VM that runs next on the CPU with this affinity: the VMs of a CPU run in turn. `None` where
/// the current one is its only one.
pub open spec fn next_vcpu(vms: Seq<VM>, vm_id: int, affinity: u64) -> Option<int> {
    let places = vcpus_of(vms, affinity, vms.len());
    if places.len() <= 1 {
        None
    } else {
        match place_from(vms, places, vm_id, 0) {
            Some(i) => Some(places[(i + 1) % (places.len() as int)]),
            None => None,
        }
    }
}

impl VmList {
    pub open spec fn wf(&self) -> bool {
        &&& self.active matches Some(i) ==> i < self.vms@.len()
        &&& forall|i: int| 0 <= i < self.vms@.len() ==> (#[trigger] self.vms@[i]).wf()
        &&& forall|i: int|
            0 <= i < self.vms@.len() ==> (#[trigger] self.vms@[i]).vm_id < self.next_vm_id
        &&& forall|i: int, j: int|
            0 <= i < j < self.vms@.len() ==> (#[trigger] self.vms@[i]).vm_id != (
            #[trigger] self.vms@[j]).vm_id
    }

    pub fn new() -> (list: Self)
        ensures
            list.wf(),
            list.vms@ == Seq::<VM>::empty(),
            list.active is None,
            list.next_vm_id == 0,
            list.next_vmid == 0,
            list.reset_el1@ == Seq::<(u64, El1Context)>::empty(),
    {
        Self { vms: Vec::new(), active: None, next_vm_id: 0, next_vmid: 0, reset_el1: Vec::new() }
    }

    /// The place of the VM with this identifier.
    pub open spec fn place_of(&self, vm_id: int) -> Option<int> {
        vm_from(self.vms@, vm_id, 0)
    }

    fn find(&self, vm_id: u64) -> (place: Option<usize>)
        ensures
            match self.place_of(vm_id as int) {
                Some(i) => place matches Some(p) && p == i && i < self.vms@.len()
                    && self.vms@[i].vm_id == vm_id,
                None => place is None,
            },
    {
        let mut i: usize = 0;
        while i < self.vms.len()
            invariant
                i <= self.vms@.len(),
                vm_from(self.vms@, vm_id as int, 0) == vm_from(self.vms@, vm_id as int, i as int),
            decreases self.vms@.len() - i,
        {
            if self.vms[i].vm_id as u64 == vm_id {
                return Some(i);
            }
            i = i + 1;
        }
        None
    }

    /// The system registers that a vCPU of the CPU with this affinity starts with: what the CPU had
    /// when it asked first. Another vCPU may have changed them since.
    pub fn reset_el1_context(&mut self, affinity: u64, current: El1Context) -> (context: El1Context)
        ensures
            context == reset_of(old(self).reset_el1@, affinity, current),
            final(self).reset_el1@ == with_reset(old(self).reset_el1@, affinity, current),
            final(self).vms == old(self).vms,
            final(self).active == old(self).active,
            final(self).next_vm_id == old(self).next_vm_id,
            final(self).next_vmid == old(self).next_vmid,
    {
        let mut i: usize = 0;
        while i < self.reset_el1.len()
            invariant
                *self == *old(self),
                i <= self.reset_el1@.len(),
                reset_from(self.reset_el1@, affinity, 0) == reset_from(
                    self.reset_el1@,
                    affinity,
                    i as int,
                ),
            decreases self.reset_el1@.len() - i,
        {
            if self.reset_el1[i].0 == affinity {
                return self.reset_el1[i].1;
            }
            i = i + 1;
        }
        self.reset_el1.push((affinity, current));
        current
    }

    /// The next VMID. There are 256 of them, so they come again.
    pub fn allocate_vmid(&mut self) -> (vmid: u64)
        ensures
            vmid == old(self).next_vmid % 256,
            *final(self) == (VmList {
                next_vmid: old(self).next_vmid.wrapping_add(1),
                ..*old(self)
            }),
    {
        let vmid: u64 = (self.next_vmid % 256) as u64;
        self.next_vmid = self.next_vmid.wrapping_add(1);
        vmid
    }
}

/// The place of the VM that runs on the CPU with this TPIDR_EL2.
pub fn get_current_vm(list: &VmList, tpidr_el2: u64) -> (place: Option<usize>)
    ensures
        match list.place_of(tpidr_el2 as int) {
            Some(i) => place matches Some(p) && p == i && i < list.vms@.len() && list.vms@[i].vm_id
                == tpidr_el2,
            None => place is None,
        },
{
    list.find(tpidr_el2)
}

/// The place of the VM that the UART input goes to.
pub fn get_active_vm(list: &VmList) -> (place: Option<usize>)
    ensures
        place == list.active,
{
    list.active
}

/// Directs the UART input to the VM with this identifier. `false` where there is none.
pub fn switch_active_vm(list: &mut VmList, vm_id: usize) -> (switched: bool)
    requires
        old(list).wf(),
    ensures
        final(list).wf(),
        switched == (old(list).place_of(vm_id as int) is Some),
        *final(list) == match old(list).place_of(vm_id as int) {
            Some(i) => VmList { active: Some(i as usize), ..*old(list) },
            None => *old(list),
        },
{
    match list.find(vm_id as u64) {
        Some(i) => {
            list.active = Some(i);
            true
        },
        None => false,
    }
}

/// A byte has arrived for the active VM.
pub fn input_uart(list: &mut VmList, c: u8, cpu: &mut CpuInterface)
    requires
        old(list).wf(),
        old(list).active is Some,
    ensures
        final(list).wf(),
        ({
            let i = old(list).active->0 as int;
            let vm = old(list).vms@[i];
            let after = final(list).vms@[i];
            &&& final(list).active == old(list).active
            &&& final(list).next_vm_id == old(list).next_vm_id
            &&& final(list).next_vmid == old(list).next_vmid
            &&& final(list).reset_el1 == old(list).reset_el1
            &&& final(list).vms@ == old(list).vms@.update(i, after)
            &&& after.same_but_devices(vm)
            &&& after.virtio_net_mmio == vm.virtio_net_mmio
            &&& after.pl011_mmio@ == vm.pl011_mmio@.received(c)
            &&& (after.gic_distributor_mmio@, final(cpu)@) == if vm.pl011_mmio@.interrupts() {
                let raised = vm.gic_distributor_mmio@.triggered(
                    old(cpu)@,
                    33,
                    None,
                    vm.gic_distributor_mmio.own_target,
                    0,
                    false,
                );
                (raised.0, raised.1)
            } else {
                (vm.gic_distributor_mmio@, old(cpu)@)
            }
        }),
{
    if let Some(i) = list.active {
        let vm: &mut VM = &mut list.vms[i];
        vm.pl011_mmio.push(c, &mut vm.gic_distributor_mmio, cpu);
    }
}

/// A frame has arrived for the VM that runs on the CPU with this TPIDR_EL2. `false` where there is
/// none, or its queue is not usable.
pub fn input_net_packet(
    list: &mut VmList,
    tpidr_el2: u64,
    data: &[u8],
    ram: &mut GuestRam,
    cpu: &mut CpuInterface,
) -> (delivered: bool)
    requires
        old(list).wf(),
        old(ram)@.valid(),
    ensures
        final(list).wf(),
        match old(list).place_of(tpidr_el2 as int) {
            Some(i) => {
                let vm = old(list).vms@[i];
                let after = final(list).vms@[i];
                let queue = vm.virtio_net_mmio.device@.queues[0];
                &&& delivered == queue.is_usable()
                &&& if queue.is_usable() {
                    let (rest, memory) = crate::mmio::virtio_net::rx_delivered(
                        queue,
                        old(ram)@,
                        data@,
                    );
                    let device = vm.virtio_net_mmio.device@.with_queue(0, rest);
                    &&& final(list).active == old(list).active
                    &&& final(list).next_vm_id == old(list).next_vm_id
                    &&& final(list).next_vmid == old(list).next_vmid
                    &&& final(list).reset_el1 == old(list).reset_el1
                    &&& final(list).vms@ == old(list).vms@.update(i, after)
                    &&& after.same_but_devices(vm)
                    &&& after.pl011_mmio == vm.pl011_mmio
                    &&& after.virtio_net_mmio.mac == vm.virtio_net_mmio.mac
                    &&& final(ram)@ == memory
                    &&& if crate::mmio::virtio_net::rx_buffer(
                        queue,
                        old(ram)@,
                        data@.len() as int,
                    ) is Some {
                        let raised = vm.gic_distributor_mmio@.triggered(
                            old(cpu)@,
                            49,
                            None,
                            vm.gic_distributor_mmio.own_target,
                            0,
                            false,
                        );
                        &&& after.virtio_net_mmio.device@ == device.with_interrupt()
                        &&& after.gic_distributor_mmio@ == raised.0
                        &&& final(cpu)@ == raised.1
                    } else {
                        &&& after.virtio_net_mmio.device@ == device
                        &&& after.gic_distributor_mmio@ == vm.gic_distributor_mmio@
                        &&& final(cpu)@ == old(cpu)@
                    }
                } else {
                    &&& *final(list) == *old(list)
                    &&& final(ram)@ == old(ram)@
                    &&& final(cpu)@ == old(cpu)@
                }
            },
            None => {
                &&& !delivered
                &&& *final(list) == *old(list)
                &&& final(ram)@ == old(ram)@
                &&& final(cpu)@ == old(cpu)@
            },
        },
{
    let i: usize = match list.find(tpidr_el2) {
        Some(i) => i,
        None => {
            return false;
        },
    };
    let queue_size: u64 = list.vms[i].virtio_net_mmio.device.queues[0].queue_size;
    if queue_size != 0 && queue_size % 0x1_0000 == 0 {
        return false;
    }
    let vm: &mut VM = &mut list.vms[i];
    vm.virtio_net_mmio.push_rx(ram, data, &mut vm.gic_distributor_mmio, cpu);
    true
}

/// What has to be put into the hardware, so that the CPU goes on with another vCPU.
#[derive(Clone, Copy, PartialEq, Eq, Debug)]
pub struct VcpuSwitch {
    pub elr_el2: u64,
    pub spsr_el2: u64,
    pub gich_lr: [u32; 4],
    pub el1: El1Context,
    pub vttbr_el2: u64,
    pub tpidr_el2: u64,
}

/// What resumes a vCPU.
pub open spec fn resumption(vm: VM) -> VcpuSwitch {
    VcpuSwitch {
        elr_el2: vm.context.elr_el2,
        spsr_el2: vm.context.spsr_el2,
        gich_lr: vm.context.gich_lr,
        el1: vm.context.el1,
        vttbr_el2: vttbr_of(vm.stage2_table.address, vm.vmid),
        tpidr_el2: vm.vm_id as u64,
    }
}

/// The value of VTTBR_EL2 that makes a translation table live.
pub open spec fn vttbr_of(table_address: u64, vmid: u64) -> u64 {
    ((vmid << 48u64) & 0x00FF_0000_0000_0000) | (table_address & 0x7FFF_FFFF_FFFE)
}

/// Resumes the vCPU at this place.
fn resume(list: &mut VmList, place: usize, registers: &mut Registers) -> (switch: VcpuSwitch)
    requires
        old(list).wf(),
        place < old(list).vms@.len(),
    ensures
        final(list).wf(),
        *final(list) == (VmList { active: Some(place), ..*old(list) }),
        final(registers)@ == old(list).vms@[place as int].context.regs@,
        switch == resumption(old(list).vms@[place as int]),
{
    let vm: &VM = &list.vms[place];
    let (elr_el2, spsr_el2, gich_lr, el1): (u64, u64, [u32; 4], El1Context) = vm.restore_context(
        registers,
    );
    let switch: VcpuSwitch = VcpuSwitch {
        elr_el2,
        spsr_el2,
        gich_lr,
        el1,
        vttbr_el2: activate_stage2_translation_table(vm.stage2_table.address, vm.vmid),
        tpidr_el2: vm.vm_id as u64,
    };
    list.active = Some(place);
    switch
}

/// The place of the vCPU that runs next on the CPU with this affinity.
fn find_next_same_affinity_vcpu(list: &VmList, vm_id: u64, affinity: u64) -> (next: Option<usize>)
    ensures
        match next_vcpu(list.vms@, vm_id as int, affinity) {
            Some(i) => next matches Some(n) && n == i && i < list.vms@.len(),
            None => next is None,
        },
{
    let mut places: Vec<usize> = Vec::new();
    let mut i: usize = 0;
    while i < list.vms.len()
        invariant
            i <= list.vms@.len(),
            places@.len() == vcpus_of(list.vms@, affinity, i as nat).len(),
            forall|k: int|
                0 <= k < places@.len() ==> #[trigger] places@[k] == vcpus_of(
                    list.vms@,
                    affinity,
                    i as nat,
                )[k] && places@[k] < list.vms@.len(),
        decreases list.vms@.len() - i,
    {
        if list.vms[i].owner_affinity == affinity {
            places.push(i);
        }
        i = i + 1;
    }
    if places.len() <= 1 {
        return None;
    }
    let ghost all = vcpus_of(list.vms@, affinity, list.vms@.len());
    let mut k: usize = 0;
    while k < places.len()
        invariant
            k <= places@.len(),
            1 < places@.len(),
            places@.len() == all.len(),
            all == vcpus_of(list.vms@, affinity, list.vms@.len()),
            forall|k: int|
                0 <= k < places@.len() ==> #[trigger] places@[k] == all[k] && places@[k]
                    < list.vms@.len(),
            place_from(list.vms@, all, vm_id as int, 0) == place_from(
                list.vms@,
                all,
                vm_id as int,
                k as int,
            ),
        decreases places@.len() - k,
    {
        let place: usize = places[k];
        if list.vms[place].vm_id as u64 == vm_id {
            let next: usize = if k + 1 < places.len() {
                k + 1
            } else {
                0
            };
            proof {
                lemma_turn(k as int, all.len() as int);
            }
            return Some(places[next]);
        }
        k = k + 1;
    }
    None
}

/// The state of the CPU that a trapped vCPU leaves.
#[derive(Clone, Copy, PartialEq, Eq, Debug)]
pub struct TrappedCpu {
    pub mpidr_el1: u64,
    pub tpidr_el2: u64,
    pub elr_el2: u64,
    pub spsr_el2: u64,
    pub gich_lr: [u32; 4],
    pub el1: El1Context,
}

/// The vCPU that trapped was saved, to be resumed behind the instruction that trapped, and the CPU
/// has gone on with the one at `next`.
pub open spec fn yielded(
    before: VmList,
    after: VmList,
    trapped: TrappedCpu,
    registers: Seq<u64>,
    next: int,
) -> bool {
    let i = before.place_of(trapped.tpidr_el2 as int)->0;
    let saved = after.vms@[i];
    &&& before.place_of(trapped.tpidr_el2 as int) is Some
    &&& after.vms@ == before.vms@.update(i, saved)
    &&& after.active == Some(next as usize)
    &&& after.next_vm_id == before.next_vm_id
    &&& after.next_vmid == before.next_vmid
    &&& after.reset_el1 == before.reset_el1
    &&& saved.same_but_context(before.vms@[i])
    &&& saved.context.regs@ == registers
    &&& saved.context.elr_el2 == trapped.elr_el2.wrapping_add(4)
    &&& saved.context.spsr_el2 == trapped.spsr_el2
    &&& saved.context.gich_lr == trapped.gich_lr
    &&& saved.context.el1 == trapped.el1
}

/// Switches the CPU from the vCPU that waits to the next one of this CPU, if there is another. The
/// trap frame then holds the registers of the next one.
///
/// The vCPU that waits will be resumed behind the instruction that trapped. It must not be advanced
/// again.
pub fn try_yield_to_next_vcpu(list: &mut VmList, trapped: &TrappedCpu, registers: &mut Registers) -> (switch:
    Option<VcpuSwitch>)
    requires
        old(list).wf(),
        old(list).place_of(trapped.tpidr_el2 as int) is Some,
    ensures
        final(list).wf(),
        ({
            let i = old(list).place_of(trapped.tpidr_el2 as int)->0;
            match next_vcpu(
                old(list).vms@,
                trapped.tpidr_el2 as int,
                crate::cpu::affinity_of(trapped.mpidr_el1),
            ) {
                Some(next) => {
                    &&& next != i
                    &&& yielded(*old(list), *final(list), *trapped, old(registers)@, next)
                    &&& switch == Some(resumption(old(list).vms@[next]))
                    &&& final(registers)@ == old(list).vms@[next].context.regs@
                },
                None => {
                    &&& switch is None
                    &&& *final(list) == *old(list)
                    &&& final(registers)@ == old(registers)@
                },
            }
        }),
{
    let affinity: u64 = mpidr_to_affinity(trapped.mpidr_el1);
    let current: usize = match list.find(trapped.tpidr_el2) {
        Some(current) => current,
        None => {
            return None;
        },
    };
    let next: usize = match find_next_same_affinity_vcpu(list, trapped.tpidr_el2, affinity) {
        Some(next) => next,
        None => {
            return None;
        },
    };
    proof {
        lemma_next_is_another(list.vms@, trapped.tpidr_el2 as int, affinity);
    }
    let ghost before = *list;
    /* Behind the instruction that trapped, or it would trap forever. */
    list.vms[current].save_context(
        registers,
        advance_elr_el2(trapped.elr_el2),
        trapped.spsr_el2,
        trapped.gich_lr,
        trapped.el1,
    );
    assert(list.wf()) by {
        assert(forall|k: int|
            0 <= k < before.vms@.len() ==> (#[trigger] list.vms@[k]).vm_id
                == before.vms@[k].vm_id);
    }
    Some(resume(list, next, registers))
}

/// The first VM from `i` on that belongs to the CPU with this affinity and has another identifier.
pub open spec fn other_from(vms: Seq<VM>, vm_id: int, affinity: u64, i: int) -> Option<int>
    decreases vms.len() - i,
{
    if i < 0 || i >= vms.len() {
        None
    } else if vms[i].owner_affinity == affinity && vms[i].vm_id != vm_id {
        Some(i)
    } else {
        other_from(vms, vm_id, affinity, i + 1)
    }
}

/// Switches the CPU with this affinity from a vCPU that retires to another one that is queued on
/// it, if there is one. The VM that retires stays in the list: its other vCPUs may still run.
pub fn switch_to_other_vcpu_on_retire(
    list: &mut VmList,
    retiring_vm_id: u64,
    affinity: u64,
    registers: &mut Registers,
) -> (switch: Option<VcpuSwitch>)
    requires
        old(list).wf(),
    ensures
        final(list).wf(),
        match other_from(old(list).vms@, retiring_vm_id as int, affinity, 0) {
            Some(other) => {
                &&& switch == Some(resumption(old(list).vms@[other]))
                &&& final(registers)@ == old(list).vms@[other].context.regs@
                &&& *final(list) == (VmList { active: Some(other as usize), ..*old(list) })
            },
            None => {
                &&& switch is None
                &&& *final(list) == *old(list)
                &&& final(registers)@ == old(registers)@
            },
        },
{
    let mut i: usize = 0;
    while i < list.vms.len()
        invariant
            i <= list.vms@.len(),
            list.wf(),
            *list == *old(list),
            *registers == *old(registers),
            other_from(list.vms@, retiring_vm_id as int, affinity, 0) == other_from(
                list.vms@,
                retiring_vm_id as int,
                affinity,
                i as int,
            ),
        decreases list.vms@.len() - i,
    {
        if list.vms[i].owner_affinity == affinity && list.vms[i].vm_id as u64 != retiring_vm_id {
            return Some(resume(list, i, registers));
        }
        i = i + 1;
    }
    None
}

/// The places of the VMs of a CPU ascend, and hold exactly its VMs.
pub proof fn lemma_vcpus_of(vms: Seq<VM>, affinity: u64, n: nat)
    requires
        n <= vms.len(),
    ensures
        ({
            let places = vcpus_of(vms, affinity, n);
            &&& forall|k: int|
                0 <= k < places.len() ==> 0 <= #[trigger] places[k] < n
                    && vms[places[k]].owner_affinity == affinity
            &&& forall|j: int, k: int|
                0 <= j < k < places.len() ==> #[trigger] places[j] < #[trigger] places[k]
            &&& forall|i: int|
                0 <= i < n && (#[trigger] vms[i]).owner_affinity == affinity ==> places.contains(i)
        }),
    decreases n,
{
    if n > 0 {
        lemma_vcpus_of(vms, affinity, (n - 1) as nat);
        let rest = vcpus_of(vms, affinity, (n - 1) as nat);
        let places = vcpus_of(vms, affinity, n);
        assert forall|i: int| 0 <= i < n && (#[trigger] vms[i]).owner_affinity
            == affinity implies places.contains(i) by {
            if i < n - 1 {
                let k = rest.index_of(i);
                assert(places[k] == i);
            } else {
                assert(places[places.len() - 1] == i);
            }
        }
    }
}

/// What `place_from` finds.
pub proof fn lemma_place_from(vms: Seq<VM>, places: Seq<int>, vm_id: int, from: int)
    requires
        0 <= from <= places.len(),
    ensures
        match place_from(vms, places, vm_id, from) {
            Some(i) => {
                &&& from <= i < places.len()
                &&& vms[places[i]].vm_id == vm_id
            },
            None => forall|i: int|
                from <= i < places.len() ==> vms[#[trigger] places[i]].vm_id != vm_id,
        },
    decreases places.len() - from,
{
    if from < places.len() && vms[places[from]].vm_id != vm_id {
        lemma_place_from(vms, places, vm_id, from + 1);
    }
}

/// What `vm_from` finds.
pub proof fn lemma_vm_from(vms: Seq<VM>, vm_id: int, from: int)
    requires
        0 <= from <= vms.len(),
    ensures
        match vm_from(vms, vm_id, from) {
            Some(i) => from <= i < vms.len() && vms[i].vm_id == vm_id,
            None => forall|i: int| from <= i < vms.len() ==> (#[trigger] vms[i]).vm_id != vm_id,
        },
    decreases vms.len() - from,
{
    if from < vms.len() && vms[from].vm_id != vm_id {
        lemma_vm_from(vms, vm_id, from + 1);
    }
}

/// What comes behind index `i` in a ring.
pub proof fn lemma_turn(i: int, length: int)
    requires
        0 <= i < length,
    ensures
        (i + 1) % length == if i + 1 < length {
            i + 1
        } else {
            0
        },
{
    if i + 1 < length {
        vstd::arithmetic::div_mod::lemma_small_mod((i + 1) as nat, length as nat);
    } else {
        vstd::arithmetic::div_mod::lemma_mod_self_0(length);
    }
}

/// What `reset_from` finds in a longer list.
proof fn lemma_reset_from(
    contexts: Seq<(u64, El1Context)>,
    affinity: u64,
    i: int,
    last: (u64, El1Context),
)
    requires
        0 <= i <= contexts.len(),
    ensures
        reset_from(contexts.push(last), affinity, i) == match reset_from(contexts, affinity, i) {
            Some(reset) => Some(reset),
            None => if last.0 == affinity {
                Some(last.1)
            } else {
                None
            },
        },
    decreases contexts.len() - i,
{
    let longer = contexts.push(last);
    if i < contexts.len() {
        assert(longer[i] == contexts[i]);
        if contexts[i].0 != affinity {
            lemma_reset_from(contexts, affinity, i + 1, last);
        }
    } else {
        assert(longer[i] == last);
        assert(reset_from(longer, affinity, i + 1) is None);
    }
}

/// All the vCPUs of a CPU start with the same system registers, whatever runs on it in between, and
/// those of another CPU do not change them.
pub proof fn cpu_keeps_its_reset_registers(
    contexts: Seq<(u64, El1Context)>,
    affinity: u64,
    current: El1Context,
    other: u64,
    later: El1Context,
)
    ensures
        reset_of(with_reset(contexts, affinity, current), affinity, later) == reset_of(
            contexts,
            affinity,
            current,
        ),
        other != affinity ==> reset_of(with_reset(contexts, affinity, current), other, later)
            == reset_of(contexts, other, later),
{
    lemma_reset_from(contexts, affinity, 0, (affinity, current));
    lemma_reset_from(contexts, other, 0, (affinity, current));
}

/// No two VMs have one identifier.
pub open spec fn are_distinct(vms: Seq<VM>) -> bool {
    forall|i: int, j: int|
        0 <= i < j < vms.len() ==> (#[trigger] vms[i]).vm_id != (#[trigger] vms[j]).vm_id
}

/// The next vCPU is another one than the current.
proof fn lemma_next_is_another(vms: Seq<VM>, vm_id: int, affinity: u64)
    requires
        are_distinct(vms),
        next_vcpu(vms, vm_id, affinity) is Some,
    ensures
        vms[next_vcpu(vms, vm_id, affinity)->0].vm_id != vm_id,
        0 <= next_vcpu(vms, vm_id, affinity)->0 < vms.len(),
{
    let places = vcpus_of(vms, affinity, vms.len());
    lemma_vcpus_of(vms, affinity, vms.len());
    lemma_place_from(vms, places, vm_id, 0);
    let i = place_from(vms, places, vm_id, 0)->0;
    let k = (i + 1) % (places.len() as int);
    lemma_turn(i, places.len() as int);
    if k < i {
        assert(places[k] < places[i]);
    } else {
        assert(places[i] < places[k]);
    }
}

/// The vCPU that runs after `n` yields.
pub open spec fn after_yields(vms: Seq<VM>, place: int, affinity: u64, n: nat) -> Option<int>
    decreases n,
{
    if n == 0 {
        Some(place)
    } else {
        match after_yields(vms, place, affinity, (n - 1) as nat) {
            Some(i) => next_vcpu(vms, vms[i].vm_id as int, affinity),
            None => None,
        }
    }
}

/// Every vCPU of a CPU gets its turn: those of a CPU with more than one of them run round-robin, in
/// the order in which they were created.
pub proof fn every_vcpu_gets_its_turn(vms: Seq<VM>, affinity: u64, k: int, n: nat)
    requires
        are_distinct(vms),
        vcpus_of(vms, affinity, vms.len()).len() > 1,
        0 <= k < vcpus_of(vms, affinity, vms.len()).len(),
    ensures
        ({
            let places = vcpus_of(vms, affinity, vms.len());
            after_yields(vms, places[k], affinity, n) == Some(
                places[(k + n) % (places.len() as int)],
            )
        }),
    decreases n,
{
    let places = vcpus_of(vms, affinity, vms.len());
    let length = places.len() as int;
    if n > 0 {
        every_vcpu_gets_its_turn(vms, affinity, k, (n - 1) as nat);
        lemma_vcpus_of(vms, affinity, vms.len());
        let j = (k + n - 1) % length;
        let vm_id = vms[places[j]].vm_id as int;
        lemma_place_from(vms, places, vm_id, 0);
        if place_from(vms, places, vm_id, 0) is None {
            assert(vms[places[j]].vm_id != vm_id);
        }
        let i = place_from(vms, places, vm_id, 0)->0;
        if i < j {
            assert(places[i] < places[j]);
        } else if j < i {
            assert(places[j] < places[i]);
        }
        assert(i == j);
        vstd::arithmetic::div_mod::lemma_add_mod_noop(k + n - 1, 1, length);
        vstd::arithmetic::div_mod::lemma_small_mod(1, length as nat);
        vstd::arithmetic::div_mod::lemma_mod_twice(k + n - 1, length);
        vstd::arithmetic::div_mod::lemma_add_mod_noop(j, 1, length);
    } else {
        vstd::arithmetic::div_mod::lemma_small_mod(k as nat, length as nat);
    }
}

/// A yield changes neither the identifiers nor the CPUs of the VMs, so the turns stay as they are.
pub proof fn turns_survive_a_yield(before: Seq<VM>, after: Seq<VM>, vm_id: int, affinity: u64)
    requires
        before.len() == after.len(),
        forall|i: int|
            0 <= i < before.len() ==> {
                &&& (#[trigger] after[i]).vm_id == before[i].vm_id
                &&& after[i].owner_affinity == before[i].owner_affinity
            },
    ensures
        next_vcpu(after, vm_id, affinity) == next_vcpu(before, vm_id, affinity),
{
    lemma_same_vcpus(before, after, affinity, before.len());
    let places = vcpus_of(before, affinity, before.len());
    lemma_vcpus_of(before, affinity, before.len());
    lemma_same_place(before, after, places, vm_id, 0);
}

proof fn lemma_same_vcpus(before: Seq<VM>, after: Seq<VM>, affinity: u64, n: nat)
    requires
        n <= before.len(),
        before.len() == after.len(),
        forall|i: int|
            0 <= i < before.len() ==> (#[trigger] after[i]).owner_affinity
                == before[i].owner_affinity,
    ensures
        vcpus_of(after, affinity, n) == vcpus_of(before, affinity, n),
    decreases n,
{
    if n > 0 {
        lemma_same_vcpus(before, after, affinity, (n - 1) as nat);
        assert(after[n - 1].owner_affinity == before[n - 1].owner_affinity);
    }
}

proof fn lemma_same_place(
    before: Seq<VM>,
    after: Seq<VM>,
    places: Seq<int>,
    vm_id: int,
    from: int,
)
    requires
        0 <= from <= places.len(),
        before.len() == after.len(),
        forall|k: int| 0 <= k < places.len() ==> 0 <= #[trigger] places[k] < before.len(),
        forall|i: int| 0 <= i < before.len() ==> (#[trigger] after[i]).vm_id == before[i].vm_id,
    ensures
        place_from(after, places, vm_id, from) == place_from(before, places, vm_id, from),
    decreases places.len() - from,
{
    if from < places.len() {
        assert(0 <= places[from] < before.len());
        assert(after[places[from]].vm_id == before[places[from]].vm_id);
        lemma_same_place(before, after, places, vm_id, from + 1);
    }
}

/// A vCPU that yielded goes on as it was, behind the instruction that trapped, when its turn comes
/// again: however many other vCPUs yield in between, it is resumed with the registers that it had.
pub proof fn yielded_vcpu_goes_on(
    lists: Seq<VmList>,
    traps: Seq<TrappedCpu>,
    frames: Seq<Seq<u64>>,
    nexts: Seq<int>,
)
    requires
        traps.len() > 0,
        lists.len() == traps.len() + 1,
        forall|k: int|
            0 <= k < traps.len() ==> yielded(
                lists[k],
                lists[k + 1],
                #[trigger] traps[k],
                frames[k],
                nexts[k],
            ),
        forall|k: int|
            0 < k < traps.len() ==> (#[trigger] traps[k]).tpidr_el2 != traps[0].tpidr_el2,
    ensures
        ({
            let i = lists[0].place_of(traps[0].tpidr_el2 as int)->0;
            let vm = lists.last().vms@[i];
            let switch = resumption(vm);
            &&& 0 <= i < lists.last().vms@.len()
            &&& vm.context.regs@ == frames[0]
            &&& switch.elr_el2 == traps[0].elr_el2.wrapping_add(4)
            &&& switch.spsr_el2 == traps[0].spsr_el2
            &&& switch.gich_lr == traps[0].gich_lr
            &&& switch.el1 == traps[0].el1
            &&& switch.tpidr_el2 == traps[0].tpidr_el2
            &&& vm.stage2_table == lists[0].vms@[i].stage2_table
        }),
    decreases traps.len(),
{
    let i = lists[0].place_of(traps[0].tpidr_el2 as int)->0;
    let last = traps.len() - 1;
    assert(yielded(lists[0], lists[1], traps[0], frames[0], nexts[0]));
    lemma_vm_from(lists[0].vms@, traps[0].tpidr_el2 as int, 0);
    if last > 0 {
        let earlier = lists.drop_last();
        let traps_before = traps.drop_last();
        assert forall|k: int| 0 <= k < traps_before.len() implies yielded(
            earlier[k],
            earlier[k + 1],
            #[trigger] traps_before[k],
            frames[k],
            nexts[k],
        ) by {
            assert(yielded(lists[k], lists[k + 1], traps[k], frames[k], nexts[k]));
        }
        yielded_vcpu_goes_on(earlier, traps_before, frames, nexts);
        assert(yielded(lists[last], lists[last + 1], traps[last], frames[last], nexts[last]));
        let other = lists[last].place_of(traps[last].tpidr_el2 as int)->0;
        lemma_vm_from(lists[last].vms@, traps[last].tpidr_el2 as int, 0);
        assert(earlier.last() == lists[last]);
        assert(lists[last].vms@[i].vm_id == traps[0].tpidr_el2);
        assert(other != i);
    }
}

/// VMIDs of two VMs differ as long as fewer than 256 were given out from the first to the second.
pub proof fn vmids_differ(first: usize, second: usize)
    requires
        first < second < first + 256,
    ensures
        first % 256 != second % 256,
{
}

} // verus!
