//! The vCPUs of a guest on further CPUs.

use crate::cpu::mpidr_to_affinity;
use crate::exception::Registers;
use crate::memory_allocator::MemoryAllocator;
use crate::memory::{STACK_PAGES, STACK_SIZE};
use crate::psci::{
    PsciErrorCodes, PSCI_CPU_OFF, PSCI_CPU_ON, PSCI_SYSTEM_OFF, PSCI_SYSTEM_RESET, PSCI_VERSION,
};
use crate::vm_list::{switch_to_other_vcpu_on_retire, VcpuSwitch, VmList};
use vstd::prelude::*;

verus! {

pub const PSCI_SUCCESS: u64 = 0;

/// -4, as a 32-bit number.
pub const PSCI_ALREADY_ON: u64 = 0xFFFF_FFFC;

/// -1, as a 64-bit number.
pub const PSCI_NOT_SUPPORTED: u64 = 0xFFFF_FFFF_FFFF_FFFF;

/// PSCI version 0.2.
pub const EMULATED_PSCI_VERSION: u64 = 2;

/// What a CPU that is parked is asked to run.
#[derive(Clone, Copy, PartialEq, Eq, Debug, Structural)]
pub struct SmpLaunchRequest {
    /// The VM that it joins.
    pub vm_id: u64,
    pub entry_point: u64,
    pub context_id: u64,
}

/// The CPUs beside the first one. A CPU is named by its affinity.
pub struct SmpCpus {
    /// The CPUs that are parked, in the order in which they were.
    pub parked: Vec<u64>,
    /// What CPUs that were parked are to run.
    pub launches: Vec<(u64, SmpLaunchRequest)>,
    /// The tops of the CPUs' stacks.
    pub stack_tops: Vec<(u64, u64)>,
}

/// The first parked CPU from `i` on with this affinity.
pub open spec fn parked_from(parked: Seq<u64>, affinity: u64, i: int) -> Option<int>
    decreases parked.len() - i,
{
    if i < 0 || i >= parked.len() {
        None
    } else if parked[i] == affinity {
        Some(i)
    } else {
        parked_from(parked, affinity, i + 1)
    }
}

/// The first launch from `i` on for the CPU with this affinity.
pub open spec fn launch_from(
    launches: Seq<(u64, SmpLaunchRequest)>,
    affinity: u64,
    i: int,
) -> Option<int>
    decreases launches.len() - i,
{
    if i < 0 || i >= launches.len() {
        None
    } else if launches[i].0 == affinity {
        Some(i)
    } else {
        launch_from(launches, affinity, i + 1)
    }
}

/// The first stack from `i` on of the CPU with this affinity.
pub open spec fn stack_from(stacks: Seq<(u64, u64)>, affinity: u64, i: int) -> Option<u64>
    decreases stacks.len() - i,
{
    if i < 0 || i >= stacks.len() {
        None
    } else if stacks[i].0 == affinity {
        Some(stacks[i].1)
    } else {
        stack_from(stacks, affinity, i + 1)
    }
}

/// What a CPU_ON call of a guest returns, and which parked CPU it takes.
pub open spec fn cpu_on_result(parked: Seq<u64>, target_cpu: u64) -> (u64, Option<int>) {
    match parked_from(parked, crate::cpu::affinity_of(target_cpu), 0) {
        Some(i) => (PSCI_SUCCESS, Some(i)),
        None => (PSCI_ALREADY_ON, None),
    }
}

impl SmpCpus {
    pub fn new() -> (cpus: Self)
        ensures
            cpus.parked@ == Seq::<u64>::empty(),
            cpus.launches@ == Seq::<(u64, SmpLaunchRequest)>::empty(),
            cpus.stack_tops@ == Seq::<(u64, u64)>::empty(),
    {
        Self { parked: Vec::new(), launches: Vec::new(), stack_tops: Vec::new() }
    }

    /// The CPU with this affinity is available from now on.
    pub fn park(&mut self, affinity: u64)
        ensures
            final(self).parked@ == old(self).parked@.push(affinity),
            final(self).launches@ == old(self).launches@,
            final(self).stack_tops@ == old(self).stack_tops@,
    {
        self.parked.push(affinity);
    }

    /// What the CPU with this affinity is to run, if there is something by now.
    pub fn take_launch(&mut self, affinity: u64) -> (request: Option<SmpLaunchRequest>)
        ensures
            final(self).parked@ == old(self).parked@,
            final(self).stack_tops@ == old(self).stack_tops@,
            match launch_from(old(self).launches@, affinity, 0) {
                Some(i) => {
                    &&& request == Some(old(self).launches@[i].1)
                    &&& final(self).launches@ == old(self).launches@.remove(i)
                },
                None => request is None && final(self).launches@ == old(self).launches@,
            },
    {
        let mut i: usize = 0;
        while i < self.launches.len()
            invariant
                i <= self.launches@.len(),
                *self == *old(self),
                launch_from(self.launches@, affinity, 0) == launch_from(
                    self.launches@,
                    affinity,
                    i as int,
                ),
            decreases self.launches@.len() - i,
        {
            if self.launches[i].0 == affinity {
                let (_, request): (u64, SmpLaunchRequest) = self.launches.remove(i);
                return Some(request);
            }
            i = i + 1;
        }
        None
    }

    /// Serves the CPU_ON call of a guest: hands what it asks for to the parked CPU that it names.
    /// A CPU that is not parked is running already, or does not exist.
    pub fn handle_guest_cpu_on(
        &mut self,
        target_cpu: u64,
        entry_point: u64,
        context_id: u64,
        vm_id: u64,
    ) -> (code: u64)
        ensures
            final(self).stack_tops@ == old(self).stack_tops@,
            code == cpu_on_result(old(self).parked@, target_cpu).0,
            match cpu_on_result(old(self).parked@, target_cpu).1 {
                Some(i) => {
                    &&& final(self).parked@ == old(self).parked@.remove(i)
                    &&& final(self).launches@ == old(self).launches@.push(
                        (
                            crate::cpu::affinity_of(target_cpu),
                            SmpLaunchRequest { vm_id, entry_point, context_id },
                        ),
                    )
                },
                None => {
                    &&& final(self).parked@ == old(self).parked@
                    &&& final(self).launches@ == old(self).launches@
                },
            },
    {
        let affinity: u64 = mpidr_to_affinity(target_cpu);
        let mut i: usize = 0;
        while i < self.parked.len()
            invariant
                i <= self.parked@.len(),
                *self == *old(self),
                affinity == crate::cpu::affinity_of(target_cpu),
                parked_from(self.parked@, affinity, 0) == parked_from(
                    self.parked@,
                    affinity,
                    i as int,
                ),
            decreases self.parked@.len() - i,
        {
            if self.parked[i] == affinity {
                let _ = self.parked.remove(i);
                self.launches.push((affinity, SmpLaunchRequest { vm_id, entry_point, context_id }));
                return PSCI_SUCCESS;
            }
            i = i + 1;
        }
        PSCI_ALREADY_ON
    }

    /// The top of the stack of the CPU with this affinity, which is parked again.
    pub fn stack_top(&self, affinity: u64) -> (top: Option<u64>)
        ensures
            top == stack_from(self.stack_tops@, affinity, 0),
    {
        let mut i: usize = 0;
        while i < self.stack_tops.len()
            invariant
                i <= self.stack_tops@.len(),
                stack_from(self.stack_tops@, affinity, 0) == stack_from(
                    self.stack_tops@,
                    affinity,
                    i as int,
                ),
            decreases self.stack_tops@.len() - i,
        {
            let (owner, top): (u64, u64) = self.stack_tops[i];
            if owner == affinity {
                return Some(top);
            }
            i = i + 1;
        }
        None
    }
}

/// A CPU that was parked once is given out once: the next CPU_ON call for it is told that it is on.
pub proof fn cpu_is_given_out_once(parked: Seq<u64>, target_cpu: u64)
    requires
        parked.no_duplicates(),
        cpu_on_result(parked, target_cpu).1 is Some,
    ensures
        ({
            let rest = parked.remove(cpu_on_result(parked, target_cpu).1->0);
            &&& cpu_on_result(rest, target_cpu) == (PSCI_ALREADY_ON, None::<int>)
            &&& rest.no_duplicates()
        }),
{
    let affinity = crate::cpu::affinity_of(target_cpu);
    let i = parked_from(parked, affinity, 0)->0;
    lemma_parked_from(parked, affinity, 0);
    let rest = parked.remove(i);
    assert forall|k: int| 0 <= k < rest.len() implies #[trigger] rest[k] != affinity by {
        assert(rest[k] == parked[if k < i {
            k
        } else {
            k + 1
        }]);
    }
    lemma_parked_from(rest, affinity, 0);
    assert forall|j: int, k: int| 0 <= j < rest.len() && 0 <= k < rest.len() && j != k implies rest[j]
        != rest[k] by {
        assert(rest[j] == parked[if j < i {
            j
        } else {
            j + 1
        }]);
        assert(rest[k] == parked[if k < i {
            k
        } else {
            k + 1
        }]);
    }
}

/// A CPU gets what the CPU_ON call asked for, where nothing else waits for it.
pub proof fn launch_is_received(
    launches: Seq<(u64, SmpLaunchRequest)>,
    affinity: u64,
    request: SmpLaunchRequest,
)
    requires
        launch_from(launches, affinity, 0) is None,
    ensures
        ({
            let after = launches.push((affinity, request));
            &&& launch_from(after, affinity, 0) == Some(launches.len() as int)
            &&& after[launches.len() as int].1 == request
        }),
{
    lemma_pushed_launch(launches, affinity, request, 0);
}

proof fn lemma_pushed_launch(
    launches: Seq<(u64, SmpLaunchRequest)>,
    affinity: u64,
    request: SmpLaunchRequest,
    from: int,
)
    requires
        0 <= from <= launches.len(),
        launch_from(launches, affinity, from) is None,
    ensures
        launch_from(launches.push((affinity, request)), affinity, from) == Some(
            launches.len() as int,
        ),
    decreases launches.len() - from,
{
    if from < launches.len() {
        lemma_pushed_launch(launches, affinity, request, from + 1);
    }
}

/// What `parked_from` finds.
proof fn lemma_parked_from(parked: Seq<u64>, affinity: u64, from: int)
    requires
        0 <= from <= parked.len(),
    ensures
        match parked_from(parked, affinity, from) {
            Some(i) => from <= i < parked.len() && parked[i] == affinity,
            None => forall|i: int| from <= i < parked.len() ==> #[trigger] parked[i] != affinity,
        },
        (forall|i: int| from <= i < parked.len() ==> #[trigger] parked[i] != affinity)
            ==> parked_from(parked, affinity, from) is None,
    decreases parked.len() - from,
{
    if from < parked.len() && parked[from] != affinity {
        lemma_parked_from(parked, affinity, from + 1);
    }
}

/// What an SMC of a guest asks for.
#[derive(Clone, Copy, PartialEq, Eq, Debug, Structural)]
pub enum SmcAction {
    /// A vCPU is started. The guest goes on behind the instruction, with the code in x0.
    CpuOn { target_cpu: u64, entry_point: u64, context_id: u64 },
    /// This vCPU retires. It does not go on.
    CpuOff,
    /// The firmware is asked, and the guest goes on behind the instruction, with its answer in x0.
    Forward { x0: u64, x1: u64, x2: u64, x3: u64 },
    /// The guest goes on behind the instruction, with this value in x0.
    Return(u64),
    /// There is no firmware that could turn the machine off or reset it: the vCPU waits forever.
    Park,
}

/// What an SMC of a guest asks for. CPUs are started and retired by the hypervisor, for the guest's
/// own vCPUs. All else goes to the firmware, where there is one; otherwise the hypervisor stands for
/// a PSCI 0.2 that knows its version and nothing more.
pub open spec fn smc_action(registers: Seq<u64>, has_psci: bool) -> SmcAction {
    let function = registers[0];
    if function == PSCI_CPU_ON {
        SmcAction::CpuOn {
            target_cpu: registers[1],
            entry_point: registers[2],
            context_id: registers[3],
        }
    } else if function == PSCI_CPU_OFF {
        SmcAction::CpuOff
    } else if has_psci {
        SmcAction::Forward {
            x0: registers[0],
            x1: registers[1],
            x2: registers[2],
            x3: registers[3],
        }
    } else if function == PSCI_VERSION {
        SmcAction::Return(EMULATED_PSCI_VERSION)
    } else if function == PSCI_SYSTEM_OFF || function == PSCI_SYSTEM_RESET {
        SmcAction::Park
    } else {
        SmcAction::Return(PSCI_NOT_SUPPORTED)
    }
}

/// What an SMC of a guest asks for.
pub fn handle_guest_smc(registers: &Registers, has_psci: bool) -> (action: SmcAction)
    ensures
        action == smc_action(registers@, has_psci),
{
    if registers.x0 == PSCI_CPU_ON {
        SmcAction::CpuOn {
            target_cpu: registers.x1,
            entry_point: registers.x2,
            context_id: registers.x3,
        }
    } else if registers.x0 == PSCI_CPU_OFF {
        SmcAction::CpuOff
    } else if has_psci {
        SmcAction::Forward {
            x0: registers.x0,
            x1: registers.x1,
            x2: registers.x2,
            x3: registers.x3,
        }
    } else if registers.x0 == PSCI_VERSION {
        SmcAction::Return(EMULATED_PSCI_VERSION)
    } else if registers.x0 == PSCI_SYSTEM_OFF || registers.x0 == PSCI_SYSTEM_RESET {
        SmcAction::Park
    } else {
        SmcAction::Return(PSCI_NOT_SUPPORTED)
    }
}

/// What a CPU does whose vCPU retires.
#[derive(Clone, Copy, PartialEq, Eq, Debug)]
pub enum CpuOffAction {
    /// It goes on with another vCPU.
    Switch(VcpuSwitch),
    /// It is parked again, with an empty stack.
    Park { stack_top: u64 },
    /// It was never parked.
    NoStack,
}

/// Serves the CPU_OFF call of a guest: the CPU goes on with another VM that is queued on it, or is
/// parked again. The caller never goes on.
pub fn handle_guest_cpu_off(
    list: &mut VmList,
    cpus: &SmpCpus,
    tpidr_el2: u64,
    mpidr_el1: u64,
    registers: &mut Registers,
) -> (action: CpuOffAction)
    requires
        old(list).wf(),
    ensures
        final(list).wf(),
        ({
            let affinity = crate::cpu::affinity_of(mpidr_el1);
            match crate::vm_list::other_from(old(list).vms@, tpidr_el2 as int, affinity, 0) {
                Some(other) => {
                    &&& action == CpuOffAction::Switch(
                        crate::vm_list::resumption(old(list).vms@[other]),
                    )
                    &&& final(registers)@ == old(list).vms@[other].context.regs@
                    &&& *final(list) == (VmList { active: Some(other as usize), ..*old(list) })
                },
                None => {
                    &&& action == match stack_from(cpus.stack_tops@, affinity, 0) {
                        Some(stack_top) => CpuOffAction::Park { stack_top },
                        None => CpuOffAction::NoStack,
                    }
                    &&& *final(list) == *old(list)
                    &&& final(registers)@ == old(registers)@
                },
            }
        }),
{
    let affinity: u64 = mpidr_to_affinity(mpidr_el1);
    match switch_to_other_vcpu_on_retire(list, tpidr_el2, affinity, registers) {
        Some(switch) => CpuOffAction::Switch(switch),
        None => match cpus.stack_top(affinity) {
            Some(stack_top) => CpuOffAction::Park { stack_top },
            None => CpuOffAction::NoStack,
        },
    }
}

/// What the devicetree says of a CPU.
#[derive(Clone, Copy, PartialEq, Eq, Debug, Structural)]
pub struct CpuNode {
    pub affinity: Option<u64>,
    /// It is started by the spin-table protocol, not by PSCI.
    pub spin_table: bool,
    pub release_address: Option<u64>,
}

/// How a CPU is started.
#[derive(Clone, Copy, PartialEq, Eq, Debug, Structural)]
pub enum StartPlan {
    /// It is the CPU that runs, or has no affinity.
    Skip,
    /// Its release address is missing.
    NoReleaseAddress,
    /// It needs PSCI, which the machine does not have.
    NoPsci,
    SpinTable { release_address: u64 },
    Psci { affinity: u64 },
}

/// How a CPU is started, seen from the CPU with the affinity `current`.
pub open spec fn start_plan(current: u64, cpu: CpuNode, has_psci: bool) -> StartPlan {
    match cpu.affinity {
        None => StartPlan::Skip,
        Some(affinity) => if affinity == current {
            StartPlan::Skip
        } else if cpu.spin_table {
            match cpu.release_address {
                Some(release_address) => StartPlan::SpinTable { release_address },
                None => StartPlan::NoReleaseAddress,
            }
        } else if has_psci {
            StartPlan::Psci { affinity }
        } else {
            StartPlan::NoPsci
        },
    }
}

fn plan_start(current: u64, cpu: &CpuNode, has_psci: bool) -> (plan: StartPlan)
    ensures
        plan == start_plan(current, *cpu, has_psci),
{
    match cpu.affinity {
        None => StartPlan::Skip,
        Some(affinity) => if affinity == current {
            StartPlan::Skip
        } else if cpu.spin_table {
            match cpu.release_address {
                Some(release_address) => StartPlan::SpinTable { release_address },
                None => StartPlan::NoReleaseAddress,
            }
        } else if has_psci {
            StartPlan::Psci { affinity }
        } else {
            StartPlan::NoPsci
        },
    }
}

/// The stack of a CPU, and the free memory without it.
pub open spec fn stack_taken(memory: crate::free_memory::FreeMemory) -> Option<
    (int, crate::free_memory::FreeMemory),
> {
    crate::memory::pages_taken(memory, 16, 0)
}

/// The free memory once a stack was freed again.
pub open spec fn stack_freed(
    memory: crate::free_memory::FreeMemory,
    address: int,
) -> crate::free_memory::FreeMemory {
    match memory.freed(address, 0x1_0000) {
        Ok(after) => after,
        Err(_) => memory,
    }
}

/// A stack that was just allocated can be freed, and is free again then.
proof fn lemma_stack_can_be_freed(before: crate::free_memory::FreeMemory, allocator: MemoryAllocator)
    requires
        allocator.wf(),
        before.valid(),
        before.by_address.len() <= 64,
        stack_taken(before) matches Some((_, memory)) && allocator@ == memory,
    ensures
        stack_taken(before) matches Some((address, memory)) ==> {
            &&& allocator.can_free(address, 0x1_0000)
            &&& 0 <= address
            &&& address + 0x1_0000 <= usize::MAX
            &&& stack_freed(memory, address).by_address == before.by_address
        },
{
    reveal(crate::memory::pages_taken);
    crate::memory::lemma_pages_taken(before, 16, 0);
    crate::allocator_laws::allocator_is_consistent(allocator);
    crate::allocator_laws::free_undoes_allocation(before, 0x1_0000, 0, usize::MAX as int);
}

/// Prepares to park a CPU for the vCPUs of the guest: it gets a stack. Gives how it is started and
/// the top of the stack. `Err` where there is no memory for the stack. A CPU that cannot be started
/// gets none.
pub fn park_secondary_cpus_for_smp(
    allocator: &mut MemoryAllocator,
    current: u64,
    cpu: &CpuNode,
    has_psci: bool,
) -> (result: Result<(StartPlan, u64), ()>)
    requires
        old(allocator).wf(),
    ensures
        final(allocator).wf(),
        ({
            let plan = start_plan(current, *cpu, has_psci);
            if plan == StartPlan::Skip {
                &&& result == Ok::<(StartPlan, u64), ()>((plan, 0))
                &&& final(allocator)@ == old(allocator)@
            } else {
                match stack_taken(old(allocator)@) {
                    None => {
                        &&& result == Err::<(StartPlan, u64), ()>(())
                        &&& final(allocator)@ == old(allocator)@
                    },
                    Some((address, memory)) => if plan == StartPlan::NoReleaseAddress || plan
                        == StartPlan::NoPsci {
                        &&& result == Ok::<(StartPlan, u64), ()>((plan, 0))
                        &&& final(allocator)@ == stack_freed(memory, address)
                        &&& final(allocator)@.by_address == old(allocator)@.by_address
                    } else {
                        &&& result == Ok::<(StartPlan, u64), ()>(
                            (plan, (address + 0x1_0000) as u64),
                        )
                        &&& final(allocator)@ == memory
                    },
                }
            }
        }),
{
    let plan: StartPlan = plan_start(current, cpu, has_psci);
    if plan == StartPlan::Skip {
        return Ok((plan, 0));
    }
    let ghost before = allocator@;
    proof {
        crate::allocator_laws::allocator_is_consistent(*allocator);
    }
    let stack: usize = match crate::memory::try_allocate_pages(allocator, STACK_PAGES, 0) {
        Some(stack) => stack,
        None => {
            return Err(());
        },
    };
    proof {
        lemma_stack_can_be_freed(before, *allocator);
    }
    if plan == StartPlan::NoReleaseAddress || plan == StartPlan::NoPsci {
        crate::memory::free_pages(allocator, stack, STACK_PAGES);
        return Ok((plan, 0));
    }
    Ok((plan, (stack + STACK_SIZE) as u64))
}

/// The CPU with this affinity was started, or could not be. Its stack is remembered or freed.
pub fn finish_parking(
    cpus: &mut SmpCpus,
    allocator: &mut MemoryAllocator,
    affinity: u64,
    stack_top: usize,
    started: Result<(), PsciErrorCodes>,
)
    requires
        old(allocator).wf(),
        stack_top >= 0x1_0000,
        started is Err ==> old(allocator).can_free(stack_top - 0x1_0000, 0x1_0000),
    ensures
        final(allocator).wf(),
        final(cpus).parked@ == old(cpus).parked@,
        final(cpus).launches@ == old(cpus).launches@,
        match started {
            Ok(_) => {
                &&& final(cpus).stack_tops@ == old(cpus).stack_tops@.push(
                    (affinity, stack_top as u64),
                )
                &&& final(allocator)@ == old(allocator)@
            },
            Err(_) => {
                &&& final(cpus).stack_tops@ == old(cpus).stack_tops@
                &&& final(allocator)@ == stack_freed(old(allocator)@, stack_top - 0x1_0000)
            },
        },
{
    match started {
        Ok(()) => {
            cpus.stack_tops.push((affinity, stack_top as u64));
        },
        Err(_) => {
            crate::memory::free_pages(allocator, stack_top - STACK_SIZE, STACK_PAGES);
        },
    }
}

/// The first CPU from `i` on that can be started for a VM of its own.
pub open spec fn startable_from(current: u64, cpus: Seq<CpuNode>, i: int) -> Option<int>
    decreases cpus.len() - i,
{
    if i < 0 || i >= cpus.len() {
        None
    } else if start_plan(current, cpus[i], true) is SpinTable || start_plan(
        current,
        cpus[i],
        true,
    ) is Psci {
        Some(i)
    } else {
        startable_from(current, cpus, i + 1)
    }
}

/// The next CPU from `from` on that is tried for a VM of its own, and how it is started. PSCI is
/// always taken to be there. Where there is none, no VM is launched.
pub fn launch_cpu(current: u64, cpus: &[CpuNode], from: usize) -> (next: Option<(usize, StartPlan)>)
    requires
        from <= cpus@.len(),
    ensures
        match startable_from(current, cpus@, from as int) {
            Some(i) => next matches Some((n, plan)) && n == i && i < cpus@.len() && plan
                == start_plan(current, cpus@[i], true),
            None => next is None,
        },
{
    let mut i: usize = from;
    while i < cpus.len()
        invariant
            from <= i <= cpus@.len(),
            startable_from(current, cpus@, from as int) == startable_from(
                current,
                cpus@,
                i as int,
            ),
        decreases cpus@.len() - i,
    {
        let plan: StartPlan = plan_start(current, &cpus[i], true);
        match plan {
            StartPlan::SpinTable { .. } | StartPlan::Psci { .. } => {
                return Some((i, plan));
            },
            _ => {},
        }
        i = i + 1;
    }
    None
}

/// No CPU that can be started is passed over.
pub proof fn no_startable_cpu_is_passed_over(current: u64, cpus: Seq<CpuNode>, from: int, i: int)
    requires
        0 <= from <= i < cpus.len(),
        start_plan(current, cpus[i], true) is SpinTable || start_plan(current, cpus[i], true) is Psci,
    ensures
        startable_from(current, cpus, from) matches Some(next) && from <= next <= i,
    decreases i - from,
{
    if from < i {
        no_startable_cpu_is_passed_over(current, cpus, from + 1, i);
    }
}

/// What follows an attempt to start a CPU by PSCI.
#[derive(Clone, Copy, PartialEq, Eq, Debug, Structural)]
pub enum LaunchOutcome {
    Started,
    /// It is running already: the next one is tried.
    Next,
    /// It cannot be started, which is reported: the next one is tried.
    Failed(PsciErrorCodes),
}

/// What follows an attempt to start a CPU by PSCI.
pub fn launch_outcome(result: Result<(), PsciErrorCodes>) -> (outcome: LaunchOutcome)
    ensures
        outcome == match result {
            Ok(_) => LaunchOutcome::Started,
            Err(PsciErrorCodes::AlreadyOn) => LaunchOutcome::Next,
            Err(error) => LaunchOutcome::Failed(error),
        },
{
    match result {
        Ok(()) => LaunchOutcome::Started,
        Err(PsciErrorCodes::AlreadyOn) => LaunchOutcome::Next,
        Err(error) => LaunchOutcome::Failed(error),
    }
}

/// A guest never starts or retires a CPU by the firmware: such calls stay in the hypervisor.
pub proof fn cpus_are_not_left_to_the_firmware(registers: Seq<u64>, has_psci: bool)
    ensures
        smc_action(registers, has_psci) is Forward ==> has_psci && registers[0] != PSCI_CPU_ON
            && registers[0] != PSCI_CPU_OFF,
{
}

} // verus!
