//! Virtual Generic Interrupt Controller: the List Registers.

use crate::device::RegisterOp;
use crate::drivers::gicv2::{GicDistributor, GicGroup, GicHypervisorInterface};
use crate::mmio::gicv2::{Distributor, GicDistributorMmio, INJECT_INTERRUPT_INT_ID};
use vstd::prelude::*;

verus! {

pub const MAINTENANCE_INTERRUPT_INTID: u32 = 25;

pub const GICH_LR_VIRTUAL_ID: u32 = 0x3FF;

pub const GICH_LR_STATE: u32 = 0x3000_0000;

pub const GICH_LR_STATE_INACTIVE: u32 = 0;

pub const GICH_LR_STATE_PENDING: u32 = 0x1000_0000;

/// Maximum number of List Registers used by this hypervisor.
pub const NUMBER_OF_SUPPORTED_LRS: usize = 4;

/// The interrupt interface of the physical CPU that executes: what it read of its hardware
/// before, and what it has to write back and to raise afterwards.
pub struct CpuInterface {
    /// The GICv2 target bit of this CPU.
    pub target: u8,
    /// How many List Registers the hardware has.
    pub number_of_list_registers: usize,
    pub list_registers: [u32; 4],
    /// How often every List Register was occupied. Failed injections are retried, so this is not
    /// by itself an error, but a rapidly increasing count under load means that the guest
    /// consumes virtual interrupts more slowly than they arrive.
    pub overflow_count: u64,
    /// The CPUs that have to be prodded, by their target bits.
    pub sgi_targets: Vec<u8>,
}

/// The interrupt interface of a CPU.
#[verifier::ext_equal]
pub struct CpuModel {
    pub target: u8,
    pub count: nat,
    pub list_registers: Seq<u32>,
    pub overflow_count: u64,
    pub sgi_targets: Seq<u8>,
}

/// The List Register holds an interrupt.
pub open spec fn is_occupied(register: u32) -> bool {
    register & 0x3000_0000 != 0
}

/// The List Register holds the INTID of `entry`.
pub open spec fn holds(register: u32, entry: u32) -> bool {
    is_occupied(register) && register & 0x3FF == entry & 0x3FF
}

/// The first List Register from `i` on that holds the INTID of `entry`.
pub open spec fn holder_from(registers: Seq<u32>, count: nat, entry: u32, i: int) -> int
    decreases count - i,
{
    if i >= count || holds(registers[i], entry) {
        i
    } else {
        holder_from(registers, count, entry, i + 1)
    }
}

/// The first List Register from `i` on that is free.
pub open spec fn free_from(registers: Seq<u32>, count: nat, i: int) -> int
    decreases count - i,
{
    if i >= count || !is_occupied(registers[i]) {
        i
    } else {
        free_from(registers, count, i + 1)
    }
}

impl CpuModel {
    /// The List Registers that are used.
    pub open spec fn used(self) -> nat {
        if self.count < 4 {
            self.count
        } else {
            4
        }
    }

    /// There is a place for the INTID of `entry`.
    pub open spec fn accepts(self, entry: u32) -> bool {
        holder_from(self.list_registers, self.used(), entry, 0) < self.used() || free_from(
            self.list_registers,
            self.used(),
            0,
        ) < self.used()
    }

    /// A List Register in use holds this INTID.
    pub open spec fn holds_int_id(self, int_id: int) -> bool {
        holder_from(self.list_registers, self.used(), int_id as u32, 0) < self.used()
    }

    /// A List Register in use is free.
    pub open spec fn has_free(self) -> bool {
        free_from(self.list_registers, self.used(), 0) < self.used()
    }

    /// The interface once `entry` is injected: an INTID that a List Register already holds
    /// becomes pending there, another one takes the first free List Register. Where there is
    /// neither, the overflow is counted.
    pub open spec fn injected(self, entry: u32) -> CpuModel {
        let holder = holder_from(self.list_registers, self.used(), entry, 0);
        let free = free_from(self.list_registers, self.used(), 0);
        if holder < self.used() {
            CpuModel {
                list_registers: self.list_registers.update(
                    holder,
                    self.list_registers[holder] | 0x1000_0000,
                ),
                ..self
            }
        } else if free < self.used() {
            CpuModel { list_registers: self.list_registers.update(free, entry), ..self }
        } else {
            CpuModel {
                overflow_count: self.overflow_count.wrapping_add(1),
                ..self
            }
        }
    }

    /// No INTID is in two List Registers.
    pub open spec fn holds_each_once(self) -> bool {
        forall|i: int, j: int|
            0 <= i < j < self.used() ==> !(is_occupied(#[trigger] self.list_registers[i]) && holds(
                #[trigger] self.list_registers[j],
                self.list_registers[i],
            ))
    }
}

impl CpuInterface {
    pub open spec fn view(&self) -> CpuModel {
        CpuModel {
            target: self.target,
            count: self.number_of_list_registers as nat,
            list_registers: self.list_registers@,
            overflow_count: self.overflow_count,
            sgi_targets: self.sgi_targets@,
        }
    }

    /// How many List Registers are used.
    pub fn supported_list_registers(&self) -> (count: usize)
        ensures
            count == self@.used(),
    {
        if self.number_of_list_registers < NUMBER_OF_SUPPORTED_LRS {
            self.number_of_list_registers
        } else {
            NUMBER_OF_SUPPORTED_LRS
        }
    }
}

impl CpuInterface {
    /// Whether a List Register in use holds this INTID.
    pub fn is_held(&self, int_id: u32) -> (held: bool)
        ensures
            held == self@.holds_int_id(int_id as int),
    {
        let supported: usize = self.supported_list_registers();
        let ghost registers = self.list_registers@;
        let mut i: usize = 0;
        while i < supported
            invariant
                i <= supported,
                supported == self@.used(),
                registers == self.list_registers@,
                holder_from(registers, supported as nat, int_id, 0) == holder_from(
                    registers,
                    supported as nat,
                    int_id,
                    i as int,
                ),
            decreases supported - i,
        {
            let register: u32 = self.list_registers[i];
            if (register & GICH_LR_STATE) != GICH_LR_STATE_INACTIVE && (register
                & GICH_LR_VIRTUAL_ID) == (int_id & GICH_LR_VIRTUAL_ID) {
                return true;
            }
            i = i + 1;
        }
        false
    }

    /// Whether a List Register in use is free.
    pub fn has_free_list_register(&self) -> (free: bool)
        ensures
            free == self@.has_free(),
    {
        let supported: usize = self.supported_list_registers();
        let ghost registers = self.list_registers@;
        let mut i: usize = 0;
        while i < supported
            invariant
                i <= supported,
                supported == self@.used(),
                registers == self.list_registers@,
                free_from(registers, supported as nat, 0) == free_from(
                    registers,
                    supported as nat,
                    i as int,
                ),
            decreases supported - i,
        {
            if (self.list_registers[i] & GICH_LR_STATE) == GICH_LR_STATE_INACTIVE {
                return true;
            }
            i = i + 1;
        }
        false
    }
}

/// The accesses that make `int_id` a Group 1 interrupt of the highest priority and enable it.
pub open spec fn enabling_ops(base: int, int_id: int, is_level_trigger: bool) -> Seq<RegisterOp> {
    let bit = 1u32 << ((int_id % 32) as u32);
    seq![
        RegisterOp::Modify {
            address: (base + 0x080 + 4 * (int_id / 32)) as usize,
            clear: bit,
            set: bit,
        },
        RegisterOp::Modify {
            address: (base + 0x400 + 4 * (int_id / 4)) as usize,
            clear: 0xFFu32 << (((int_id % 4) * 8) as u32),
            set: 0u32 << (((int_id % 4) * 8) as u32),
        },
        RegisterOp::Modify {
            address: (base + 0xC00 + 4 * (int_id / 16)) as usize,
            clear: 3u32 << (((int_id % 16) * 2) as u32),
            set: (if is_level_trigger {
                0u32
            } else {
                2u32
            }) << (((int_id % 16) * 2) as u32),
        },
        RegisterOp::Write { address: (base + 0x100 + 4 * (int_id / 32)) as usize, value: bit },
    ]
}

/// Makes `int_id` a Group 1 interrupt of the highest priority and enables it.
pub fn enable_interrupt(
    distributor: &GicDistributor,
    int_id: u32,
    is_level_trigger: bool,
) -> (ops: Vec<RegisterOp>)
    requires
        distributor.reaches(int_id),
    ensures
        ops@ == enabling_ops(distributor.base_address as int, int_id as int, is_level_trigger),
{
    let mut ops: Vec<RegisterOp> = Vec::new();
    ops.push(distributor.set_group(int_id, GicGroup::NonSecureGroup1));
    ops.push(distributor.set_priority(int_id, 0x00));
    ops.push(distributor.set_trigger_mode(int_id, is_level_trigger));
    ops.push(distributor.set_enable(int_id, true));
    assert(ops@ =~= enabling_ops(
        distributor.base_address as int,
        int_id as int,
        is_level_trigger,
    ));
    ops
}

/// Turns the Hypervisor Interface on, and enables the maintenance interrupt and the SGI by which
/// the CPUs prod each other.
pub fn init_vgic(gich: &GicHypervisorInterface, distributor: &GicDistributor) -> (ops: Vec<
    RegisterOp,
>)
    requires
        distributor.reaches(MAINTENANCE_INTERRUPT_INTID),
    ensures
        ops@ == seq![RegisterOp::Write { address: gich.base_address, value: 1 }] + enabling_ops(
            distributor.base_address as int,
            25,
            true,
        ) + enabling_ops(distributor.base_address as int, 11, false),
{
    let mut ops: Vec<RegisterOp> = Vec::new();
    ops.push(gich.init());
    let mut maintenance: Vec<RegisterOp> = enable_interrupt(
        distributor,
        MAINTENANCE_INTERRUPT_INTID,
        true,
    );
    let mut inject: Vec<RegisterOp> = enable_interrupt(
        distributor,
        INJECT_INTERRUPT_INT_ID,
        false,
    );
    ops.append(&mut maintenance);
    ops.append(&mut inject);
    assert(ops@ =~= seq![RegisterOp::Write { address: gich.base_address, value: 1 }]
        + enabling_ops(distributor.base_address as int, 25, true) + enabling_ops(
        distributor.base_address as int,
        11,
        false,
    ));
    ops
}

/// Injects `entry` into a List Register of this CPU.
///
/// Returns `false` when every List Register is already occupied by an unrelated interrupt. The
/// caller must treat that as "not delivered": in particular, if the entry carried the HW bit (so
/// that the guest's deactivation of the virtual INTID would also deactivate the physical one),
/// the caller has to deactivate the physical interrupt itself, otherwise it stays active forever.
#[must_use]
pub fn add_virtual_interrupt(cpu: &mut CpuInterface, entry: u32) -> (injected: bool)
    ensures
        injected == old(cpu)@.accepts(entry),
        final(cpu)@ == old(cpu)@.injected(entry),
{
    let supported: usize = cpu.supported_list_registers();
    let ghost registers = cpu.list_registers@;
    let ghost used = cpu@.used();
    /* An INTID that already has an entry in some List Register must be merged into it. A free one
     * at a lower index must not shadow it, otherwise the same virtual interrupt ends up in two
     * List Registers, which eventually starves unrelated interrupts. */
    let mut i: usize = 0;
    while i < supported
        invariant
            i <= supported,
            supported == used,
            used <= 4,
            *cpu == *old(cpu),
            registers == cpu.list_registers@,
            used == cpu@.used(),
            holder_from(registers, used, entry, 0) == holder_from(registers, used, entry, i as int),
        decreases supported - i,
    {
        let register: u32 = cpu.list_registers[i];
        if (register & GICH_LR_STATE) != GICH_LR_STATE_INACTIVE && (register & GICH_LR_VIRTUAL_ID)
            == (entry & GICH_LR_VIRTUAL_ID) {
            cpu.list_registers[i] = register | GICH_LR_STATE_PENDING;
            return true;
        }
        i = i + 1;
    }
    i = 0;
    while i < supported
        invariant
            i <= supported,
            supported == used,
            used <= 4,
            *cpu == *old(cpu),
            registers == cpu.list_registers@,
            used == cpu@.used(),
            holder_from(registers, used, entry, 0) == used,
            free_from(registers, used, 0) == free_from(registers, used, i as int),
        decreases supported - i,
    {
        if (cpu.list_registers[i] & GICH_LR_STATE) == GICH_LR_STATE_INACTIVE {
            cpu.list_registers[i] = entry;
            return true;
        }
        i = i + 1;
    }
    cpu.overflow_count = cpu.overflow_count.wrapping_add(1);
    false
}

/// The interrupts that the guest has ended, from List Register `i` on: each is neither pending nor
/// active any more, and its List Register is free.
pub open spec fn ended_from(
    distributor: Distributor,
    cpu: CpuModel,
    eisr: u32,
    i: int,
) -> (Distributor, CpuModel)
    decreases cpu.used() - i,
{
    if i < 0 || i >= cpu.used() {
        (distributor, cpu)
    } else if crate::bits::bit(eisr, i) {
        let index = crate::mmio::gicv2::cpu_index(cpu.target);
        let int_id = (cpu.list_registers[i] & 0x3FF) as int;
        ended_from(
            distributor.with_pending(index, int_id, false).with_active(index, int_id, false),
            CpuModel { list_registers: cpu.list_registers.update(i, 0), ..cpu },
            eisr,
            i + 1,
        )
    } else {
        ended_from(distributor, cpu, eisr, i + 1)
    }
}

/// The Distributor and the interface once the maintenance interrupt is handled.
pub open spec fn maintained(distributor: Distributor, cpu: CpuModel, eisr: u32) -> (
    Distributor,
    CpuModel,
) {
    let ended = ended_from(distributor, cpu, eisr, 0);
    let drained = crate::mmio::gicv2::drained_from(ended.0.queue, 0, ended.1, Seq::empty());
    let after = Distributor { queue: drained.0, ..ended.0 };
    (after, after.pending_injected(drained.1, 0))
}

/// Handles the maintenance interrupt. `eisr` says in which List Registers the guest has ended an
/// interrupt. Each of those frees a List Register, so what other CPUs have queued for this one is
/// injected now, and then what is still pending: this is the only recovery path for what failed
/// because all of them were occupied.
pub fn maintenance_interrupt_handler(
    distributor: &mut GicDistributorMmio,
    cpu: &mut CpuInterface,
    eisr: u32,
)
    ensures
        (final(distributor)@, final(cpu)@) == maintained(old(distributor)@, old(cpu)@, eisr),
{
    let supported: usize = cpu.supported_list_registers();
    let mut i: usize = 0;
    while i < supported
        invariant
            i <= supported,
            supported <= 4,
            supported == cpu@.used(),
            ended_from(old(distributor)@, old(cpu)@, eisr, 0) == ended_from(
                distributor@,
                cpu@,
                eisr,
                i as int,
            ),
        decreases supported - i,
    {
        if (eisr >> (i as u32)) & 1 == 1 {
            let entry: u32 = cpu.list_registers[i];
            let int_id: u32 = entry & GICH_LR_VIRTUAL_ID;
            assert(entry & 0x3FF < 1024) by (bit_vector);
            distributor.change_pending_status(cpu, int_id, false);
            distributor.change_active_status(cpu, int_id, false);
            cpu.list_registers[i] = 0;
        }
        i = i + 1;
    }
    crate::mmio::gicv2::inject_interrupt_handler(distributor, cpu);
    distributor.inject_pending_for_current_cpu(cpu);
}

/// What `holder_from` finds.
pub proof fn lemma_holder_from(registers: Seq<u32>, count: nat, entry: u32, from: int)
    requires
        0 <= from <= count,
    ensures
        ({
            let h = holder_from(registers, count, entry, from);
            &&& from <= h <= count
            &&& h < count ==> holds(registers[h], entry)
            &&& forall|i: int| from <= i < h ==> !holds(#[trigger] registers[i], entry)
        }),
    decreases count - from,
{
    if from < count && !holds(registers[from], entry) {
        lemma_holder_from(registers, count, entry, from + 1);
    }
}

/// What `free_from` finds.
pub proof fn lemma_free_from(registers: Seq<u32>, count: nat, from: int)
    requires
        0 <= from <= count,
    ensures
        ({
            let f = free_from(registers, count, from);
            &&& from <= f <= count
            &&& f < count ==> !is_occupied(registers[f])
            &&& forall|i: int| from <= i < f ==> is_occupied(#[trigger] registers[i])
        }),
    decreases count - from,
{
    if from < count && is_occupied(registers[from]) {
        lemma_free_from(registers, count, from + 1);
    }
}

/// Injecting an interrupt takes no other out of the List Registers.
pub proof fn lemma_injected_keeps(cpu: CpuModel, entry: u32, int_id: int)
    requires
        cpu.list_registers.len() == 4,
    ensures
        cpu.injected(entry).list_registers.len() == 4,
        cpu.injected(entry).target == cpu.target,
        cpu.injected(entry).count == cpu.count,
        cpu.holds_int_id(int_id) ==> cpu.injected(entry).holds_int_id(int_id),
{
    let used = cpu.used();
    let id = int_id as u32;
    let after = cpu.injected(entry);
    lemma_holder_from(cpu.list_registers, used, entry, 0);
    lemma_free_from(cpu.list_registers, used, 0);
    lemma_holder_from(cpu.list_registers, used, id, 0);
    lemma_holder_from(after.list_registers, used, id, 0);
    if cpu.holds_int_id(int_id) {
        let place = holder_from(cpu.list_registers, used, id, 0);
        let value = cpu.list_registers[place];
        crate::laws::fields::lemma_list_register(value);
        assert(holds(after.list_registers[place], id));
    }
}

/// Injecting frees no List Register, and an injection that fails changes none.
pub proof fn lemma_injected_occupies(cpu: CpuModel, entry: u32)
    requires
        cpu.list_registers.len() == 4,
    ensures
        !cpu.has_free() ==> !cpu.injected(entry).has_free(),
        !cpu.accepts(entry) ==> !cpu.has_free(),
{
    let used = cpu.used();
    let after = cpu.injected(entry);
    lemma_holder_from(cpu.list_registers, used, entry, 0);
    lemma_free_from(cpu.list_registers, used, 0);
    lemma_free_from(after.list_registers, used, 0);
    let holder = holder_from(cpu.list_registers, used, entry, 0);
    if holder < used {
        let value = cpu.list_registers[holder];
        crate::laws::fields::lemma_list_register(value);
        let free = free_from(after.list_registers, used, 0);
        if !cpu.has_free() && free < used {
            assert(is_occupied(cpu.list_registers[free]));
        }
    }
}

/// An interrupt that a List Register takes is held.
pub proof fn lemma_accepted_is_held(cpu: CpuModel, entry: u32)
    requires
        cpu.list_registers.len() == 4,
        cpu.accepts(entry),
        is_occupied(entry),
    ensures
        cpu.injected(entry).holds_int_id((entry & 0x3FF) as int),
{
    let used = cpu.used();
    let id = entry & 0x3FF;
    assert(id < 1024 && id & 0x3FF == id) by (bit_vector)
        requires
            id == entry & 0x3FF,
    ;
    if cpu.has_free() {
        lemma_injected_is_held(cpu, entry, id as int);
    } else {
        lemma_holder_from(cpu.list_registers, used, entry, 0);
        lemma_holder_from(cpu.list_registers, used, id, 0);
        let place = holder_from(cpu.list_registers, used, entry, 0);
        assert(holds(cpu.list_registers[place], id));
        lemma_injected_keeps(cpu, entry, id as int);
    }
}

/// An interrupt that was injected into a free List Register is held.
pub proof fn lemma_injected_is_held(cpu: CpuModel, entry: u32, int_id: int)
    requires
        cpu.list_registers.len() == 4,
        cpu.has_free(),
        0 <= int_id < 1024,
        entry & 0x3FF == int_id,
        is_occupied(entry),
    ensures
        cpu.injected(entry).list_registers.len() == 4,
        cpu.injected(entry).target == cpu.target,
        cpu.injected(entry).count == cpu.count,
        cpu.injected(entry).holds_int_id(int_id),
{
    let used = cpu.used();
    let id = int_id as u32;
    let after = cpu.injected(entry);
    let holder = holder_from(cpu.list_registers, used, entry, 0);
    let free = free_from(cpu.list_registers, used, 0);
    lemma_holder_from(cpu.list_registers, used, entry, 0);
    lemma_free_from(cpu.list_registers, used, 0);
    lemma_holder_from(after.list_registers, used, id, 0);
    assert(id & 0x3FF == id) by (bit_vector)
        requires
            id < 1024,
    ;
    if holder < used {
        let value = cpu.list_registers[holder];
        crate::laws::fields::lemma_list_register(value);
        assert(holds(after.list_registers[holder], id));
    } else {
        assert(holds(after.list_registers[free], id));
    }
}

/// Ending interrupts leaves the number of List Registers and the CPU.
proof fn lemma_ended_frame(distributor: Distributor, cpu: CpuModel, eisr: u32, i: int)
    requires
        cpu.list_registers.len() == 4,
        0 <= i,
    ensures
        ended_from(distributor, cpu, eisr, i).1.list_registers.len() == 4,
        ended_from(distributor, cpu, eisr, i).1.target == cpu.target,
    decreases cpu.used() - i,
{
    if i < cpu.used() {
        if crate::bits::bit(eisr, i) {
            let index = crate::mmio::gicv2::cpu_index(cpu.target);
            let int_id = (cpu.list_registers[i] & 0x3FF) as int;
            lemma_ended_frame(
                distributor.with_pending(index, int_id, false).with_active(index, int_id, false),
                CpuModel { list_registers: cpu.list_registers.update(i, 0), ..cpu },
                eisr,
                i + 1,
            );
        } else {
            lemma_ended_frame(distributor, cpu, eisr, i + 1);
        }
    }
}

/// No interrupt is lost because the List Registers were full: once a maintenance interrupt was
/// handled, an interrupt that is to be delivered to this CPU is in a List Register, unless all of
/// those in use are occupied, and so is what other CPUs have queued for it.
pub proof fn maintenance_leaves_nothing_waiting(
    distributor: Distributor,
    cpu: CpuModel,
    eisr: u32,
    int_id: int,
)
    requires
        cpu.list_registers.len() == 4,
        0 <= int_id < 1020,
    ensures
        ({
            let after = maintained(distributor, cpu, eisr);
            &&& after.0.is_waiting(after.1, int_id) ==> forall|i: int|
                0 <= i < after.1.used() ==> is_occupied(#[trigger] after.1.list_registers[i])
            &&& forall|k: int|
                0 <= k < after.0.queue.len() && (#[trigger] after.0.queue[k]).0 == cpu.target
                    ==> !after.1.has_free()
        }),
{
    let ended = ended_from(distributor, cpu, eisr, 0);
    let drained = crate::mmio::gicv2::drained_from(ended.0.queue, 0, ended.1, Seq::empty());
    lemma_ended_frame(distributor, cpu, eisr, 0);
    crate::mmio::gicv2::draining_keeps_the_others(ended.0.queue, 0, ended.1, Seq::empty());
    crate::mmio::gicv2::waiting_interrupts_are_injected(
        Distributor { queue: drained.0, ..ended.0 },
        drained.1,
        0,
        int_id,
    );
}

/// Injecting an interrupt never puts an INTID into a second List Register.
pub proof fn injection_keeps_each_once(cpu: CpuModel, entry: u32)
    requires
        cpu.list_registers.len() == 4,
        cpu.holds_each_once(),
    ensures
        cpu.injected(entry).holds_each_once(),
{
    let used = cpu.used();
    let registers = cpu.list_registers;
    lemma_holder_from(registers, used, entry, 0);
    lemma_free_from(registers, used, 0);
    let holder = holder_from(registers, used, entry, 0);
    let after = cpu.injected(entry);
    if holder < used {
        let old_value = registers[holder];
        crate::laws::fields::lemma_list_register(old_value);
        assert forall|i: int, j: int| 0 <= i < j < used implies !(is_occupied(
            #[trigger] after.list_registers[i],
        ) && holds(#[trigger] after.list_registers[j], after.list_registers[i])) by {
            if i == holder {
                assert(!(is_occupied(registers[i]) && holds(registers[j], registers[i])));
            } else if j == holder {
                assert(!(is_occupied(registers[i]) && holds(registers[j], registers[i])));
            } else {
                assert(!(is_occupied(registers[i]) && holds(registers[j], registers[i])));
            }
        }
    } else {
        assert forall|i: int, j: int| 0 <= i < j < used implies !(is_occupied(
            #[trigger] after.list_registers[i],
        ) && holds(#[trigger] after.list_registers[j], after.list_registers[i])) by {
            assert(!holds(registers[i], entry));
            assert(!holds(registers[j], entry));
            assert(!(is_occupied(registers[i]) && holds(registers[j], registers[i])));
        }
    }
}

/// An injection fails only where every List Register in use holds another INTID, and then changes
/// none of them.
pub proof fn failed_injection_means_full(cpu: CpuModel, entry: u32)
    requires
        !cpu.accepts(entry),
    ensures
        forall|i: int|
            0 <= i < cpu.used() ==> is_occupied(#[trigger] cpu.list_registers[i]) && !holds(
                cpu.list_registers[i],
                entry,
            ),
        cpu.injected(entry).list_registers == cpu.list_registers,
{
    lemma_holder_from(cpu.list_registers, cpu.used(), entry, 0);
    lemma_free_from(cpu.list_registers, cpu.used(), 0);
}

} // verus!
