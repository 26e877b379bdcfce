//! The state of a guest's interrupts, and how those that wait come into the List Registers.

use crate::laws::fields::{lemma_list_register, lemma_target_bits, lemma_words};
use crate::mmio::gicv2::{
    cpu_index, lemma_entry_names_its_interrupt, lemma_pended_bit, waiting_interrupts_are_injected,
    Distributor, GicDistributorMmio,
};
use crate::vgic::{
    holder_from, free_from, is_occupied, lemma_free_from, lemma_holder_from, CpuInterface, CpuModel,
};
use vstd::prelude::*;

verus! {

/// The settings of an interrupt are what a CPU reads of them: the group at 0x80, the enable bit at 0x100
/// and the pending bit at 0x200, each in the word of 32 interrupts, and the priority in a byte at 0x400.
pub proof fn settings_are_those_of_the_registers(
    distributor: &GicDistributorMmio,
    cpu: &CpuInterface,
    own: usize,
    int_id: u32,
    group: u32,
    enabled: bool,
    pending: bool,
    priority: u32,
    groups: u64,
    enables: u64,
    pendings: u64,
    byte: u64,
)
    requires
        own < 8,
        cpu.target == 1u8 << (own as u8),
        int_id < 1020,
        call_ensures(GicDistributorMmio::get_group, (distributor, own, int_id), group),
        call_ensures(GicDistributorMmio::get_enable, (distributor, own, int_id), enabled),
        call_ensures(GicDistributorMmio::get_pending, (distributor, own, int_id), pending),
        call_ensures(GicDistributorMmio::get_priority, (distributor, own, int_id), priority),
        call_ensures(
            GicDistributorMmio::read,
            (distributor, cpu, (0x80 + 4 * (int_id / 32)) as usize, 32),
            Ok(groups),
        ),
        call_ensures(
            GicDistributorMmio::read,
            (distributor, cpu, (0x100 + 4 * (int_id / 32)) as usize, 32),
            Ok(enables),
        ),
        call_ensures(
            GicDistributorMmio::read,
            (distributor, cpu, (0x200 + 4 * (int_id / 32)) as usize, 32),
            Ok(pendings),
        ),
        call_ensures(
            GicDistributorMmio::read,
            (distributor, cpu, (0x400 + int_id) as usize, 8),
            Ok(byte),
        ),
    ensures
        group == (groups >> ((int_id % 32) as u64)) & 1,
        enabled == ((enables >> ((int_id % 32) as u64)) & 1 == 1),
        pending == ((pendings >> ((int_id % 32) as u64)) & 1 == 1),
        priority == byte,
{
    let state = distributor@;
    let index = own as int;
    let r = int_id as int / 32;
    let b = int_id % 32;
    lemma_target_bits(own as u8, own as u8, 0);
    lemma_words(state.group[index][r], 0, b);
    lemma_words(state.enable[index][r], 0, b);
    lemma_words(state.pending[index][r], 0, b);
    assert((0x400 + int_id) % 4 == int_id % 4);
    assert((0x400 + int_id - 0x400) / 4 == int_id as int / 4);
}

/// Changing the pending state of an interrupt changes that of no other, and of an SGI or a PPI that of no
/// other CPU. An SPI has one for all.
pub proof fn pending_state_is_changed(
    distributor: &mut GicDistributorMmio,
    own: usize,
    int_id: u32,
    is_pending: bool,
    other: usize,
    k: u32,
    before: bool,
    after: bool,
)
    requires
        own < 8,
        other < 8,
        int_id < 1024,
        k < 1024,
        call_ensures(
            GicDistributorMmio::change_pending_status_of,
            (distributor, own, int_id, is_pending),
            (),
        ),
        call_ensures(GicDistributorMmio::get_pending, (&*old(distributor), other, k), before),
        call_ensures(GicDistributorMmio::get_pending, (&*final(distributor), other, k), after),
    ensures
        after == if k == int_id && (other == own || int_id >= 32) {
            is_pending
        } else {
            before
        },
{
    assert(old(distributor)@.valid());
    lemma_pended_bit(
        old(distributor)@,
        own as int,
        int_id as int,
        is_pending,
        other as int,
        k as int,
    );
}

/// A CPU changes the pending state that it sees itself, and the enable bits stay.
pub proof fn own_pending_state_is_changed(
    distributor: &mut GicDistributorMmio,
    cpu: &CpuInterface,
    own: usize,
    int_id: u32,
    is_pending: bool,
    other: usize,
    k: u32,
    before: bool,
    after: bool,
    enabled: bool,
    still: bool,
)
    requires
        own < 8,
        cpu.target == 1u8 << (own as u8),
        other < 8,
        int_id < 1024,
        k < 1024,
        call_ensures(
            GicDistributorMmio::change_pending_status,
            (distributor, cpu, int_id, is_pending),
            (),
        ),
        call_ensures(GicDistributorMmio::get_pending, (&*old(distributor), other, k), before),
        call_ensures(GicDistributorMmio::get_pending, (&*final(distributor), other, k), after),
        call_ensures(GicDistributorMmio::get_enable, (&*old(distributor), other, k), enabled),
        call_ensures(GicDistributorMmio::get_enable, (&*final(distributor), other, k), still),
    ensures
        after == if k == int_id && (other == own || int_id >= 32) {
            is_pending
        } else {
            before
        },
        still == enabled,
{
    assert(old(distributor)@.valid());
    lemma_target_bits(own as u8, own as u8, 0);
    lemma_pended_bit(
        old(distributor)@,
        own as int,
        int_id as int,
        is_pending,
        other as int,
        k as int,
    );
}

/// The active state of an interrupt is what the CPU reads in its bit of the words at 0x300. Changing it
/// changes that of no other interrupt.
pub proof fn active_state_is_changed(
    distributor: &mut GicDistributorMmio,
    cpu: &CpuInterface,
    own: usize,
    int_id: u32,
    is_active: bool,
    k: u32,
    before: u64,
    after: u64,
)
    requires
        own < 8,
        cpu.target == 1u8 << (own as u8),
        int_id < 1024,
        k < 1024,
        call_ensures(
            GicDistributorMmio::change_active_status,
            (distributor, cpu, int_id, is_active),
            (),
        ),
        call_ensures(
            GicDistributorMmio::read,
            (&*old(distributor), cpu, (0x300 + 4 * (k / 32)) as usize, 32),
            Ok(before),
        ),
        call_ensures(
            GicDistributorMmio::read,
            (&*final(distributor), cpu, (0x300 + 4 * (k / 32)) as usize, 32),
            Ok(after),
        ),
    ensures
        (after >> ((k % 32) as u64)) & 1 == 1 <==> if k == int_id {
            is_active
        } else {
            (before >> ((k % 32) as u64)) & 1 == 1
        },
        final(distributor)@.pending == old(distributor)@.pending,
        final(distributor)@.enable == old(distributor)@.enable,
{
    let start = old(distributor)@;
    assert(start.valid());
    lemma_target_bits(own as u8, own as u8, 0);
    let mirrored = Distributor { pending: start.active, ..start };
    assert(mirrored.valid());
    lemma_pended_bit(mirrored, own as int, int_id as int, is_active, own as int, k as int);
    let now = mirrored.with_pending(own as int, int_id as int, is_active);
    assert(now.pending == final(distributor)@.active);
    let r = k as int / 32;
    lemma_words(start.active[own as int][r], 0, k % 32);
    lemma_words(final(distributor)@.active[own as int][r], 0, k % 32);
}

/// An interrupt that is delivered again goes where it went before: an SPI to the CPU of the guest, like
/// any interrupt of a device, and an SGI or a PPI to the CPU that asks for it.
pub proof fn retriggered_interrupt_goes_its_way(
    distributor: &mut GicDistributorMmio,
    cpu: &mut CpuInterface,
    int_id: u32,
    injected: bool,
    other: &mut GicDistributorMmio,
    interface: &mut CpuInterface,
    triggered: bool,
)
    requires
        int_id < 1020,
        call_ensures(GicDistributorMmio::retrigger, (distributor, cpu, int_id), injected),
        *old(other) == *old(distributor),
        *old(interface) == *old(cpu),
        call_ensures(
            GicDistributorMmio::trigger_interrupt_to,
            (
                other,
                interface,
                int_id,
                None::<u32>,
                if int_id < 32 {
                    old(cpu).target
                } else {
                    old(distributor).own_target
                },
            ),
            triggered,
        ),
    ensures
        injected == triggered,
        final(distributor)@ == final(other)@,
        final(cpu)@ == final(interface)@,
{
}

/// What waits for a CPU, pending and enabled with the Distributor on, is in a List Register afterwards,
/// unless all those in use are occupied. The timer's interrupt, 27, is left out, and an SPI is for the CPU
/// of the guest.
pub proof fn waiting_interrupt_is_taken(
    distributor: &GicDistributorMmio,
    cpu: &mut CpuInterface,
    own: usize,
    int_id: u32,
)
    requires
        own < 8,
        old(cpu).target == 1u8 << (own as u8),
        int_id < 1020,
        int_id != 27,
        int_id < 32 || distributor.own_target & old(cpu).target != 0,
        distributor.ctlr % 4 != 0,
        distributor@.is_pending(own as int, int_id as int),
        distributor@.is_enabled(own as int, int_id as int),
        call_ensures(GicDistributorMmio::inject_pending_for_current_cpu, (distributor, cpu), ()),
    ensures
        ({
            let after = final(cpu).list_registers@;
            let used = if old(cpu).number_of_list_registers < 4 {
                old(cpu).number_of_list_registers as int
            } else {
                4
            };
            ||| exists|i: int|
                0 <= i < used && (#[trigger] after[i]) / 0x1000_0000 % 4 != 0 && after[i] % 0x400
                    == int_id
            ||| forall|i: int| 0 <= i < used ==> (#[trigger] after[i]) / 0x1000_0000 % 4 != 0
        }),
{
    lemma_target_bits(own as u8, own as u8, 0);
    lemma_list_register(distributor.ctlr);
    lemma_taken(distributor@, old(cpu)@, 0);
    waiting_interrupts_are_injected(distributor@, old(cpu)@, 0, int_id as int);
    let registers = final(cpu).list_registers@;
    let used = old(cpu)@.used();
    assert(final(cpu)@.used() == used);
    lemma_list_register(int_id);
    let h = holder_from(registers, used, int_id, 0);
    lemma_holder_from(registers, used, int_id, 0);
    if h < used {
        lemma_list_register(registers[h]);
        assert(registers[h] / 0x1000_0000 % 4 != 0 && registers[h] % 0x400 == int_id);
    } else {
        assert(distributor@.is_waiting(final(cpu)@, int_id as int));
        assert forall|i: int| 0 <= i < used implies (#[trigger] registers[i]) / 0x1000_0000 % 4
            != 0 by {
            lemma_list_register(registers[i]);
        }
    }
}

/// A List Register keeps what it holds, and a free one is given only an interrupt that is pending and
/// enabled at this CPU, with the Distributor on, and not the timer's.
pub proof fn only_waiting_interrupts_are_taken(
    distributor: &GicDistributorMmio,
    cpu: &mut CpuInterface,
    own: usize,
    i: int,
)
    requires
        own < 8,
        old(cpu).target == 1u8 << (own as u8),
        0 <= i < 4,
        call_ensures(GicDistributorMmio::inject_pending_for_current_cpu, (distributor, cpu), ()),
        final(cpu).list_registers@[i] != old(cpu).list_registers@[i],
    ensures
        old(cpu).list_registers@[i] / 0x1000_0000 % 4 == 0,
        ({
            let int_id = final(cpu).list_registers@[i] % 0x400;
            &&& distributor.ctlr % 4 != 0
            &&& distributor@.is_pending(own as int, int_id as int)
            &&& distributor@.is_enabled(own as int, int_id as int)
            &&& int_id != 27
            &&& int_id < 1020
            &&& int_id < 32 || distributor.own_target & old(cpu).target != 0
        }),
{
    lemma_target_bits(own as u8, own as u8, 0);
    lemma_list_register(distributor.ctlr);
    lemma_list_register(old(cpu).list_registers@[i]);
    lemma_list_register(final(cpu).list_registers@[i]);
    lemma_taken(distributor@, old(cpu)@, 0);
    assert(is_taken(distributor@, old(cpu)@, final(cpu)@, i));
}

/// The List Register is as it was, or was free and holds an interrupt that waited.
spec fn is_taken(distributor: Distributor, before: CpuModel, after: CpuModel, i: int) -> bool {
    let own = cpu_index(before.target);
    let int_id = (after.list_registers[i] & 0x3FF) as int;
    ||| after.list_registers[i] == before.list_registers[i]
    ||| {
        &&& !is_occupied(before.list_registers[i])
        &&& distributor.is_on()
        &&& distributor.is_pending(own, int_id)
        &&& distributor.is_enabled(own, int_id)
        &&& int_id != 27
        &&& int_id < 1020
        &&& int_id < 32 || distributor.own_target & before.target != 0
    }
}

proof fn lemma_taken(distributor: Distributor, cpu: CpuModel, from: int)
    requires
        cpu.list_registers.len() == 4,
        0 <= from <= 1020,
    ensures
        ({
            let after = distributor.pending_injected(cpu, from);
            &&& after.target == cpu.target
            &&& after.count == cpu.count
            &&& after.list_registers.len() == 4
            &&& forall|i: int| 0 <= i < 4 ==> #[trigger] is_taken(distributor, cpu, after, i)
        }),
    decreases 1020 - from,
{
    if from < 1020 && cpu.has_free() {
        if distributor.is_waiting(cpu, from) {
            let own = cpu_index(cpu.target);
            let used = cpu.used();
            let registers = cpu.list_registers;
            let entry = distributor.entry(own, from, None);
            lemma_entry_names_its_interrupt(distributor, own, from);
            lemma_holder_from(registers, used, entry, 0);
            lemma_holder_from(registers, used, from as u32, 0);
            lemma_free_from(registers, used, 0);
            lemma_list_register(from as u32);
            let holder = holder_from(registers, used, entry, 0);
            if holder < used {
                assert(crate::vgic::holds(registers[holder], from as u32));
            }
            let free = free_from(registers, used, 0);
            let next = cpu.injected(entry);
            assert(next.list_registers == registers.update(free, entry));
            lemma_taken(distributor, next, from + 1);
            let after = distributor.pending_injected(cpu, from);
            assert forall|i: int| 0 <= i < 4 implies #[trigger] is_taken(
                distributor,
                cpu,
                after,
                i,
            ) by {
                assert(is_taken(distributor, next, after, i));
            }
        } else {
            lemma_taken(distributor, cpu, from + 1);
        }
    }
}

} // verus!
