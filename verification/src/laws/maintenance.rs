//! Interrupts that a guest ends, and those that its devices raise.

use crate::guest_ram::GuestRam;
use crate::laws::virtio::lemma_status_bit;
use crate::mmio::gicv2::{
    cpu_index, int_id_bit, lemma_pended_bit, Distributor, GicDistributorMmio,
};
use crate::mmio::virtio::QueueState;
use crate::mmio::virtio_net::VirtioNetMmio;
use crate::vgic::{ended_from, maintenance_interrupt_handler, CpuInterface, CpuModel};
use crate::vgic_lr::create_list_register_entry;
use vstd::prelude::*;

verus! {

/// A List Register from `from` on whose interrupt was ended holds INTID `int_id`.
pub open spec fn was_ended(
    registers: Seq<u32>,
    used: int,
    eisr: u32,
    from: int,
    int_id: int,
) -> bool {
    exists|j: int|
        from <= j < used && (#[trigger] registers[j] & 0x3FF) == int_id && (eisr >> (j as u32)) & 1
            == 1
}

/// What ending interrupts does to the state of one of them.
proof fn lemma_ended(distributor: Distributor, cpu: CpuModel, eisr: u32, i: int, k: int)
    requires
        distributor.valid(),
        cpu.list_registers.len() == 4,
        0 <= i,
        0 <= k < 1024,
    ensures
        ({
            let own = cpu_index(cpu.target);
            let after = ended_from(distributor, cpu, eisr, i).0;
            let ended = was_ended(cpu.list_registers, cpu.used() as int, eisr, i, k);
            &&& after.valid()
            &&& ended ==> !after.is_pending(own, k) && !int_id_bit(after.active, own, k)
            &&& !ended ==> after.is_pending(own, k) == distributor.is_pending(own, k) && int_id_bit(
                after.active,
                own,
                k,
            ) == int_id_bit(distributor.active, own, k)
        }),
    decreases cpu.used() - i,
{
    let own = cpu_index(cpu.target);
    let used = cpu.used() as int;
    if i < used {
        let value = cpu.list_registers[i];
        let int_id = (value & 0x3FF) as int;
        crate::laws::fields::lemma_list_register(value);
        if crate::bits::bit(eisr, i) {
            let one = distributor.with_pending(own, int_id, false);
            lemma_pended_bit(distributor, own, int_id, false, own, k);
            let mirrored = Distributor { pending: one.active, ..one };
            lemma_pended_bit(mirrored, own, int_id, false, own, k);
            let two = one.with_active(own, int_id, false);
            assert(two.active == mirrored.with_pending(own, int_id, false).pending);
            let freed = CpuModel { list_registers: cpu.list_registers.update(i, 0), ..cpu };
            lemma_ended(two, freed, eisr, i + 1, k);
            lemma_same_rest(cpu.list_registers, freed.list_registers, used, eisr, i, k);
            if int_id == k {
                assert(cpu.list_registers[i] & 0x3FF == k);
                assert(was_ended(cpu.list_registers, used, eisr, i, k));
            }
        } else {
            lemma_ended(distributor, cpu, eisr, i + 1, k);
            lemma_same_rest(cpu.list_registers, cpu.list_registers, used, eisr, i, k);
        }
    }
}

/// Which interrupts were ended from `i` on.
proof fn lemma_same_rest(
    before: Seq<u32>,
    after: Seq<u32>,
    used: int,
    eisr: u32,
    i: int,
    k: int,
)
    requires
        0 <= i < used,
        forall|j: int| i < j < used ==> #[trigger] after[j] == before[j],
    ensures
        was_ended(before, used, eisr, i, k) <==> was_ended(after, used, eisr, i + 1, k) || ((before[i]
            & 0x3FF) == k && (eisr >> (i as u32)) & 1 == 1),
{
    if was_ended(before, used, eisr, i, k) {
        let j = choose|j: int|
            i <= j < used && (#[trigger] before[j] & 0x3FF) == k && (eisr >> (j as u32)) & 1 == 1;
        if j > i {
            assert(after[j] & 0x3FF == k);
        }
    }
    if was_ended(after, used, eisr, i + 1, k) {
        let j = choose|j: int|
            i + 1 <= j < used && (#[trigger] after[j] & 0x3FF) == k && (eisr >> (j as u32)) & 1 == 1;
        assert(before[j] & 0x3FF == k);
    }
    if (before[i] & 0x3FF) == k && (eisr >> (i as u32)) & 1 == 1 {
        assert(before[i] & 0x3FF == k);
    }
}

/// An interrupt that the guest has ended is neither pending nor active at this CPU any more. Any other stays as it was.
pub proof fn ended_interrupt_is_over(
    distributor: &mut GicDistributorMmio,
    cpu: &mut CpuInterface,
    eisr: u32,
    own: int,
    k: int,
)
    requires
        call_ensures(maintenance_interrupt_handler, (distributor, cpu, eisr), ()),
        0 <= own < 8,
        old(cpu).target == 1u8 << (own as u8),
        0 <= k < 1024,
    ensures
        ({
            let ended = was_ended(
                old(cpu).list_registers@,
                old(cpu)@.used() as int,
                eisr,
                0,
                k,
            );
            let before = old(distributor)@;
            let after = final(distributor)@;
            &&& ended ==> !after.is_pending(own, k) && !int_id_bit(after.active, own, k)
            &&& !ended ==> after.is_pending(own, k) == before.is_pending(own, k) && int_id_bit(
                after.active,
                own,
                k,
            ) == int_id_bit(before.active, own, k)
        }),
{
    assert(old(distributor)@.valid());
    crate::laws::fields::lemma_target_bits(own as u8, own as u8, 0);
    lemma_ended(old(distributor)@, old(cpu)@, eisr, 0, k);
}

/// A List Register names its interrupt in the lowest ten bits and the five highest bits of its priority in bits 23 to 27.
/// It is pending by bit 28 alone, has its group in bit 30, and either a physical interrupt with bit 31 or the end of
/// interrupt with bit 19.
pub proof fn list_register_names_its_interrupt(
    int_id: u32,
    group: u32,
    priority: u32,
    physical: Option<u32>,
    entry: u32,
)
    requires
        group <= 1,
        call_ensures(create_list_register_entry, (int_id, group, priority, physical), entry),
    ensures
        entry & 0x3FF == int_id & 0x3FF,
        (entry >> 28u32) & 3 == 1,
        (entry >> 23u32) & 0x1F == (priority >> 3u32) & 0x1F,
        (entry >> 30u32) & 1 == group,
        physical matches Some(p) ==> entry >> 31u32 == 1 && (entry >> 10u32) & 0x3FF == p & 0x3FF,
        physical is None ==> entry >> 31u32 == 0 && (entry >> 19u32) & 1 == 1,
{
    crate::vgic_lr::list_register_fields(int_id, group, priority, physical);
}

/// The network device of a guest raises interrupt 49 for frames that were sent.
pub proof fn sent_frames_are_confirmed(
    net: &mut VirtioNetMmio,
    distributor: &mut GicDistributorMmio,
    cpu: &mut CpuInterface,
    other_distributor: &mut GicDistributorMmio,
    other_cpu: &mut CpuInterface,
    injected: bool,
)
    requires
        old(net).wf(),
        *old(other_distributor) == *old(distributor),
        *old(other_cpu) == *old(cpu),
        call_ensures(VirtioNetMmio::end_tx, (net, distributor, cpu), ()),
        call_ensures(
            GicDistributorMmio::trigger_interrupt,
            (other_distributor, other_cpu, 49u32, None::<u32>),
            injected,
        ),
    ensures
        final(net).device.interrupt_status % 2 == 1,
        final(distributor)@ == final(other_distributor)@,
        final(cpu)@ == final(other_cpu)@,
{
    lemma_status_bit(old(net).device.interrupt_status);
}

/// The network device of a guest raises interrupt 49 for a frame that was delivered, and no interrupt for one that was
/// not.
pub proof fn delivered_frame_is_announced(
    net: &mut VirtioNetMmio,
    ram: &mut GuestRam,
    data: &[u8],
    distributor: &mut GicDistributorMmio,
    cpu: &mut CpuInterface,
    other_distributor: &mut GicDistributorMmio,
    other_cpu: &mut CpuInterface,
    injected: bool,
)
    requires
        old(net).wf(),
        old(ram)@.valid(),
        old(net).device@.queues[0].is_usable(),
        *old(other_distributor) == *old(distributor),
        *old(other_cpu) == *old(cpu),
        call_ensures(VirtioNetMmio::push_rx, (net, ram, data, distributor, cpu), ()),
        call_ensures(
            GicDistributorMmio::trigger_interrupt,
            (other_distributor, other_cpu, 49u32, None::<u32>),
            injected,
        ),
    ensures
        final(net).device@.queues[0].used_id != old(net).device@.queues[0].used_id ==> {
            &&& final(distributor)@ == final(other_distributor)@
            &&& final(cpu)@ == final(other_cpu)@
        },
        final(net).device@.queues[0].used_id == old(net).device@.queues[0].used_id ==> {
            &&& final(distributor)@ == old(distributor)@
            &&& final(cpu)@ == old(cpu)@
            &&& final(ram)@ == old(ram)@
        },
{
}

/// The buffer of a frame that was sent is handed back in queue 1.
pub proof fn sent_buffer_is_handed_back(
    net: &mut VirtioNetMmio,
    ram: &mut GuestRam,
    descriptor_id: u16,
    length: u32,
    queue: &mut QueueState,
    other_ram: &mut GuestRam,
)
    requires
        old(net).wf(),
        old(net).device@.queues[1].ring_size() != 0,
        old(ram)@.valid(),
        *old(queue) == old(net).device.queues@[1],
        old(other_ram)@ == old(ram)@,
        call_ensures(VirtioNetMmio::finish_tx, (net, ram, descriptor_id, length), ()),
        call_ensures(QueueState::write_used, (queue, other_ram, descriptor_id, length), ()),
    ensures
        final(net).device@.queues[1] == *final(queue),
        final(net).device@.queues[0] == old(net).device@.queues[0],
        final(ram)@ == final(other_ram)@,
{
}

} // verus!
