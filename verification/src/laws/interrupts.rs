//! How interrupts reach the CPUs of a guest.

use crate::laws::fields::{lemma_target_bits, lemma_targets};
use crate::mmio::gicv2::{
    lemma_entry_names_its_interrupt, lemma_pended_bit, lemma_triggered_frame,
    Distributor, GicDistributorMmio,
};
use crate::vgic::{CpuInterface, CpuModel};
use vstd::prelude::*;

verus! {

/// CPU `c` is one of those that a write of `value` to GICD_SGIR names: with the filter in bits 25 and
/// 24 at 0 by its bit of bits 23 to 16, with 1 each of the four CPUs but the writer, and else the
/// writer.
pub open spec fn is_named(value: u64, writer: u8, c: int) -> bool {
    let filter = value / 0x100_0000 % 4;
    if filter == 0 {
        (value >> ((16 + c) as u64)) & 1 == 1
    } else if filter == 1 {
        c < 4 && writer & (1u8 << (c as u8)) == 0
    } else {
        writer & (1u8 << (c as u8)) != 0
    }
}

/// An SGI becomes pending at each CPU that the write names, and the pending state of every other CPU
/// and of every other interrupt stays.
pub proof fn sgi_is_pending_where_it_was_sent(
    distributor: &mut GicDistributorMmio,
    cpu: &mut CpuInterface,
    value: u64,
    c: int,
    k: int,
)
    requires
        call_ensures(GicDistributorMmio::write, (distributor, cpu, 0xF00, 32, value), Ok(())),
        0 <= c < 8,
        0 <= k < 1024,
    ensures
        final(distributor)@.is_pending(c, k) == (old(distributor)@.is_pending(c, k) || k == value % 16
            && is_named(value, old(cpu).target, c)),
{
    let start = old(distributor)@;
    let id = (value % 16) as int;
    let targets = Distributor::sgi_targets(old(cpu)@, value);
    assert(start.valid());
    lemma_targets(value, old(cpu).target, c as u8);
    lemma_triggered_frame(start, old(cpu)@, id, None, targets, 0, false);
    lemma_triggered_pending(start, old(cpu)@, id, None, targets, 0, false, c);
}

/// An SGI is queued for each other CPU that the write names and that has it enabled, once and for
/// nobody else, and each of those is prodded.
pub proof fn sgi_is_queued_for_the_other_cpus(
    distributor: &mut GicDistributorMmio,
    cpu: &mut CpuInterface,
    value: u64,
    c: int,
)
    requires
        call_ensures(GicDistributorMmio::write, (distributor, cpu, 0xF00, 32, value), Ok(())),
        0 <= c < 8,
    ensures
        ({
            let before = old(distributor)@.queue;
            let after = final(distributor)@.queue;
            let new = after.skip(before.len() as int);
            let sent = is_named(value, old(cpu).target, c) && old(distributor).ctlr & 3 != 0 && old(
                distributor,
            )@.is_enabled(c, (value % 16) as int) && old(cpu).target != 1u8 << (c as u8);
            &&& before.is_prefix_of(after)
            &&& sent <==> exists|i: int|
                0 <= i < new.len() && (#[trigger] new[i]).0 == 1u8 << (c as u8)
            &&& forall|i: int|
                0 <= i < new.len() ==> (#[trigger] new[i]).1 & 0x3FF == value % 16
            &&& forall|i: int, j: int|
                0 <= i < j < new.len() ==> (#[trigger] new[i]).0 < (#[trigger] new[j]).0
            &&& final(cpu)@.sgi_targets == old(cpu)@.sgi_targets + Seq::new(
                new.len(),
                |i: int| new[i].0,
            )
        }),
{
    let start = old(distributor)@;
    let id = (value % 16) as int;
    let targets = Distributor::sgi_targets(old(cpu)@, value);
    assert(start.valid());
    lemma_targets(value, old(cpu).target, c as u8);
    lemma_triggered_queue(start, old(cpu)@, id, targets, 0, false);
    lemma_sent_from(start, old(cpu).target, id, targets, 0, c);
    let before = start.queue;
    let after = start.triggered(old(cpu)@, id, None, targets, 0, false).0.queue;
    let new = after.skip(before.len() as int);
    let sent = sent_from(start, old(cpu).target, id, targets, 0);
    assert forall|i: int| 0 <= i < new.len() implies #[trigger] new[i] == after[before.len() + i]
        && new[i].0 == sent[i] && new[i].1 & 0x3FF == value % 16 by {
        assert(after[before.len() + i].0 == sent[i]);
    }
    assert(Seq::new(new.len(), |i: int| new[i].0) =~= sent);
    assert(before.is_prefix_of(after)) by {
        assert(after.subrange(0, before.len() as int) =~= after.take(before.len() as int));
    }
    if sent.contains(1u8 << (c as u8)) {
        let i = choose|i: int| 0 <= i < sent.len() && sent[i] == 1u8 << (c as u8);
        assert(new[i].0 == 1u8 << (c as u8));
    }
    assert forall|i: int| 0 <= i < new.len() && (#[trigger] new[i]).0 == 1u8 << (c as u8) implies sent.contains(
        1u8 << (c as u8),
    ) by {
        assert(sent[i] == 1u8 << (c as u8));
    }
}

/// The CPU that sends an SGI takes it itself where the write names it, and has it enabled: a List
/// Register holds it, where one is free. Where the write does not name it, its List Registers stay.
pub proof fn sgi_is_taken_by_its_sender_where_named(
    distributor: &mut GicDistributorMmio,
    cpu: &mut CpuInterface,
    value: u64,
    own: int,
)
    requires
        call_ensures(GicDistributorMmio::write, (distributor, cpu, 0xF00, 32, value), Ok(())),
        0 <= own < 8,
        old(cpu).target == 1u8 << (own as u8),
    ensures
        ({
            let taken = is_named(value, old(cpu).target, own) && old(distributor).ctlr & 3 != 0 && old(
                distributor,
            )@.is_enabled(own, (value % 16) as int);
            &&& taken && old(cpu)@.has_free() ==> final(cpu)@.holds_int_id((value % 16) as int)
            &&& !taken ==> final(cpu)@.list_registers == old(cpu)@.list_registers
        }),
{
    let start = old(distributor)@;
    let id = (value % 16) as int;
    let targets = Distributor::sgi_targets(old(cpu)@, value);
    assert(start.valid());
    lemma_targets(value, old(cpu).target, own as u8);
    lemma_triggered_local(start, old(cpu)@, id, None, targets, 0, false, own);
    if old(cpu)@.has_free() && is_named(value, old(cpu).target, own) && old(distributor).ctlr & 3
        != 0 && start.is_enabled(own, id) {
        let pended = start.with_pending(own, id, true);
        lemma_entry_names_its_interrupt(pended, own, id);
        crate::vgic::lemma_injected_is_held(old(cpu)@, pended.entry(own, id, None), id);
        lemma_same_registers(
            old(cpu)@.injected(pended.entry(own, id, None)),
            final(cpu)@,
            id,
        );
    }
}

/// A device's interrupt becomes pending at the CPU that runs the guest. Where the Distributor and the
/// interrupt are on and a List Register is free, a List Register of that CPU holds it afterwards, and
/// the caller is told so; where one of them is off, the caller is told that it was not delivered.
pub proof fn interrupt_reaches_the_cpu_of_the_guest(
    distributor: &mut GicDistributorMmio,
    cpu: &mut CpuInterface,
    int_id: u32,
    injected: bool,
    own: int,
)
    requires
        call_ensures(
            GicDistributorMmio::trigger_interrupt,
            (distributor, cpu, int_id, None::<u32>),
            injected,
        ),
        int_id < 1020,
        0 <= own < 8,
        old(distributor).own_target == 1u8 << (own as u8),
        old(cpu).target == 1u8 << (own as u8),
    ensures
        final(distributor)@.is_pending(own, int_id as int),
        ({
            let on = old(distributor).ctlr & 3 != 0 && old(distributor)@.is_enabled(
                own,
                int_id as int,
            );
            &&& on && old(cpu)@.has_free() ==> injected && final(cpu)@.holds_int_id(int_id as int)
            &&& !on ==> !injected && final(cpu)@.list_registers == old(cpu)@.list_registers
            &&& final(distributor)@.queue == old(distributor)@.queue
            &&& final(cpu)@.sgi_targets == old(cpu)@.sgi_targets
        }),
{
    let start = old(distributor)@;
    let id = int_id as int;
    let targets = old(distributor).own_target;
    assert(start.valid());
    lemma_target_bits(own as u8, own as u8, 0);
    lemma_targets(0, targets, own as u8);
    lemma_single_target(start, old(cpu)@, id, None, 0, own);
    lemma_pended_bit(start, own, id, true, own, id);
    let pended = start.with_pending(own, id, true);
    assert(pended.is_enabled(own, id) == start.is_enabled(own, id));
    if old(cpu)@.has_free() {
        lemma_entry_names_its_interrupt(pended, own, id);
        crate::vgic::lemma_injected_is_held(old(cpu)@, pended.entry(own, id, None), id);
    }
}

/// One target: what is triggered there.
proof fn lemma_single_target(
    distributor: Distributor,
    cpu: CpuModel,
    int_id: int,
    physical_int_id: Option<u32>,
    bit: int,
    own: int,
)
    requires
        0 <= bit <= own < 8,
        cpu.target == 1u8 << (own as u8),
        0 <= int_id < 1024,
    ensures
        distributor.triggered(cpu, int_id, physical_int_id, cpu.target, bit, false) == ({
            let pended = distributor.with_pending(own, int_id, true);
            let entry = pended.entry(own, int_id, physical_int_id);
            if pended.delivers(own, int_id) {
                (pended, cpu.injected(entry), cpu.accepts(entry))
            } else {
                (pended, cpu, false)
            }
        }),
    decreases own - bit,
{
    lemma_target_bits(own as u8, bit as u8, 0);
    if bit < own {
        lemma_single_target(distributor, cpu, int_id, physical_int_id, bit + 1, own);
    } else {
        let pended = distributor.with_pending(own, int_id, true);
        let entry = pended.entry(own, int_id, physical_int_id);
        lemma_injected_target(cpu, entry);
        if pended.delivers(own, int_id) {
            lemma_no_target(
                pended,
                cpu.injected(entry),
                int_id,
                physical_int_id,
                cpu.target,
                own,
                own + 1,
                cpu.accepts(entry),
            );
        } else {
            lemma_no_target(pended, cpu, int_id, physical_int_id, cpu.target, own, own + 1, false);
        }
    }
}

proof fn lemma_injected_target(cpu: CpuModel, entry: u32)
    ensures
        cpu.injected(entry).target == cpu.target,
        cpu.injected(entry).sgi_targets == cpu.sgi_targets,
{
}

/// Behind the only target nothing happens.
proof fn lemma_no_target(
    distributor: Distributor,
    cpu: CpuModel,
    int_id: int,
    physical_int_id: Option<u32>,
    targets: u8,
    own: int,
    bit: int,
    injected: bool,
)
    requires
        0 <= own < bit <= 8,
        targets == 1u8 << (own as u8),
    ensures
        distributor.triggered(cpu, int_id, physical_int_id, targets, bit, injected) == (
            distributor,
            cpu,
            injected,
        ),
    decreases 8 - bit,
{
    if bit < 8 {
        lemma_target_bits(own as u8, bit as u8, 0);
        lemma_no_target(
            distributor,
            cpu,
            int_id,
            physical_int_id,
            targets,
            own,
            bit + 1,
            injected,
        );
    }
}

/// The same List Registers hold the same interrupts.
proof fn lemma_same_registers(a: CpuModel, b: CpuModel, int_id: int)
    requires
        a.list_registers == b.list_registers,
        a.count == b.count,
    ensures
        a.holds_int_id(int_id) == b.holds_int_id(int_id),
{
}

/// A banked interrupt is pending exactly where it was, and where it was triggered.
proof fn lemma_triggered_pending(
    distributor: Distributor,
    cpu: CpuModel,
    int_id: int,
    physical_int_id: Option<u32>,
    targets: u8,
    bit: int,
    injected: bool,
    c: int,
)
    requires
        distributor.valid(),
        0 <= int_id < 32,
        0 <= bit <= 8,
        0 <= c < 8,
    ensures
        distributor.triggered(
            cpu,
            int_id,
            physical_int_id,
            targets,
            bit,
            injected,
        ).0.is_pending(c, int_id) == (distributor.is_pending(c, int_id) || c >= bit && targets & (
        1u8 << (c as u8)) != 0),
    decreases 8 - bit,
{
    if bit < 8 {
        let target = 1u8 << (bit as u8);
        let pended = distributor.with_pending(bit, int_id, true);
        let entry = pended.entry(bit, int_id, physical_int_id);
        lemma_pended_bit(distributor, bit, int_id, true, c, int_id);
        let (next, next_cpu, next_injected) = step(
            distributor,
            cpu,
            int_id,
            physical_int_id,
            targets,
            bit,
            injected,
        );
        assert(next.is_pending(c, int_id) == (distributor.is_pending(c, int_id) || c == bit
            && targets & target != 0));
        lemma_triggered_pending(
            next,
            next_cpu,
            int_id,
            physical_int_id,
            targets,
            bit + 1,
            next_injected,
            c,
        );
    }
}

/// What is done for CPU `bit`.
spec fn step(
    distributor: Distributor,
    cpu: CpuModel,
    int_id: int,
    physical_int_id: Option<u32>,
    targets: u8,
    bit: int,
    injected: bool,
) -> (Distributor, CpuModel, bool) {
    let target = 1u8 << (bit as u8);
    let pended = distributor.with_pending(bit, int_id, true);
    let entry = pended.entry(bit, int_id, physical_int_id);
    if targets & target == 0 {
        (distributor, cpu, injected)
    } else if !pended.delivers(bit, int_id) {
        (pended, cpu, injected)
    } else if target == cpu.target {
        (pended, cpu.injected(entry), injected || cpu.accepts(entry))
    } else {
        (
            Distributor { queue: pended.queue.push((target, entry)), ..pended },
            CpuModel { sgi_targets: cpu.sgi_targets.push(target), ..cpu },
            true,
        )
    }
}

/// The interrupt is sent to CPU `c`, which is another one.
spec fn is_sent(distributor: Distributor, own: u8, int_id: int, targets: u8, c: int) -> bool {
    &&& targets & (1u8 << (c as u8)) != 0
    &&& distributor.ctlr & 3 != 0
    &&& distributor.is_enabled(c, int_id)
    &&& own != 1u8 << (c as u8)
}

/// The target bits of the other CPUs, from CPU `bit` on, that the interrupt is sent to.
spec fn sent_from(distributor: Distributor, own: u8, int_id: int, targets: u8, bit: int) -> Seq<u8>
    decreases 8 - bit,
{
    if bit >= 8 {
        Seq::empty()
    } else if is_sent(distributor, own, int_id, targets, bit) {
        seq![1u8 << (bit as u8)] + sent_from(distributor, own, int_id, targets, bit + 1)
    } else {
        sent_from(distributor, own, int_id, targets, bit + 1)
    }
}

/// The other CPUs are told in order, each once.
proof fn lemma_sent_from(
    distributor: Distributor,
    own: u8,
    int_id: int,
    targets: u8,
    bit: int,
    c: int,
)
    requires
        0 <= bit <= 8,
        0 <= c < 8,
    ensures
        ({
            let sent = sent_from(distributor, own, int_id, targets, bit);
            &&& sent.contains(1u8 << (c as u8)) <==> c >= bit && is_sent(
                distributor,
                own,
                int_id,
                targets,
                c,
            )
            &&& forall|i: int, j: int| 0 <= i < j < sent.len() ==> sent[i] < sent[j]
            &&& bit > 0 ==> forall|i: int|
                0 <= i < sent.len() ==> 1u8 << ((bit - 1) as u8) < #[trigger] sent[i]
        }),
    decreases 8 - bit,
{
    if bit < 8 {
        let sent = sent_from(distributor, own, int_id, targets, bit);
        let rest = sent_from(distributor, own, int_id, targets, bit + 1);
        lemma_sent_from(distributor, own, int_id, targets, bit + 1, c);
        lemma_target_bits(c as u8, bit as u8, 0);
        lemma_target_bits(bit as u8, c as u8, 0);
        if bit > 0 {
            lemma_target_bits((bit - 1) as u8, bit as u8, 0);
        }
        if is_sent(distributor, own, int_id, targets, bit) {
            assert(sent[0] == 1u8 << (bit as u8));
            assert forall|i: int| 0 < i < sent.len() implies sent[i] == rest[i - 1] by {}
            assert forall|i: int, j: int| 0 <= i < j < sent.len() implies sent[i] < sent[j] by {
                assert(sent[j] == rest[j - 1]);
                if i > 0 {
                    assert(sent[i] == rest[i - 1]);
                }
            }
            if rest.contains(1u8 << (c as u8)) {
                let i = choose|i: int| 0 <= i < rest.len() && rest[i] == 1u8 << (c as u8);
                assert(sent[i + 1] == 1u8 << (c as u8));
            }
            if sent.contains(1u8 << (c as u8)) {
                let i = choose|i: int| 0 <= i < sent.len() && sent[i] == 1u8 << (c as u8);
                if i > 0 {
                    assert(rest[i - 1] == 1u8 << (c as u8));
                    assert(rest.contains(1u8 << (c as u8)));
                }
            }
        }
    }
}

/// Who is told depends on the control register and the enable bits alone.
proof fn lemma_sent_frame(
    a: Distributor,
    b: Distributor,
    own: u8,
    int_id: int,
    targets: u8,
    bit: int,
)
    requires
        a.ctlr == b.ctlr,
        a.enable == b.enable,
        0 <= bit <= 8,
    ensures
        sent_from(a, own, int_id, targets, bit) == sent_from(b, own, int_id, targets, bit),
    decreases 8 - bit,
{
    if bit < 8 {
        lemma_sent_frame(a, b, own, int_id, targets, bit + 1);
    }
}

/// What is queued, and for whom.
proof fn lemma_triggered_queue(
    distributor: Distributor,
    cpu: CpuModel,
    int_id: int,
    targets: u8,
    bit: int,
    injected: bool,
)
    requires
        distributor.valid(),
        0 <= int_id < 1024,
        0 <= bit <= 8,
    ensures
        ({
            let after = distributor.triggered(cpu, int_id, None, targets, bit, injected);
            let sent = sent_from(distributor, cpu.target, int_id, targets, bit);
            let n = distributor.queue.len() as int;
            let queue = after.0.queue;
            &&& queue.len() == n + sent.len()
            &&& queue.take(n) == distributor.queue
            &&& after.1.sgi_targets == cpu.sgi_targets + sent
            &&& forall|i: int|
                0 <= i < sent.len() ==> queue[n + i].0 == #[trigger] sent[i] && queue[n + i].1
                    & 0x3FF == int_id
        }),
    decreases 8 - bit,
{
    let after = distributor.triggered(cpu, int_id, None, targets, bit, injected);
    let sent = sent_from(distributor, cpu.target, int_id, targets, bit);
    let n = distributor.queue.len() as int;
    if bit < 8 {
        let (next, next_cpu, next_injected) = step(
            distributor,
            cpu,
            int_id,
            None,
            targets,
            bit,
            injected,
        );
        let pended = distributor.with_pending(bit, int_id, true);
        lemma_pended_bit(distributor, bit, int_id, true, 0, 0);
        assert(next.valid());
        lemma_entry_names_its_interrupt(pended, bit, int_id);
        lemma_injected_target(cpu, pended.entry(bit, int_id, None));
        assert(next_cpu.target == cpu.target);
        lemma_triggered_queue(next, next_cpu, int_id, targets, bit + 1, next_injected);
        lemma_sent_frame(distributor, next, cpu.target, int_id, targets, bit + 1);
        let rest = sent_from(next, cpu.target, int_id, targets, bit + 1);
        let queue = after.0.queue;
        if is_sent(distributor, cpu.target, int_id, targets, bit) {
            assert(queue.take(n + 1) == next.queue);
            assert(queue.take(n) =~= queue.take(n + 1).take(n));
            assert(next.queue.take(n) =~= distributor.queue);
            assert(queue[n] == queue.take(n + 1)[n]);
            assert forall|i: int| 0 <= i < sent.len() implies queue[n + i].0 == #[trigger] sent[i]
                && queue[n + i].1 & 0x3FF == int_id by {
                if i > 0 {
                    assert(sent[i] == rest[i - 1]);
                }
            }
            assert(cpu.sgi_targets.push(1u8 << (bit as u8)) + rest =~= cpu.sgi_targets + sent);
            assert(after.1.sgi_targets == cpu.sgi_targets + sent);
            assert(queue.len() == n + sent.len());
            assert(queue.take(n) == distributor.queue);
        } else {
            assert(next.queue == distributor.queue);
            assert(next_cpu.sgi_targets == cpu.sgi_targets);
            assert(sent == rest);
            assert(after == next.triggered(next_cpu, int_id, None, targets, bit + 1, next_injected));
            assert(queue.take(n) == distributor.queue);
            assert forall|i: int| 0 <= i < sent.len() implies queue[n + i].0 == #[trigger] sent[i]
                && queue[n + i].1 & 0x3FF == int_id by {}
        }
    } else {
        assert(after.0.queue.take(n) =~= distributor.queue);
        assert(cpu.sgi_targets + sent =~= cpu.sgi_targets);
    }
}

/// What becomes of the List Registers of this CPU.
proof fn lemma_triggered_local(
    distributor: Distributor,
    cpu: CpuModel,
    int_id: int,
    physical_int_id: Option<u32>,
    targets: u8,
    bit: int,
    injected: bool,
    own: int,
)
    requires
        distributor.valid(),
        0 <= int_id < 32,
        0 <= bit <= 8,
        0 <= own < 8,
        cpu.target == 1u8 << (own as u8),
    ensures
        ({
            let after = distributor.triggered(
                cpu,
                int_id,
                physical_int_id,
                targets,
                bit,
                injected,
            );
            let taken = own >= bit && targets & (1u8 << (own as u8)) != 0 && distributor.ctlr & 3
                != 0 && distributor.is_enabled(own, int_id);
            let entry = distributor.with_pending(own, int_id, true).entry(
                own,
                int_id,
                physical_int_id,
            );
            &&& after.1.count == cpu.count
            &&& after.1.list_registers == if taken {
                cpu.injected(entry).list_registers
            } else {
                cpu.list_registers
            }
        }),
    decreases 8 - bit,
{
    if bit < 8 {
        lemma_target_bits(own as u8, bit as u8, 0);
        lemma_target_bits(bit as u8, own as u8, 0);
        let (next, next_cpu, next_injected) = step(
            distributor,
            cpu,
            int_id,
            physical_int_id,
            targets,
            bit,
            injected,
        );
        lemma_pended_bit(distributor, bit, int_id, true, 0, 0);
        assert(next.valid());
        assert(next.is_enabled(own, int_id) == distributor.is_enabled(own, int_id));
        lemma_triggered_local(
            next,
            next_cpu,
            int_id,
            physical_int_id,
            targets,
            bit + 1,
            next_injected,
            own,
        );
        assert(next.with_pending(own, int_id, true).entry(own, int_id, physical_int_id)
            == distributor.with_pending(own, int_id, true).entry(own, int_id, physical_int_id));
    }
}

} // verus!
