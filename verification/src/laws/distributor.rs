//! The interrupt controller that a guest sees.

use crate::laws::fields::{lemma_byte, lemma_target_bits, lemma_words};
use crate::mmio::gicv2::{
    cpu_index, lemma_can_retrigger_frame, lemma_retriggered_frame, lemma_set_register_shared, lemma_triggered_frame, target_to_cpu_index,
    triggered_interrupt_is_pending, Distributor, GicDistributorMmio,
};
use crate::vgic::{CpuInterface, CpuModel};
use vstd::prelude::*;

verus! {

/// The bank of a CPU is that of its target bit.
pub proof fn cpu_has_the_bank_of_its_target_bit(c: u8, target: u8, index: usize)
    requires
        c < 8,
        target == 1u8 << c,
        call_ensures(target_to_cpu_index, (target,), index),
    ensures
        index == c,
{
    lemma_target_bits(c, c, target);
}

/// The version is 2, and there are lines for all the INTIDs.
pub proof fn distributor_identifies_itself(
    distributor: &GicDistributorMmio,
    cpu: &CpuInterface,
    lines: u64,
    version: u64,
)
    requires
        call_ensures(GicDistributorMmio::read, (distributor, cpu, 0x4, 32), Ok(lines)),
        call_ensures(GicDistributorMmio::read, (distributor, cpu, 0xFFE8, 32), Ok(version)),
    ensures
        lines == 31,
        version / 16 == 2,
{
}

/// A register that holds what was written reads back: the control register at 0, the groups at 0x80,
/// the priorities at 0x400, the targets of the SPIs at 0x820 and the configuration at 0xC00.
pub proof fn distributor_registers_read_back(
    distributor: &mut GicDistributorMmio,
    cpu: &mut CpuInterface,
    offset: usize,
    value: u64,
    after: u64,
)
    requires
        call_ensures(GicDistributorMmio::write, (distributor, cpu, offset, 32, value), Ok(())),
        call_ensures(
            GicDistributorMmio::read,
            (&*final(distributor), &*final(cpu), offset, 32),
            Ok(after),
        ),
        ({
            ||| offset == 0
            ||| 0x80 <= offset < 0x100 && offset % 4 == 0
            ||| 0x400 <= offset < 0x7FC && offset % 4 == 0
            ||| 0x820 <= offset < 0xBFC && offset % 4 == 0
            ||| 0xC00 <= offset < 0xD00 && offset % 4 == 0
        }),
    ensures
        after == value % 0x1_0000_0000,
        final(cpu)@ == old(cpu)@,
{
    lemma_words(0, value, 0);
    assert(distributor@.valid());
}

/// Writing a one sets the bit, writing a zero keeps it: the enable bits at 0x100, the pending bits at
/// 0x200 and the active bits at 0x300. The bits can be read there and at the registers that clear them.
pub proof fn writing_ones_sets_bits(
    distributor: &mut GicDistributorMmio,
    cpu: &mut CpuInterface,
    kind: usize,
    r: usize,
    value: u64,
    before: u64,
    after: u64,
    mirror: u64,
    b: u32,
)
    requires
        kind == 0x100 || kind == 0x200 || kind == 0x300,
        r < 32,
        b < 32,
        value < 0x1_0000_0000,
        old(distributor)@.can_write(old(cpu)@, kind + 4 * r, 32, value),
        call_ensures(
            GicDistributorMmio::read,
            (&*old(distributor), &*old(cpu), (kind + 4 * r) as usize, 32),
            Ok(before),
        ),
        call_ensures(
            GicDistributorMmio::write,
            (distributor, cpu, (kind + 4 * r) as usize, 32, value),
            Ok(()),
        ),
        call_ensures(
            GicDistributorMmio::read,
            (&*final(distributor), &*final(cpu), (kind + 4 * r) as usize, 32),
            Ok(after),
        ),
        call_ensures(
            GicDistributorMmio::read,
            (&*final(distributor), &*final(cpu), (kind + 0x80 + 4 * r) as usize, 32),
            Ok(mirror),
        ),
    ensures
        (after >> (b as u64)) & 1 == 1 <==> (before >> (b as u64)) & 1 == 1 || (value >> (b as u64))
            & 1 == 1,
        mirror == after,
{
    let start = old(distributor)@;
    let index = cpu_index(old(cpu)@.target);
    let word = #[verifier::truncate] (value as u32);
    assert(start.valid());
    if kind == 0x100 {
        lemma_words(start.enable[index][r as int], value, b);
        let enabled = start.with_enabled(index, r as int, word);
        lemma_set_register_shared(
            start.enable,
            1,
            32,
            index,
            r as int,
            start.enable[index][r as int] | word,
        );
        lemma_retriggered_frame(enabled, old(cpu)@, r * 32, value as int, true);
    } else if kind == 0x200 {
        let register = start.pending[index][r as int];
        lemma_words(register, value, b);
        let pended = start.with_pended(index, r as int, word);
        lemma_set_register_shared(start.pending, 1, 32, index, r as int, register | word);
        lemma_retriggered_frame(pended, old(cpu)@, r * 32, value as int, false);
        assert forall|k: int| #![trigger pended.is_pending(index, k)]
            0 <= k - r * 32 < 32 && bit_of(value as int, k - r * 32) implies pended.is_pending(
            index,
            k,
        ) by {
            let at = (k - r * 32) as u32;
            lemma_bit_of(value, at);
            lemma_words(register, value, at);
            lemma_words(register | word, value, at);
            assert(k / 32 == r && k % 32 == at);
        }
        vstd::arithmetic::power2::lemma2_to64();
        lemma_retriggered_pending(pended, old(cpu)@, r * 32, value as int, r as int, index, 0);
        let k = r * 32 + b;
        assert(k / 32 == r && k % 32 == b);
        let now = old(distributor)@.written(old(cpu)@, 0x200 + 4 * r, 32, value).0;
        assert(now.is_pending(index, k) == pended.is_pending(index, k));
        lemma_words(now.pending[index][r as int], value, b);
        lemma_words(register | word, value, b);
    } else {
        lemma_words(start.active[index][r as int], value, b);
    }
}

/// Writing a one clears the bit, writing a zero keeps it: the enable bits at 0x180, the pending bits at
/// 0x280 and the active bits at 0x380.
pub proof fn writing_ones_clears_bits(
    distributor: &mut GicDistributorMmio,
    cpu: &mut CpuInterface,
    kind: usize,
    r: usize,
    value: u64,
    before: u64,
    after: u64,
    mirror: u64,
    b: u32,
)
    requires
        kind == 0x180 || kind == 0x280 || kind == 0x380,
        r < 32,
        b < 32,
        call_ensures(
            GicDistributorMmio::read,
            (&*old(distributor), &*old(cpu), (kind + 4 * r) as usize, 32),
            Ok(before),
        ),
        call_ensures(
            GicDistributorMmio::write,
            (distributor, cpu, (kind + 4 * r) as usize, 32, value),
            Ok(()),
        ),
        call_ensures(
            GicDistributorMmio::read,
            (&*final(distributor), &*final(cpu), (kind + 4 * r) as usize, 32),
            Ok(after),
        ),
        call_ensures(
            GicDistributorMmio::read,
            (&*final(distributor), &*final(cpu), (kind - 0x80 + 4 * r) as usize, 32),
            Ok(mirror),
        ),
    ensures
        (after >> (b as u64)) & 1 == 1 <==> (before >> (b as u64)) & 1 == 1 && (value >> (b as u64))
            & 1 == 0,
        mirror == after,
        final(cpu)@ == old(cpu)@,
{
    let start = old(distributor)@;
    let index = cpu_index(old(cpu)@.target);
    assert(start.valid());
    lemma_words(start.enable[index][r as int], value, b);
    lemma_words(start.pending[index][r as int], value, b);
    lemma_words(start.active[index][r as int], value, b);
}

/// A byte that is written to a priority, at 0x400 and on, or to the targets of an SPI, at 0x820 and on,
/// reads back, and the bytes beside it stay.
pub proof fn distributor_bytes_read_back(
    distributor: &mut GicDistributorMmio,
    cpu: &mut CpuInterface,
    offset: usize,
    value: u64,
    other: usize,
    before: u64,
    after: u64,
)
    requires
        0x400 <= offset < 0x7FC && 0x400 <= other < 0x7FC || 0x820 <= offset < 0xBFC && 0x820
            <= other < 0xBFC,
        value < 256,
        call_ensures(
            GicDistributorMmio::read,
            (&*old(distributor), &*old(cpu), other, 8),
            Ok(before),
        ),
        call_ensures(GicDistributorMmio::write, (distributor, cpu, offset, 8, value), Ok(())),
        call_ensures(
            GicDistributorMmio::read,
            (&*final(distributor), &*final(cpu), other, 8),
            Ok(after),
        ),
    ensures
        after == if other == offset {
            value
        } else {
            before
        },
{
    let start = old(distributor)@;
    let index = cpu_index(old(cpu)@.target);
    assert(start.valid());
    let s = ((offset % 4) * 8) as u32;
    let t = ((other % 4) * 8) as u32;
    let base = if offset < 0x800 {
        0x400int
    } else {
        0x800
    };
    let register = if offset < 0x800 {
        start.priority[index][(other - base) / 4]
    } else {
        start.target[(other - base) / 4]
    };
    lemma_byte(register, value, s, t);
    assert(offset / 4 == other / 4 && offset % 4 == other % 4 ==> offset == other);
    assert((offset - base) / 4 == offset / 4 - base / 4);
    assert((other - base) / 4 == other / 4 - base / 4);
}

/// A CPU reads its own target bit as the target of each SGI and PPI, and cannot write it.
pub proof fn banked_targets_are_the_readers_own(
    distributor: &mut GicDistributorMmio,
    cpu: &mut CpuInterface,
    offset: usize,
    width: u64,
    value: u64,
    other: usize,
    read: u64,
)
    requires
        0x800 <= offset < 0x820,
        0x800 <= other < 0x820,
        call_ensures(GicDistributorMmio::write, (distributor, cpu, offset, width, value), Ok(())),
        call_ensures(
            GicDistributorMmio::read,
            (&*final(distributor), &*final(cpu), other, 8),
            Ok(read),
        ),
    ensures
        read == old(cpu).target,
        final(distributor)@ == old(distributor)@,
{
}

/// A write changes no register but the one it is made to. Left out are the writes that deliver
/// interrupts.
pub proof fn other_registers_keep_their_values(
    distributor: &mut GicDistributorMmio,
    cpu: &mut CpuInterface,
    offset: usize,
    width: u64,
    value: u64,
    other: usize,
    other_width: u64,
    before: u64,
    after: u64,
)
    requires
        !(0x100 <= offset < 0x180) && !(0x200 <= offset < 0x280) && offset != 0xF00,
        offset / 4 != other / 4,
        !(0x100 <= offset < 0x400 && 0x100 <= other < 0x400 && offset / 0x100 == other / 0x100
            && offset % 0x80 / 4 == other % 0x80 / 4),
        call_ensures(
            GicDistributorMmio::read,
            (&*old(distributor), &*old(cpu), other, other_width),
            Ok(before),
        ),
        call_ensures(GicDistributorMmio::write, (distributor, cpu, offset, width, value), Ok(())),
        call_ensures(
            GicDistributorMmio::read,
            (&*final(distributor), &*final(cpu), other, other_width),
            Ok(after),
        ),
    ensures
        after == before,
        final(cpu)@ == old(cpu)@,
{
    assert(old(distributor)@.valid());
    lemma_elsewhere(
        old(distributor)@,
        old(cpu)@,
        offset as int,
        width as int,
        value,
        other as int,
        other_width as int,
    );
}

/// The register that an offset belongs to: its kind, where the registers that set and clear bits are
/// of one kind, and its number.
spec fn register_of(offset: int) -> (int, int) {
    if 0x80 <= offset < 0x100 {
        (1, (offset - 0x80) / 4)
    } else if 0x100 <= offset < 0x180 {
        (2, (offset - 0x100) / 4)
    } else if 0x180 <= offset < 0x200 {
        (2, (offset - 0x180) / 4)
    } else if 0x200 <= offset < 0x280 {
        (3, (offset - 0x200) / 4)
    } else if 0x280 <= offset < 0x300 {
        (3, (offset - 0x280) / 4)
    } else if 0x300 <= offset < 0x380 {
        (4, (offset - 0x300) / 4)
    } else if 0x380 <= offset < 0x400 {
        (4, (offset - 0x380) / 4)
    } else if 0x400 <= offset < 0x7FC {
        (5, (offset - 0x400) / 4)
    } else if 0x800 <= offset < 0xBFC {
        (6, (offset - 0x800) / 4)
    } else if 0xC00 <= offset < 0xD00 {
        (7, (offset - 0xC00) / 4)
    } else if offset == 0 {
        (0, 0)
    } else {
        (8, offset)
    }
}

proof fn lemma_register_of(offset: int, other: int)
    requires
        0 <= offset,
        0 <= other,
        offset / 4 != other / 4,
        !(0x100 <= offset < 0x400 && 0x100 <= other < 0x400 && offset / 0x100 == other / 0x100
            && offset % 0x80 / 4 == other % 0x80 / 4),
    ensures
        register_of(offset) != register_of(other),
{
    lemma_register_place(offset);
    lemma_register_place(other);
}

proof fn lemma_register_place(offset: int)
    requires
        0 <= offset,
    ensures
        ({
            let (kind, r) = register_of(offset);
            &&& 0x100 <= offset < 0x400 <==> kind == 2 || kind == 3 || kind == 4
            &&& 0x100 <= offset < 0x400 ==> kind == 1 + offset / 0x100 && r == offset % 0x80 / 4
            &&& kind == 1 ==> r == offset / 4 - 0x20
            &&& kind == 5 ==> r == offset / 4 - 0x100
            &&& kind == 6 ==> r == offset / 4 - 0x200
            &&& kind == 7 ==> r == offset / 4 - 0x300
            &&& kind == 8 ==> r == offset
            &&& kind == 0 ==> offset == 0
        }),
{
    if 0x100 <= offset < 0x180 {
        assert(offset % 0x80 == offset - 0x100);
    } else if 0x180 <= offset < 0x200 {
        assert(offset % 0x80 == offset - 0x180);
    } else if 0x200 <= offset < 0x280 {
        assert(offset % 0x80 == offset - 0x200);
    } else if 0x280 <= offset < 0x300 {
        assert(offset % 0x80 == offset - 0x280);
    } else if 0x300 <= offset < 0x380 {
        assert(offset % 0x80 == offset - 0x300);
    } else if 0x380 <= offset < 0x400 {
        assert(offset % 0x80 == offset - 0x380);
    }
}

/// What a read gives depends on one register alone.
proof fn lemma_read_depends(a: Distributor, b: Distributor, cpu: CpuModel, other: int, width: int)
    requires
        0 <= other,
        a.valid(),
        b.valid(),
        ({
            let index = cpu_index(cpu.target);
            let (kind, r) = register_of(other);
            &&& kind == 0 ==> a.ctlr == b.ctlr
            &&& kind == 1 ==> a.group[index][r] == b.group[index][r]
            &&& kind == 2 ==> a.enable[index][r] == b.enable[index][r]
            &&& kind == 3 ==> a.pending[index][r] == b.pending[index][r]
            &&& kind == 4 ==> a.active[index][r] == b.active[index][r]
            &&& kind == 5 ==> a.priority[index][r] == b.priority[index][r]
            &&& kind == 6 ==> a.target[r] == b.target[r]
            &&& kind == 7 ==> a.configuration[index][r] == b.configuration[index][r]
        }),
    ensures
        a.read_value(cpu, other, width) == b.read_value(cpu, other, width),
{
}

#[verifier::rlimit(30)]
proof fn lemma_elsewhere(
    distributor: Distributor,
    cpu: CpuModel,
    offset: int,
    width: int,
    value: u64,
    other: int,
    other_width: int,
)
    requires
        distributor.valid(),
        0 <= offset,
        0 <= other,
        !(0x100 <= offset < 0x180) && !(0x200 <= offset < 0x280) && offset != 0xF00,
        offset / 4 != other / 4,
        !(0x100 <= offset < 0x400 && 0x100 <= other < 0x400 && offset / 0x100 == other / 0x100
            && offset % 0x80 / 4 == other % 0x80 / 4),
    ensures
        distributor.written(cpu, offset, width, value).0.read_value(cpu, other, other_width)
            == distributor.read_value(cpu, other, other_width),
        distributor.written(cpu, offset, width, value).1 == cpu,
{
    let index = cpu_index(cpu.target);
    let after = distributor.written(cpu, offset, width, value).0;
    let (kind, r) = register_of(offset);
    let (other_kind, q) = register_of(other);
    lemma_register_of(offset, other);
    if kind == 1 {
        lemma_set_register_shared(distributor.group, 1, 32, index, r, after.group[index][r]);
    } else if kind == 2 {
        lemma_set_register_shared(distributor.enable, 1, 32, index, r, after.enable[index][r]);
    } else if kind == 3 {
        lemma_set_register_shared(distributor.pending, 1, 32, index, r, after.pending[index][r]);
    } else if kind == 4 {
        lemma_set_register_shared(distributor.active, 1, 32, index, r, after.active[index][r]);
    } else if kind == 5 {
        lemma_set_register_shared(
            distributor.priority,
            8,
            255,
            index,
            r,
            after.priority[index][r],
        );
    } else if kind == 7 {
        lemma_set_register_shared(
            distributor.configuration,
            2,
            64,
            index,
            r,
            after.configuration[index][r],
        );
    }
    lemma_read_depends(after, distributor, cpu, other, other_width);
}

/// Bit `i` of a number.
pub open spec fn bit_of(value: int, i: int) -> bool
    decreases i,
{
    if i <= 0 {
        value % 2 == 1
    } else {
        bit_of(value / 2, i - 1)
    }
}

proof fn lemma_bit_of(value: u64, i: u32)
    requires
        i < 64,
    ensures
        bit_of(value as int, i as int) == ((value >> (i as u64)) & 1 == 1),
    decreases i,
{
    crate::bits::lemma_halve(value >> (i as u64));
    vstd::bits::lemma_u64_shr_is_div(value, i as u64);
    lemma_bit_is_quotient(value as int, i as nat);
}

proof fn lemma_bit_is_quotient(value: int, i: nat)
    requires
        value >= 0,
    ensures
        bit_of(value, i as int) == (value / vstd::arithmetic::power2::pow2(i) as int % 2 == 1),
    decreases i,
{
    if i == 0 {
        vstd::arithmetic::power2::lemma2_to64();
    } else {
        lemma_bit_is_quotient(value / 2, (i - 1) as nat);
        vstd::arithmetic::power2::lemma_pow2_unfold(i);
        vstd::arithmetic::power2::lemma_pow2_pos((i - 1) as nat);
        vstd::arithmetic::div_mod::lemma_div_denominator(
            value,
            2,
            vstd::arithmetic::power2::pow2((i - 1) as nat) as int,
        );
    }
}

/// Triggering again what is pending leaves the pending bits that this CPU sees.
proof fn lemma_retriggered_pending(
    distributor: Distributor,
    cpu: CpuModel,
    int_id: int,
    value: int,
    r: int,
    index: int,
    done: nat,
)
    requires
        distributor.valid(),
        0 <= r < 32,
        int_id == r * 32 + done,
        0 <= value,
        value < vstd::arithmetic::power2::pow2((32 - done) as nat),
        done <= 32,
        index == cpu_index(cpu.target),
        distributor.can_retrigger(cpu, int_id, value, false),
        forall|k: int| #![trigger distributor.is_pending(index, k)]
            0 <= k - int_id < 32 - done && bit_of(value, k - int_id) ==> distributor.is_pending(
                index,
                k,
            ),
    ensures
        forall|k: int|
            0 <= k < 1024 ==> #[trigger] distributor.retriggered(cpu, int_id, value, false).0.is_pending(
                index,
                k,
            ) == distributor.is_pending(index, k),
    decreases value,
{
    if value > 0 {
        if done == 32 {
            vstd::arithmetic::power2::lemma2_to64();
        } else {
            vstd::arithmetic::power2::lemma_pow2_unfold((32 - done) as nat);
        }
        if value % 2 == 1 && distributor.is_selected(index, int_id, false) {
            let targets = distributor.retrigger_targets(cpu, int_id);
            let next = distributor.triggered(cpu, int_id, None, targets, 0, false);
            lemma_triggered_frame(distributor, cpu, int_id, None, targets, 0, false);
            lemma_can_retrigger_frame(
                distributor,
                next.0,
                cpu,
                next.1,
                int_id + 1,
                value / 2,
                false,
            );
            assert(bit_of(value, int_id - int_id));
            assert(distributor.is_pending(index, int_id));
            triggered_interrupt_is_pending(
                distributor,
                cpu,
                int_id,
                None,
                targets,
                0,
                false,
                index,
            );
            assert forall|k: int| 0 <= k < 1024 implies #[trigger] next.0.is_pending(index, k)
                == distributor.is_pending(index, k) by {}
            assert forall|k: int| #![trigger next.0.is_pending(index, k)]
                0 <= k - (int_id + 1) < 32 - (done + 1) && bit_of(value / 2, k - (int_id + 1))
                    implies next.0.is_pending(index, k) by {
                assert(bit_of(value, k - int_id));
                assert(distributor.is_pending(index, k));
            }
            lemma_retriggered_pending(next.0, next.1, int_id + 1, value / 2, r, index, done + 1);
        } else {
            assert forall|k: int| #![trigger distributor.is_pending(index, k)]
                0 <= k - (int_id + 1) < 32 - (done + 1) && bit_of(value / 2, k - (int_id + 1))
                    implies distributor.is_pending(index, k) by {
                assert(bit_of(value, k - int_id));
            }
            lemma_retriggered_pending(
                distributor,
                cpu,
                int_id + 1,
                value / 2,
                r,
                index,
                done + 1,
            );
        }
        let after = distributor.retriggered(cpu, int_id, value, false).0;
        assert forall|k: int| 0 <= k < 1024 implies #[trigger] after.is_pending(index, k)
            == distributor.is_pending(index, k) by {
            if value % 2 == 1 && distributor.is_selected(index, int_id, false) {
                let targets = distributor.retrigger_targets(cpu, int_id);
                let next = distributor.triggered(cpu, int_id, None, targets, 0, false);
                assert(after == next.0.retriggered(next.1, int_id + 1, value / 2, false).0);
                assert(next.0.is_pending(index, k) == distributor.is_pending(index, k));
            } else {
                assert(after == distributor.retriggered(cpu, int_id + 1, value / 2, false).0);
            }
        }
    }
}

} // verus!
