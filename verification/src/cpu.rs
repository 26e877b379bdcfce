//! What the system registers of a CPU mean, and which cache lines a range of memory is in.

use vstd::prelude::*;

verus! {

/// The affinity fields of an MPIDR_EL1 value, which name the CPU: all but bits 31 and 30.
pub fn mpidr_to_affinity(mpidr: u64) -> (affinity: u64)
    ensures
        affinity == affinity_of(mpidr),
{
    mpidr & !0xC000_0000u64
}

/// The affinity in an MPIDR_EL1 value.
pub open spec fn affinity_of(mpidr: u64) -> u64 {
    mpidr & !0xC000_0000u64
}

/// The affinity of a CPU is its own affinity, and does not depend on the two bits.
pub proof fn affinity_ignores_the_flags(mpidr: u64, flags: u64)
    requires
        flags & !0xC000_0000u64 == 0,
    ensures
        affinity_of(mpidr | flags) == affinity_of(mpidr),
        affinity_of(affinity_of(mpidr)) == affinity_of(mpidr),
{
    assert((mpidr | flags) & !0xC000_0000u64 == mpidr & !0xC000_0000u64 && (mpidr
        & !0xC000_0000u64) & !0xC000_0000u64 == mpidr & !0xC000_0000u64) by (bit_vector)
        requires
            flags & !0xC000_0000u64 == 0,
    ;
}

/// The exception level in a CurrentEL value.
pub fn get_currentel(currentel: u64) -> (level: u64)
    ensures
        level == currentel / 4,
{
    currentel / 4
}

/// The address of the instruction after a trapped one.
pub fn advance_elr_el2(elr_el2: u64) -> (next: u64)
    ensures
        next == elr_el2.wrapping_add(4),
{
    elr_el2.wrapping_add(4)
}

/// The value of DAIF with IRQ and FIQ masked.
pub fn get_daif_and_disable_irq_fiq(daif: u64) -> (masked: u64)
    ensures
        masked == daif | 0xC0,
{
    daif | 0xC0
}

/// The length of a cache line, from its field in CTR_EL0: a power of two of words.
pub open spec fn line_size_of(field: u64) -> int {
    4 * vstd::arithmetic::power2::pow2(field as nat) as int
}

fn line_size(field: u64) -> (size: u64)
    requires
        field < 16,
    ensures
        size == line_size_of(field),
        4 <= size <= 0x2_0000,
{
    proof {
        vstd::arithmetic::power2::lemma2_to64();
        vstd::bits::lemma_u64_shl_is_mul(4, field);
        vstd::arithmetic::power2::lemma_pow2_pos(field as nat);
        if field < 15 {
            vstd::arithmetic::power2::lemma_pow2_strictly_increases(field as nat, 15);
        }
    }
    4u64 << field
}

/// The length of a line of the data cache.
pub fn get_dcache_line_size(ctr_el0: u64) -> (size: u64)
    ensures
        size == line_size_of((ctr_el0 / 0x1_0000) % 16),
        4 <= size <= 0x2_0000,
{
    line_size((ctr_el0 / 0x1_0000) % 16)
}

/// The length of a line of the instruction cache.
pub fn get_icache_line_size(ctr_el0: u64) -> (size: u64)
    ensures
        size == line_size_of(ctr_el0 % 16),
        4 <= size <= 0x2_0000,
{
    line_size(ctr_el0 % 16)
}

/// The cache lines that hold a range of memory, in turn.
#[derive(Clone, Copy, PartialEq, Eq, Debug, Structural)]
pub struct CacheLines {
    /// The next line. `None` behind the last one.
    pub line: Option<u64>,
    pub end: u64,
    pub line_size: u64,
}

impl CacheLines {
    pub open spec fn wf(self) -> bool {
        &&& self.line_size > 0
        &&& self.line matches Some(line) ==> line < self.end && line % self.line_size == 0
    }

    /// The lines that hold the `size` bytes at `address`, as far as the address space goes.
    pub fn new(address: u64, size: u64, line_size: u64) -> (lines: Self)
        requires
            line_size > 0,
        ensures
            lines.wf(),
            lines.line_size == line_size,
            lines.end == if address + size > u64::MAX {
                u64::MAX as int
            } else {
                address + size
            },
            lines.line == if address - address % line_size < lines.end {
                Some((address - address % line_size) as u64)
            } else {
                None
            },
    {
        let end: u64 = match address.checked_add(size) {
            Some(end) => end,
            None => u64::MAX,
        };
        proof {
            vstd::arithmetic::div_mod::lemma_mod_decreases(address as nat, line_size as nat);
        }
        let first: u64 = address - address % line_size;
        proof {
            let a = address as int;
            let l = line_size as int;
            vstd::arithmetic::div_mod::lemma_fundamental_div_mod(a, l);
            vstd::arithmetic::div_mod::lemma_mod_multiples_basic(a / l, l);
            assert(first == l * (a / l));
            vstd::arithmetic::mul::lemma_mul_is_commutative(l, a / l);
        }
        Self {
            line: if first < end {
                Some(first)
            } else {
                None
            },
            end,
            line_size,
        }
    }

    /// The next line.
    pub fn next_line(&mut self) -> (line: Option<u64>)
        requires
            old(self).wf(),
        ensures
            final(self).wf(),
            line == old(self).line,
            final(self).end == old(self).end,
            final(self).line_size == old(self).line_size,
            final(self).line == match old(self).line {
                Some(line) => if line + old(self).line_size < old(self).end {
                    Some((line + old(self).line_size) as u64)
                } else {
                    None
                },
                None => None,
            },
    {
        let current: Option<u64> = self.line;
        self.line = match current {
            Some(line) => if self.end - line > self.line_size {
                proof {
                    vstd::arithmetic::div_mod::lemma_mod_add_multiples_vanish(
                        line as int,
                        self.line_size as int,
                    );
                }
                Some(line + self.line_size)
            } else {
                None
            },
            None => None,
        };
        current
    }

    /// The lines from here on.
    pub open spec fn rest(self) -> Seq<u64>
        decreases self.end - (match self.line {
            Some(line) => line as int,
            None => self.end as int,
        }),
    {
        match self.line {
            Some(line) => if self.line_size > 0 && line < self.end {
                seq![line] + (CacheLines {
                    line: if line + self.line_size < self.end {
                        Some((line + self.line_size) as u64)
                    } else {
                        None
                    },
                    ..self
                }).rest()
            } else {
                Seq::empty()
            },
            None => Seq::empty(),
        }
    }
}

/// Every byte from the next line up to the end of the range is in one of the lines from here on.
pub proof fn lines_cover_the_range(lines: CacheLines, address: int)
    requires
        lines.wf(),
        lines.line is Some,
        lines.line->Some_0 <= address < lines.end,
    ensures
        exists|i: int|
            0 <= i < lines.rest().len() && #[trigger] lines.rest()[i] <= address
                < lines.rest()[i] + lines.line_size,
    decreases lines.end - lines.line->Some_0,
{
    let line = lines.line->Some_0;
    let after = CacheLines {
        line: if line + lines.line_size < lines.end {
            Some((line + lines.line_size) as u64)
        } else {
            None
        },
        ..lines
    };
    assert(lines.rest() == seq![line] + after.rest());
    if address < line + lines.line_size {
        assert(lines.rest()[0] == line);
    } else {
        vstd::arithmetic::div_mod::lemma_mod_add_multiples_vanish(
            line as int,
            lines.line_size as int,
        );
        lines_cover_the_range(after, address);
        let i = choose|i: int|
            0 <= i < after.rest().len() && #[trigger] after.rest()[i] <= address
                < after.rest()[i] + lines.line_size;
        assert(lines.rest()[i + 1] == after.rest()[i]);
    }
}

} // verus!
