//! Bit fields as numbers.

use vstd::prelude::*;

verus! {

/// The fields of a syndrome and of the faulting addresses, as quotients and remainders.
pub proof fn lemma_syndrome(esr: u64, hpfar: u64, far: u64)
    ensures
        (esr & 0x0100_0000 != 0) == (esr / 0x100_0000 % 2 == 1),
        (esr & 0x00C0_0000) >> 22u64 == esr / 0x40_0000 % 4,
        (esr & 0x40 != 0) == (esr / 0x40 % 2 == 1),
        (esr & 0x8000 != 0) == (esr / 0x8000 % 2 == 1),
        (esr & 0x001F_0000) >> 16u64 == esr / 0x1_0000 % 32,
        (((hpfar & 0x0FFF_FFFF_FFF0) >> 4u64) << 12u64) | (far & 0xFFF) == (hpfar / 16
            % 0x100_0000_0000) * 0x1000 + far % 0x1000,
        (esr & 0xFC00_0000) == (esr / 0x400_0000 % 64) * 0x400_0000,
        (esr & 0xFC00_0000) >> 26u64 == esr / 0x400_0000 % 64,
        esr & 0xFFFF_FFFF == esr % 0x1_0000_0000,
{
    assert({
        &&& (esr & 0x0100_0000 != 0) == (esr / 0x100_0000 % 2 == 1)
        &&& (esr & 0x00C0_0000) >> 22u64 == esr / 0x40_0000 % 4
        &&& (esr & 0x40 != 0) == (esr / 0x40 % 2 == 1)
        &&& (esr & 0x8000 != 0) == (esr / 0x8000 % 2 == 1)
        &&& (esr & 0x001F_0000) >> 16u64 == esr / 0x1_0000 % 32
        &&& (((hpfar & 0x0FFF_FFFF_FFF0) >> 4u64) << 12u64) | (far & 0xFFF) == (hpfar / 16
            % 0x100_0000_0000) * 0x1000 + far % 0x1000
        &&& (esr & 0xFC00_0000) == (esr / 0x400_0000 % 64) * 0x400_0000
        &&& (esr & 0xFC00_0000) >> 26u64 == esr / 0x400_0000 % 64
        &&& esr & 0xFFFF_FFFF == esr % 0x1_0000_0000
    }) by (bit_vector);
}

/// Writing a word, setting bits and clearing bits, bit by bit.
pub proof fn lemma_words(register: u32, value: u64, b: u32)
    requires
        b < 32,
    ensures
        ({
            let word = #[verifier::truncate] (value as u32);
            let at = b as u64;
            &&& word as u64 == value % 0x1_0000_0000
            &&& ((register as u64) >> at) & 1 == ((register >> b) & 1) as u64
            &&& (((register | word) as u64) >> at) & 1 == 1 <==> ((register as u64) >> at) & 1 == 1
                || (value >> at) & 1 == 1
            &&& (((register & !word) as u64) >> at) & 1 == 1 <==> ((register as u64) >> at) & 1 == 1
                && (value >> at) & 1 == 0
        }),
{
    let word = #[verifier::truncate] (value as u32);
    let at = b as u64;
    assert({
        &&& (value as u32) as u64 == value % 0x1_0000_0000
        &&& ((register as u64) >> at) & 1 == ((register >> b) & 1) as u64
        &&& (((register | (value as u32)) as u64) >> at) & 1 == 1 <==> ((register as u64) >> at) & 1
            == 1 || (value >> at) & 1 == 1
        &&& (((register & !(value as u32)) as u64) >> at) & 1 == 1 <==> ((register as u64) >> at) & 1
            == 1 && (value >> at) & 1 == 0
    }) by (bit_vector)
        requires
            b < 32,
            at == b as u64,
    ;
}

/// The fields of a value for GICD_SGIR, and the bits of a target mask.
pub proof fn lemma_targets(value: u64, target: u8, c: u8)
    requires
        c < 8,
    ensures
        ({
            let word = #[verifier::truncate] (value as u32);
            let list = #[verifier::truncate] (((value >> 16u64) & 0xFF) as u8);
            let at = (16 + c) as u64;
            &&& word & 0xF == value % 16
            &&& (value >> 24u64) & 3 == value / 0x100_0000 % 4
            &&& list & (1u8 << c) != 0 <==> (value >> at) & 1 == 1
            &&& (0x0Fu8 & !target) & (1u8 << c) != 0 <==> c < 4 && target & (1u8 << c) == 0
            &&& (1u8 << c) != 0
            &&& (1u8 << c) & target != 0 <==> target & (1u8 << c) != 0
        }),
{
    let at = (16 + c) as u64;
    assert({
        &&& (value as u32) & 0xF == value % 16
        &&& (value >> 24u64) & 3 == value / 0x100_0000 % 4
        &&& (((value >> 16u64) & 0xFF) as u8) & (1u8 << c) != 0 <==> (value >> at) & 1 == 1
        &&& (0x0Fu8 & !target) & (1u8 << c) != 0 <==> c < 4 && target & (1u8 << c) == 0
        &&& (1u8 << c) != 0
        &&& (1u8 << c) & target != 0 <==> target & (1u8 << c) != 0
    }) by (bit_vector)
        requires
            c < 8,
            at == 16 + c,
    ;
}

/// The target bits of two CPUs are the same only where the CPUs are, and the lowest CPU of one target
/// bit is that CPU.
pub proof fn lemma_target_bits(a: u8, b: u8, target: u8)
    requires
        a < 8,
        b < 8,
    ensures
        a < b ==> (1u8 << a) < (1u8 << b),
        (1u8 << a) & (1u8 << b) != 0 <==> a == b,
        crate::mmio::gicv2::cpu_index(1u8 << a) == a,
        target & (1u8 << a) != 0 && (forall|c: u8| c < a ==> target & (1u8 << c) == 0)
            ==> crate::mmio::gicv2::cpu_index(target) == a,
{
    assert({
        &&& a < b ==> (1u8 << a) < (1u8 << b)
        &&& (1u8 << a) & (1u8 << b) != 0 <==> a == b
        &&& 1u8 << 0u8 == 1 && 1u8 << 1u8 == 2 && 1u8 << 2u8 == 4 && 1u8 << 3u8 == 8
        &&& 1u8 << 4u8 == 0x10 && 1u8 << 5u8 == 0x20 && 1u8 << 6u8 == 0x40 && 1u8 << 7u8 == 0x80
        &&& (1u8 << a) & 1 != 0 <==> a == 0
        &&& (1u8 << a) & 2 != 0 <==> a == 1
        &&& (1u8 << a) & 4 != 0 <==> a == 2
        &&& (1u8 << a) & 8 != 0 <==> a == 3
        &&& (1u8 << a) & 0x10 != 0 <==> a == 4
        &&& (1u8 << a) & 0x20 != 0 <==> a == 5
        &&& (1u8 << a) & 0x40 != 0 <==> a == 6
    }) by (bit_vector)
        requires
            a < 8,
            b < 8,
    ;
    if target & (1u8 << a) != 0 && (forall|c: u8| c < a ==> target & (1u8 << c) == 0) {
        if a > 0 {
            assert(target & (1u8 << 0u8) == 0);
        }
        if a > 1 {
            assert(target & (1u8 << 1u8) == 0);
        }
        if a > 2 {
            assert(target & (1u8 << 2u8) == 0);
        }
        if a > 3 {
            assert(target & (1u8 << 3u8) == 0);
        }
        if a > 4 {
            assert(target & (1u8 << 4u8) == 0);
        }
        if a > 5 {
            assert(target & (1u8 << 5u8) == 0);
        }
        if a > 6 {
            assert(target & (1u8 << 6u8) == 0);
        }
    }
}

/// Replacing one byte of a register leaves the three others.
pub proof fn lemma_byte(register: u32, value: u64, s: u32, t: u32)
    requires
        s == 0 || s == 8 || s == 16 || s == 24,
        t == 0 || t == 8 || t == 16 || t == 24,
        value < 256,
    ensures
        ({
            let shift = s as u64;
            let after = (register & !(0xFFu32 << s)) | (#[verifier::truncate] ((value << shift)
                as u32));
            let at = t as u64;
            &&& ((after as u64) >> at) & 0xff == if s == t {
                value
            } else {
                ((register as u64) >> at) & 0xff
            }
            &&& ((after >> t) as u64) & 0xff == if s == t {
                value
            } else {
                ((register >> t) as u64) & 0xff
            }
        }),
{
    let shift = s as u64;
    let at = t as u64;
    let after = (register & !(0xFFu32 << s)) | (#[verifier::truncate] ((value << shift) as u32));
    assert({
        &&& s == t ==> ((after as u64) >> at) & 0xff == value
        &&& s != t ==> ((after as u64) >> at) & 0xff == ((register as u64) >> at) & 0xff
        &&& s == t ==> ((after >> t) as u64) & 0xff == value
        &&& s != t ==> ((after >> t) as u64) & 0xff == ((register >> t) as u64) & 0xff
    }) by (bit_vector)
        requires
            s == 0 || s == 8 || s == 16 || s == 24,
            t == 0 || t == 8 || t == 16 || t == 24,
            value < 256,
            shift == s as u64,
            at == t as u64,
            after == (register & !(0xFFu32 << s)) | ((value << shift) as u32),
    ;
}

/// The low bits of a number, one bit of a status, and the fields of a List Register.
pub proof fn lemma_truncation(value: u64)
    ensures
        (#[verifier::truncate] (value as u8)) == value % 256,
        (#[verifier::truncate] (value as u16)) == value % 0x1_0000,
        (#[verifier::truncate] (value as u32)) == value % 0x1_0000_0000,
{
    lemma_small(value, 0, 0);
}

/// All but two bits of a number.
pub proof fn lemma_affinity(value: u64)
    ensures
        value & !0xC000_0000u64 == value % 0x4000_0000 + value / 0x1_0000_0000 * 0x1_0000_0000,
{
    lemma_small(value, 0, 0);
}

/// The receive bit of a status can be set.
pub proof fn lemma_receive_bit(status: u16)
    ensures
        (status | 0x10) & 0x10 != 0,
{
    lemma_small(0, status, 0);
}

/// The fields of a List Register: the INTID, and whether there is one.
pub proof fn lemma_list_register(register: u32)
    ensures
        (register & 0x3000_0000 != 0) == (register / 0x1000_0000 % 4 != 0),
        register & 0x3FF == register % 0x400,
        (register | 0x1000_0000) % 0x1000_0000 == register % 0x1000_0000,
        (register | 0x1000_0000) / 0x2000_0000 == register / 0x2000_0000,
        (register | 0x1000_0000) / 0x1000_0000 % 2 == 1,
        register & 0xFF == register % 256,
        register & 0x3F == register % 64,
        register & 3 == register % 4,
        1u32 | 2u32 == 3u32,
        (register | 0x1000_0000u32) & 0x3FF == register & 0x3FF,
        (register | 0x1000_0000u32) & 0x3000_0000 != 0,
{
    lemma_small(0, 0, register);
}

proof fn lemma_small(value: u64, status: u16, register: u32)
    ensures
        (#[verifier::truncate] (value as u8)) == value % 256,
        (#[verifier::truncate] (value as u16)) == value % 0x1_0000,
        (#[verifier::truncate] (value as u32)) == value % 0x1_0000_0000,
        (status | 0x10) & 0x10 != 0,
        value & !0xC000_0000u64 == value % 0x4000_0000 + value / 0x1_0000_0000 * 0x1_0000_0000,
        (register & 0x3000_0000 != 0) == (register / 0x1000_0000 % 4 != 0),
        register & 0x3FF == register % 0x400,
        (register | 0x1000_0000) % 0x1000_0000 == register % 0x1000_0000,
        (register | 0x1000_0000) / 0x2000_0000 == register / 0x2000_0000,
        (register | 0x1000_0000) / 0x1000_0000 % 2 == 1,
        register & 0xFF == register % 256,
        register & 0x3F == register % 64,
        register & 3 == register % 4,
        1u32 | 2u32 == 3u32,
        (register | 0x1000_0000u32) & 0x3FF == register & 0x3FF,
        (register | 0x1000_0000u32) & 0x3000_0000 != 0,
{
    assert({
        &&& (value as u8) == value % 256
        &&& (value as u16) == value % 0x1_0000
        &&& (value as u32) == value % 0x1_0000_0000
        &&& (status | 0x10) & 0x10 != 0
        &&& (register & 0x3000_0000 != 0) == (register / 0x1000_0000 % 4 != 0)
        &&& register & 0x3FF == register % 0x400
        &&& (register | 0x1000_0000) % 0x1000_0000 == register % 0x1000_0000
        &&& (register | 0x1000_0000) / 0x2000_0000 == register / 0x2000_0000
        &&& (register | 0x1000_0000) / 0x1000_0000 % 2 == 1
        &&& register & 0xFF == register % 256
        &&& register & 0x3F == register % 64
        &&& register & 3 == register % 4
        &&& 1u32 | 2u32 == 3u32
        &&& (register | 0x1000_0000u32) & 0x3FF == register & 0x3FF
        &&& (register | 0x1000_0000u32) & 0x3000_0000 != 0
        &&& value & !0xC000_0000u64 == value % 0x4000_0000 + value / 0x1_0000_0000 * 0x1_0000_0000
    }) by (bit_vector);
}

/// The output address of a descriptor, with the place in the page or block.
pub proof fn lemma_output(d: u64, base: u64, x: u64)
    requires
        base < 0x4_0000_0000_0000,
        base % 0x1000 == 0,
    ensures
        base & 0x0003_FFFF_FFFF_F000 == base,
        d & 0x0003_FFFF_FFFF_F000 == base ==> {
            &&& base % 0x4000_0000 == 0 ==> (d & 0x0003_FFFF_FFFF_F000 & !0x3FFF_FFFFu64) | (x
                & 0x3FFF_FFFF) == base + x % 0x4000_0000
            &&& base % 0x20_0000 == 0 ==> (d & 0x0003_FFFF_FFFF_F000 & !0x1F_FFFFu64) | (x
                & 0x1F_FFFF) == base + x % 0x20_0000
            &&& (d & 0x0003_FFFF_FFFF_F000 & !0xFFFu64) | (x & 0xFFF) == base + x % 0x1000
        },
{
    assert({
        &&& base & 0x0003_FFFF_FFFF_F000 == base
        &&& d & 0x0003_FFFF_FFFF_F000 == base ==> {
            &&& base % 0x4000_0000 == 0 ==> (d & 0x0003_FFFF_FFFF_F000 & !0x3FFF_FFFFu64) | (x
                & 0x3FFF_FFFF) == base + x % 0x4000_0000
            &&& base % 0x20_0000 == 0 ==> (d & 0x0003_FFFF_FFFF_F000 & !0x1F_FFFFu64) | (x
                & 0x1F_FFFF) == base + x % 0x20_0000
            &&& (d & 0x0003_FFFF_FFFF_F000 & !0xFFFu64) | (x & 0xFFF) == base + x % 0x1000
        }
    }) by (bit_vector)
        requires
            base < 0x4_0000_0000_0000,
            base % 0x1000 == 0,
    ;
}

/// The bits of an interrupt status.
pub proof fn lemma_status(status: u16)
    ensures
        (status & 0x10 != 0) == (status / 0x10 % 2 == 1),
        (status & 0x20 != 0) == (status / 0x20 % 2 == 1),
        (status & 2 != 0) == (status / 2 % 2 == 1),
        (status & 1 != 0) == (status % 2 == 1),
{
    assert((status & 0x10 != 0) == (status / 0x10 % 2 == 1) && (status & 0x20 != 0) == (status / 0x20
        % 2 == 1) && (status & 2 != 0) == (status / 2 % 2 == 1) && (status & 1 != 0) == (status % 2
        == 1)) by (bit_vector);
}

/// A field of one, two or eight bits of a word that is replaced, and the other fields of the word.
pub proof fn lemma_replaced(current: u32, value: u32, s: u32, t: u32)
    ensures
        s < 32 && t < 32 ==> {
            let after = (current & !(1u32 << s)) | (1u32 << s);
            &&& (after >> s) & 1 == 1
            &&& t != s ==> (after >> t) & 1 == (current >> t) & 1
            &&& ((1u32 << s) >> s) & 1 == 1
            &&& t != s ==> ((1u32 << s) >> t) & 1 == 0
            &&& (((current & !0u32) | (1u32 << s)) >> s) & 1 == 1
        },
        s < 16 && t < 16 && value < 4 ==> {
            let after = (current & !(3u32 << ((2 * s) as u32))) | (value << ((2 * s) as u32));
            &&& (after >> ((2 * s) as u32)) & 3 == value
            &&& t != s ==> (after >> ((2 * t) as u32)) & 3 == (current >> ((2 * t) as u32)) & 3
        },
        s < 4 && t < 4 && value < 256 ==> {
            let after = (current & !(0xFFu32 << ((8 * s) as u32))) | (value << ((8 * s) as u32));
            &&& (after >> ((8 * s) as u32)) & 0xFF == value
            &&& t != s ==> (after >> ((8 * t) as u32)) & 0xFF == (current >> ((8 * t) as u32)) & 0xFF
        },
{
    assert({
        &&& s < 32 && t < 32 ==> {
            &&& (((current & !(1u32 << s)) | (1u32 << s)) >> s) & 1 == 1
            &&& t != s ==> (((current & !(1u32 << s)) | (1u32 << s)) >> t) & 1 == (current >> t) & 1
            &&& ((1u32 << s) >> s) & 1 == 1
            &&& t != s ==> ((1u32 << s) >> t) & 1 == 0
            &&& (((current & !0u32) | (1u32 << s)) >> s) & 1 == 1
        }
        &&& s < 16 && t < 16 && value < 4 ==> {
            &&& (((current & !(3u32 << ((2 * s) as u32))) | (value << ((2 * s) as u32))) >> ((2 * s) as u32))
                & 3 == value
            &&& t != s ==> (((current & !(3u32 << ((2 * s) as u32))) | (value << ((2 * s) as u32)))
                >> ((2 * t) as u32)) & 3 == (current >> ((2 * t) as u32)) & 3
        }
        &&& s < 4 && t < 4 && value < 256 ==> {
            &&& (((current & !(0xFFu32 << ((8 * s) as u32))) | (value << ((8 * s) as u32)))
                >> ((8 * s) as u32)) & 0xFF == value
            &&& t != s ==> (((current & !(0xFFu32 << ((8 * s) as u32))) | (value << ((8 * s) as u32)))
                >> ((8 * t) as u32)) & 0xFF == (current >> ((8 * t) as u32)) & 0xFF
        }
    }) by (bit_vector);
}

/// The two fields of a value for GICD_SGIR that prods CPUs.
pub proof fn lemma_prod(target: u8, sgi_id: u32)
    ensures
        ({
            let value = (sgi_id & 0xF) | ((target as u32) << 16u32);
            &&& value % 16 == sgi_id % 16
            &&& value / 0x1_0000 % 256 == target
            &&& value / 0x100_0000 == 0
            &&& value / 16 % 0x1000 == 0
        }),
{
    assert({
        let value = (sgi_id & 0xF) | ((target as u32) << 16u32);
        &&& value % 16 == sgi_id % 16
        &&& value / 0x1_0000 % 256 == target
        &&& value / 0x100_0000 == 0
        &&& value / 16 % 0x1000 == 0
    }) by (bit_vector);
}

} // verus!
