//! Powers of two, masks and alignment.

use vstd::prelude::*;

verus! {

/// The largest multiple of `2^order` that is not above `address`.
pub open spec fn align_down(address: int, order: nat) -> int {
    address - address % (vstd::arithmetic::power2::pow2(order) as int)
}

/// The smallest multiple of `2^order` that is not below `address`.
pub open spec fn align_up(address: int, order: nat) -> int {
    if address <= 0 {
        0
    } else {
        align_down(address - 1, order) + vstd::arithmetic::power2::pow2(order)
    }
}

/// The number of bytes in the blocks of `2^order` that hold `size` bytes at `address`.
pub open spec fn aligned_size(address: int, size: int, order: nat) -> int {
    align_down(size + (address - align_down(address, order)) - 1, order)
        + vstd::arithmetic::power2::pow2(order)
}

/// Clearing the low `order` bits rounds down to a multiple of `2^order`.
pub proof fn lemma_mask_aligns_down(address: usize, order: usize)
    requires
        order < usize::BITS,
    ensures
        (1usize << order) == vstd::arithmetic::power2::pow2(order as nat),
        (1usize << order) >= 1,
        (address & !((((1usize << order) - 1) as usize))) == align_down(address as int, order as nat),
{
    vstd::arithmetic::power2::lemma_pow2_pos(order as nat);
    vstd::bits::lemma_usize_pow2_no_overflow(order as nat);
    vstd::bits::lemma_usize_shl_is_mul(1, order);
    vstd::bits::lemma_usize_shr_is_div(address, order);
    let high: usize = address >> order;
    let p = vstd::arithmetic::power2::pow2(order as nat) as int;
    assert((address & !((((1usize << order) - 1) as usize))) == (address >> order) << order)
        by (bit_vector)
        requires
            order < usize::BITS,
    ;
    vstd::arithmetic::div_mod::lemma_fundamental_div_mod(address as int, p);
    vstd::arithmetic::mul::lemma_mul_is_commutative(address as int / p, p);
    assert(high * p <= address) by {
        vstd::arithmetic::div_mod::lemma_mod_bound(address as int, p);
    }
    vstd::bits::lemma_usize_shl_is_mul(high, order);
}

/// The same for addresses of 64 bits.
pub proof fn lemma_mask_aligns_down_u64(address: u64, order: u64)
    requires
        order < 64,
    ensures
        (1u64 << order) == vstd::arithmetic::power2::pow2(order as nat),
        (1u64 << order) >= 1,
        (address & !((((1u64 << order) - 1) as u64))) == align_down(address as int, order as nat),
{
    vstd::arithmetic::power2::lemma_pow2_pos(order as nat);
    vstd::bits::lemma_u64_pow2_no_overflow(order as nat);
    vstd::bits::lemma_u64_shl_is_mul(1, order);
    vstd::bits::lemma_u64_shr_is_div(address, order);
    let high: u64 = address >> order;
    let p = vstd::arithmetic::power2::pow2(order as nat) as int;
    assert((address & !((((1u64 << order) - 1) as u64))) == (address >> order) << order)
        by (bit_vector)
        requires
            order < 64,
    ;
    vstd::arithmetic::div_mod::lemma_fundamental_div_mod(address as int, p);
    vstd::arithmetic::mul::lemma_mul_is_commutative(address as int / p, p);
    assert(high * p <= address) by {
        vstd::arithmetic::div_mod::lemma_mod_bound(address as int, p);
    }
    vstd::bits::lemma_u64_shl_is_mul(high, order);
}

/// Rounding down moves by less than one unit, and lands on a multiple.
pub proof fn lemma_align_down(address: int, order: nat)
    ensures
        vstd::arithmetic::power2::pow2(order) >= 1,
        align_down(address, order) <= address < align_down(address, order)
            + vstd::arithmetic::power2::pow2(order),
        align_down(address, order) % (vstd::arithmetic::power2::pow2(order) as int) == 0,
        address >= 0 ==> align_down(address, order) >= 0,
{
    vstd::arithmetic::power2::lemma_pow2_pos(order);
    let p = vstd::arithmetic::power2::pow2(order) as int;
    vstd::arithmetic::div_mod::lemma_mod_bound(address, p);
    vstd::arithmetic::div_mod::lemma_fundamental_div_mod(address, p);
    assert(address - address % p == p * (address / p));
    vstd::arithmetic::div_mod::lemma_mod_multiples_basic(address / p, p);
    vstd::arithmetic::mul::lemma_mul_is_commutative(address / p, p);
    if address >= 0 {
        vstd::arithmetic::div_mod::lemma_div_pos_is_pos(address, p);
        vstd::arithmetic::mul::lemma_mul_nonnegative(p, address / p);
    }
}

/// Rounding up moves by less than one unit, and lands on a multiple.
pub proof fn lemma_align_up(address: int, order: nat)
    requires
        address >= 0,
    ensures
        vstd::arithmetic::power2::pow2(order) >= 1,
        address <= align_up(address, order) < address + vstd::arithmetic::power2::pow2(order),
        align_up(address, order) % (vstd::arithmetic::power2::pow2(order) as int) == 0,
        order == 0 ==> align_up(address, order) == address,
{
    lemma_align_down(address - 1, order);
    let p = vstd::arithmetic::power2::pow2(order) as int;
    if address > 0 {
        let d = align_down(address - 1, order);
        vstd::arithmetic::div_mod::lemma_mod_add_multiples_vanish(d, p);
    } else {
        vstd::arithmetic::div_mod::lemma_small_mod(0nat, p as nat);
    }
    if order == 0 {
        vstd::arithmetic::power2::lemma2_to64();
    }
}

/// Bit `i` of a 32-bit register.
pub open spec fn bit(value: u32, i: int) -> bool {
    (value >> (i as u32)) & 1 == 1
}

/// Setting a bit sets that bit, clearing it clears it, and no other bit changes.
pub proof fn lemma_change_bit(value: u32, i: int, j: int)
    requires
        0 <= i < 32,
        0 <= j < 32,
    ensures
        bit(value | (1u32 << (i as u32)), j) == (bit(value, j) || i == j),
        bit(value & !(1u32 << (i as u32)), j) == (bit(value, j) && i != j),
{
    let a = i as u32;
    let b = j as u32;
    assert((((value | (1u32 << a)) >> b) & 1 == 1 <==> ((value >> b) & 1 == 1 || a == b)) && (((value
        & !(1u32 << a)) >> b) & 1 == 1 <==> ((value >> b) & 1 == 1 && a != b))) by (bit_vector)
        requires
            a < 32,
            b < 32,
    ;
}

/// The lowest bit is the remainder by two, and shifting by one is halving.
pub proof fn lemma_halve(value: u64)
    ensures
        value & 1 == value % 2,
        value >> 1u64 == value / 2,
{
    assert(value & 1 == value % 2 && value >> 1u64 == value / 2) by (bit_vector);
}

/// The number in `n` bytes from `at` on, least significant byte first.
pub open spec fn le_number(bytes: Seq<u8>, at: int, n: nat) -> int
    decreases n,
{
    if n == 0 {
        0
    } else {
        bytes[at] + 256 * le_number(bytes, at + 1, (n - 1) as nat)
    }
}

/// Reads a number, least significant byte first.
pub fn read_le(bytes: &[u8], at: usize, n: usize) -> (value: u64)
    requires
        n <= 8,
        at + n <= bytes@.len(),
    ensures
        value == le_number(bytes@, at as int, n as nat),
{
    let length: usize = bytes.len();
    let mut i: usize = n;
    let mut value: u64 = 0;
    proof {
        crate::guest_ram::lemma_byte_ranges();
    }
    while i > 0
        invariant
            i <= n <= 8,
            length == bytes@.len(),
            at + n <= length,
            value == le_number(bytes@, at + i, (n - i) as nat),
            value < crate::guest_ram::byte_range((n - i) as nat),
        decreases i,
    {
        proof {
            crate::guest_ram::lemma_byte_ranges();
        }
        i = i - 1;
        value = bytes[at + i] as u64 + 256 * value;
    }
    value
}

} // verus!
