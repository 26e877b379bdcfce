//! Stage 2 paging.

use crate::free_memory::FreeMemory;
use crate::memory_allocator::{MemoryAllocator, MemoryError};
use crate::registers::{
    ID_AA64MMFR0_EL1_PARANGE, VTCR_EL2_IRGN0_BITS_OFFSET, VTCR_EL2_ORGN0_BITS_OFFSET,
    VTCR_EL2_PS_BITS_OFFSET, VTCR_EL2_RES1, VTCR_EL2_SH0_BITS_OFFSET, VTCR_EL2_SL0,
    VTCR_EL2_SL0_BITS_OFFSET, VTTBR_BADDR, VTTBR_VMID, VTTBR_VMID_BITS_OFFSET,
};
use crate::stage2::{MapRequest, Stage2Table};
use crate::stage2_needs::Goal;
use vstd::prelude::*;

verus! {

#[derive(Copy, Clone, Eq, PartialEq, Debug, Structural)]
pub enum Shareability {
    NonShareable,
    OuterShareable,
    InnerShareable,
}

pub const PAGE_SHIFT: usize = 12;

pub const PAGE_SIZE: u64 = 0x1000;

/// A Stage 2 translation table descriptor.
#[derive(Clone, Copy, PartialEq, Eq, Debug, Structural)]
pub struct Descriptor(pub u64);

impl Descriptor {
    pub const TABLE_ADDRESS_MASK: u64 = 0x0003_FFFF_FFFF_F000;

    pub const OUTPUT_ADDRESS_MASK: u64 = 0x0003_FFFF_FFFF_F000;

    pub const AF: u64 = 0x400;

    pub const SH: u64 = 0x300;

    pub const SH_OFFSET: u64 = 8;

    pub const S2AP: u64 = 0xC0;

    pub const S2AP_OFFSET: u64 = 6;

    pub const ATTR_INDEX: u64 = 0x3C;

    pub const ATTR_WRITE_BACK: u64 = 0x3C;

    pub open spec fn is_table(self) -> bool {
        self.0 & 3 == 3
    }

    pub open spec fn is_valid(self) -> bool {
        self.0 & 1 == 1
    }

    /// The descriptor with the output address `address` and the access flag.
    pub open spec fn with_output_address(self, address: u64) -> Descriptor {
        Descriptor((self.0 & !0x0003_FFFF_FFFF_F000u64) | address | 0x400)
    }

    pub open spec fn with_permission(self, permission: u64) -> Descriptor {
        Descriptor((self.0 & !0xC0u64) | (permission << 6u64))
    }

    pub open spec fn with_memory_attribute(self, is_device: bool) -> Descriptor {
        if is_device {
            Descriptor(self.0 & !0x3Cu64)
        } else {
            Descriptor((self.0 & !0x3Cu64) | 0x3C)
        }
    }

    pub open spec fn with_inner_shareability(self) -> Descriptor {
        Descriptor((self.0 & !0x300u64) | (3u64 << 8u64))
    }

    /// The descriptor of the table at `address`.
    pub open spec fn table(address: u64) -> Descriptor {
        Descriptor(Descriptor(0).with_output_address(address).0 | 3)
    }

    /// The descriptor that maps the memory at `address` at `level`: a page at the last level, a
    /// block above it.
    pub open spec fn leaf(address: u64, permission: u64, is_device: bool, level: int) -> Descriptor {
        let attributes = Descriptor(0).with_output_address(address).with_permission(
            permission,
        ).with_memory_attribute(is_device).with_inner_shareability();
        if level == 3 {
            Descriptor(attributes.0 | 3)
        } else {
            Descriptor(attributes.0 | 1)
        }
    }

    pub fn new() -> (descriptor: Self)
        ensures
            descriptor == Descriptor(0),
    {
        Self(0)
    }

    pub fn init(&mut self)
        ensures
            *final(self) == Descriptor(0),
    {
        *self = Self::new();
    }

    pub fn validate_as_page_descriptor(&mut self)
        ensures
            final(self).0 == old(self).0 | 3,
    {
        self.0 = self.0 | 3;
    }

    pub fn validate_as_table_descriptor(&mut self)
        ensures
            final(self).0 == old(self).0 | 3,
    {
        self.0 = self.0 | 3;
    }

    pub fn validate_as_block_descriptor(&mut self)
        ensures
            final(self).0 == old(self).0 | 1,
    {
        self.0 = self.0 | 1;
    }

    pub fn is_table_descriptor(&self) -> (table: bool)
        ensures
            table == self.is_table(),
    {
        (self.0 & 3) == 3
    }

    pub fn get_next_level_table_address(&self) -> (address: u64)
        ensures
            address == self.0 & 0x0003_FFFF_FFFF_F000,
    {
        self.0 & Self::TABLE_ADDRESS_MASK
    }

    pub fn set_output_address(&mut self, output_address: u64)
        ensures
            *final(self) == old(self).with_output_address(output_address),
    {
        self.0 = (self.0 & !Self::OUTPUT_ADDRESS_MASK) | output_address | Self::AF;
    }

    pub fn set_shareability(&mut self, shareability: Shareability)
        ensures
            final(self).0 == (old(self).0 & !0x300u64) | ((match shareability {
                Shareability::NonShareable => 0u64,
                Shareability::OuterShareable => 2u64,
                Shareability::InnerShareable => 3u64,
            }) << 8u64),
    {
        let bits: u64 = match shareability {
            Shareability::NonShareable => 0,
            Shareability::OuterShareable => 2,
            Shareability::InnerShareable => 3,
        };
        self.0 = (self.0 & !Self::SH) | (bits << Self::SH_OFFSET);
    }

    pub fn set_permission(&mut self, permission: u64)
        ensures
            *final(self) == old(self).with_permission(permission),
    {
        self.0 = (self.0 & !Self::S2AP) | (permission << Self::S2AP_OFFSET);
    }

    pub fn set_memory_attribute_write_back(&mut self)
        ensures
            *final(self) == old(self).with_memory_attribute(false),
    {
        self.0 = (self.0 & !Self::ATTR_INDEX) | Self::ATTR_WRITE_BACK;
    }

    /// Sets the memory attribute to Device-nGnRnE, for MMIO that is passed through to the guest.
    pub fn set_memory_attribute_device(&mut self)
        ensures
            *final(self) == old(self).with_memory_attribute(true),
    {
        self.0 = self.0 & !Self::ATTR_INDEX;
    }

    /// The descriptor that maps the memory at `address` at `level`.
    pub fn create_leaf(address: u64, permission: u64, is_device: bool, level: u8) -> (descriptor: Self)
        ensures
            descriptor == Self::leaf(address, permission, is_device, level as int),
    {
        let mut descriptor: Descriptor = Self::new();
        descriptor.set_output_address(address);
        descriptor.set_permission(permission);
        if is_device {
            descriptor.set_memory_attribute_device();
        } else {
            descriptor.set_memory_attribute_write_back();
        }
        descriptor.set_shareability(Shareability::InnerShareable);
        if level == 3 {
            descriptor.validate_as_page_descriptor();
        } else {
            descriptor.validate_as_block_descriptor();
        }
        descriptor
    }
}

/// What the fields of a mapping descriptor say, where the address is aligned and in reach: the
/// address, the permission, the memory attribute, the access flag, and that it is a block or a page.
pub proof fn leaf_fields(address: u64, permission: u64, is_device: bool, level: int)
    requires
        address & 0x0003_FFFF_FFFF_F000 == address,
        permission <= 3,
    ensures
        ({
            let leaf = Descriptor::leaf(address, permission, is_device, level);
            &&& leaf.0 & 0x0003_FFFF_FFFF_F000 == address
            &&& (leaf.0 >> 6u64) & 3 == permission
            &&& (leaf.0 >> 2u64) & 0xF == (if is_device {
                0u64
            } else {
                0xFu64
            })
            &&& (leaf.0 >> 8u64) & 3 == 3
            &&& (leaf.0 >> 10u64) & 1 == 1
            &&& leaf.is_valid()
            &&& leaf.is_table() == (level == 3)
            &&& leaf.0 & 3 == if level == 3 {
                3u64
            } else {
                1u64
            }
        }),
{
    let a = (0u64 & !0x0003_FFFF_FFFF_F000u64) | address | 0x400;
    let b = (a & !0xC0u64) | (permission << 6u64);
    let device = ((b & !0x3Cu64) & !0x300u64) | (3u64 << 8u64);
    let normal = (((b & !0x3Cu64) | 0x3C) & !0x300u64) | (3u64 << 8u64);
    assert({
        &&& (device | 3) & 0x0003_FFFF_FFFF_F000 == address
        &&& (device | 1) & 0x0003_FFFF_FFFF_F000 == address
        &&& (normal | 3) & 0x0003_FFFF_FFFF_F000 == address
        &&& (normal | 1) & 0x0003_FFFF_FFFF_F000 == address
        &&& ((device | 3) >> 6u64) & 3 == permission
        &&& ((device | 1) >> 6u64) & 3 == permission
        &&& ((normal | 3) >> 6u64) & 3 == permission
        &&& ((normal | 1) >> 6u64) & 3 == permission
        &&& ((device | 3) >> 2u64) & 0xF == 0
        &&& ((device | 1) >> 2u64) & 0xF == 0
        &&& ((normal | 3) >> 2u64) & 0xF == 0xF
        &&& ((normal | 1) >> 2u64) & 0xF == 0xF
        &&& ((device | 3) >> 8u64) & 3 == 3
        &&& ((device | 1) >> 8u64) & 3 == 3
        &&& ((normal | 3) >> 8u64) & 3 == 3
        &&& ((normal | 1) >> 8u64) & 3 == 3
        &&& ((device | 3) >> 10u64) & 1 == 1
        &&& ((device | 1) >> 10u64) & 1 == 1
        &&& ((normal | 3) >> 10u64) & 1 == 1
        &&& ((normal | 1) >> 10u64) & 1 == 1
        &&& (device | 3) & 3 == 3
        &&& (device | 1) & 3 == 1
        &&& (normal | 3) & 3 == 3
        &&& (normal | 1) & 3 == 1
        &&& (device | 3) & 1 == 1
        &&& (device | 1) & 1 == 1
        &&& (normal | 3) & 1 == 1
        &&& (normal | 1) & 1 == 1
    }) by (bit_vector)
        requires
            address & 0x0003_FFFF_FFFF_F000 == address,
            permission <= 3,
            a == (0u64 & !0x0003_FFFF_FFFF_F000u64) | address | 0x400,
            b == (a & !0xC0u64) | (permission << 6u64),
            device == ((b & !0x3Cu64) & !0x300u64) | (3u64 << 8u64),
            normal == (((b & !0x3Cu64) | 0x3C) & !0x300u64) | (3u64 << 8u64),
    ;
}

/// The descriptor of a table at a page in reach is a table descriptor, and names that page.
pub proof fn table_descriptor_names_its_table(address: u64)
    requires
        address % 0x1000 == 0,
        address < 0x4_0000_0000_0000,
    ensures
        Descriptor::table(address).is_table(),
        Descriptor::table(address).0 & 0x0003_FFFF_FFFF_F000 == address,
{
    let value = ((0u64 & !0x0003_FFFF_FFFF_F000u64) | address | 0x400) | 3;
    assert(value & 3 == 3 && value & 0x0003_FFFF_FFFF_F000 == address) by (bit_vector)
        requires
            address % 0x1000 == 0,
            address < 0x4_0000_0000_0000,
            value == ((0u64 & !0x0003_FFFF_FFFF_F000u64) | address | 0x400) | 3,
    ;
}

/// How many tables a translation starts with, side by side, at `first_level`.
pub open spec fn concatenated_tables(t0sz: int, first_level: int) -> int {
    let bits = 43 - (3 - first_level) * 9;
    if t0sz > bits {
        1
    } else {
        vstd::arithmetic::power2::pow2((bits - t0sz) as nat) as int
    }
}

pub fn number_of_concatenated_page_tables(t0sz: u8, first_level: i8) -> (number: u64)
    requires
        -1 <= first_level <= 3,
    ensures
        number == concatenated_tables(t0sz as int, first_level as int),
        number >= 1,
{
    let bits: u8 = 43 - ((3 - first_level) as u8) * 9;
    if t0sz > bits {
        1
    } else {
        let order: u64 = (bits - t0sz) as u64;
        proof {
            vstd::arithmetic::power2::lemma_pow2_pos(order as nat);
            vstd::bits::lemma_u64_pow2_no_overflow(order as nat);
            vstd::bits::lemma_u64_shl_is_mul(1, order);
        }
        1u64 << order
    }
}

/// The size of the input addresses, as T0SZ, and the level that their translation starts at, for
/// a physical address range of this kind.
pub open spec fn stage2_parameters(parange: u64) -> (u64, i8) {
    if parange == 0 {
        (32, 1)
    } else if parange == 1 {
        (28, 1)
    } else if parange == 2 {
        (24, 1)
    } else if parange == 3 {
        (22, 1)
    } else if parange == 4 {
        (20, 0)
    } else {
        (16, 0)
    }
}

fn get_stage2_parameters(parange: u64) -> (parameters: (u64, i8))
    ensures
        parameters == stage2_parameters(parange),
{
    match parange {
        0 => (32, 1),
        1 => (28, 1),
        2 => (24, 1),
        3 => (22, 1),
        4 => (20, 0),
        _ => (16, 0),
    }
}

/// The value of VTCR_EL2 on a CPU with this ID_AA64MMFR0_EL1: 4 KiB granules, inner shareable
/// write-back walks, and the parameters of the physical address range.
pub open spec fn vtcr_of(id_aa64mmfr0_el1: u64) -> u64 {
    let ps = id_aa64mmfr0_el1 & 0xF;
    let (t0sz, level) = stage2_parameters(ps);
    0x8000_0000u64 | (ps << 16u64) | (3u64 << 12u64) | (3u64 << 10u64) | (3u64 << 8u64) | ((
    if level == 1 {
        1u64
    } else {
        2u64
    }) << 6u64) | t0sz
}

/// The value of VTCR_EL2 on a CPU with this ID_AA64MMFR0_EL1.
pub fn set_vtcr_el2_for_this_pcpu(id_aa64mmfr0_el1: u64) -> (vtcr_el2: u64)
    ensures
        vtcr_el2 == vtcr_of(id_aa64mmfr0_el1),
{
    let ps: u64 = id_aa64mmfr0_el1 & ID_AA64MMFR0_EL1_PARANGE;
    let (t0sz, initial_lookup_level) = get_stage2_parameters(ps);
    let sl0: u64 = if initial_lookup_level == 1 {
        1
    } else {
        2
    };
    VTCR_EL2_RES1 | (ps << VTCR_EL2_PS_BITS_OFFSET) | (3u64 << VTCR_EL2_SH0_BITS_OFFSET) | (3u64
        << VTCR_EL2_ORGN0_BITS_OFFSET) | (3u64 << VTCR_EL2_IRGN0_BITS_OFFSET) | (sl0
        << VTCR_EL2_SL0_BITS_OFFSET) | t0sz
}

/// The value of VTTBR_EL2 that makes the table at `table_address` the live translation, with its
/// TLB entries tagged by `vmid`.
pub fn activate_stage2_translation_table(table_address: u64, vmid: u64) -> (vttbr_el2: u64)
    ensures
        vttbr_el2 == ((vmid << 48u64) & 0x00FF_0000_0000_0000) | (table_address & 0x7FFF_FFFF_FFFE),
{
    ((vmid << VTTBR_VMID_BITS_OFFSET) & VTTBR_VMID) | (table_address & VTTBR_BADDR)
}

/// A table with VMID 0 to 255 at an even address below 2^47 is what VTTBR_EL2 then names.
pub proof fn vttbr_fields(table_address: u64, vmid: u64)
    requires
        vmid <= 0xFF,
        table_address & 0x7FFF_FFFF_FFFE == table_address,
    ensures
        ({
            let vttbr = ((vmid << 48u64) & 0x00FF_0000_0000_0000) | (table_address
                & 0x7FFF_FFFF_FFFE);
            vttbr >> 48u64 == vmid && vttbr & 0x7FFF_FFFF_FFFE == table_address
        }),
{
    let vttbr = ((vmid << 48u64) & 0x00FF_0000_0000_0000) | (table_address & 0x7FFF_FFFF_FFFE);
    assert(vttbr >> 48u64 == vmid && vttbr & 0x7FFF_FFFF_FFFE == table_address) by (bit_vector)
        requires
            vmid <= 0xFF,
            table_address & 0x7FFF_FFFF_FFFE == table_address,
            vttbr == ((vmid << 48u64) & 0x00FF_0000_0000_0000) | (table_address
                & 0x7FFF_FFFF_FFFE),
    ;
}

/// The number of tables that a CPU with this ID_AA64MMFR0_EL1 starts a translation with.
pub open spec fn initial_tables(id_aa64mmfr0_el1: u64) -> int {
    let (t0sz, level) = stage2_parameters(id_aa64mmfr0_el1 & 0xF);
    concatenated_tables(t0sz as int, level as int)
}

/// Allocates a translation table that maps nothing. It becomes live only by
/// [`activate_stage2_translation_table`], so it can be filled while another one is in use.
pub fn create_stage2_translation_table(
    id_aa64mmfr0_el1: u64,
    allocator: &mut MemoryAllocator,
) -> (table: Result<Stage2Table, MemoryError>)
    requires
        old(allocator).wf(),
        old(allocator).can_allocate(
            initial_tables(id_aa64mmfr0_el1) * 0x1000,
            (12 + initial_tables(id_aa64mmfr0_el1) - 1) as nat,
            usize::MAX as int,
        ),
    ensures
        final(allocator).wf(),
        match old(allocator)@.allocated(
            initial_tables(id_aa64mmfr0_el1) * 0x1000,
            (12 + initial_tables(id_aa64mmfr0_el1) - 1) as nat,
            usize::MAX as int,
        ) {
            Ok((address, memory)) => {
                &&& final(allocator)@ == memory
                &&& table matches Ok(t)
                &&& t.address == address
                &&& t.descriptors@.len() == initial_tables(id_aa64mmfr0_el1) * 512
                &&& forall|i: int|
                    0 <= i < t.children@.len() ==> #[trigger] t.children@[i] is None
                &&& forall|level: int| 0 <= level <= 3 ==> #[trigger] t.wf(level)
                &&& forall|level: int|
                    0 <= level <= 3 ==> #[trigger] t.in_use(level, final(allocator)@)
                &&& forall|level: int, p: int|
                    0 <= level <= 3 && 0 <= p < t.pages(level) ==> #[trigger] t.mapping(
                        level,
                        p,
                    ) is None
            },
            Err(error) => {
                &&& final(allocator)@ == old(allocator)@
                &&& table matches Err(e) && e == error
            },
        },
{
    let ps: u64 = id_aa64mmfr0_el1 & ID_AA64MMFR0_EL1_PARANGE;
    let (t0sz, initial_lookup_level) = get_stage2_parameters(ps);
    proof {
        vstd::arithmetic::power2::lemma2_to64();
    }
    let number_of_tables: usize = number_of_concatenated_page_tables(
        t0sz as u8,
        initial_lookup_level,
    ) as usize;
    let ghost memory = allocator@;
    proof {
        crate::allocator_laws::allocator_is_consistent(*allocator);
    }
    match allocator.allocate(number_of_tables * 0x1000, 12 + number_of_tables - 1) {
        Ok(address) => {
            let table: Stage2Table = Stage2Table::new(address as u64, number_of_tables * 512);
            proof {
                crate::allocator_laws::allocation_takes_its_block(
                    memory,
                    number_of_tables * 0x1000,
                    (12 + number_of_tables - 1) as nat,
                    usize::MAX as int,
                );
                assert forall|level: int| 0 <= level <= 3 implies #[trigger] table.in_use(
                    level,
                    allocator@,
                ) by {
                    assert(table.wf(level));
                    crate::stage2_tables::lemma_childless_in_use(table, level, allocator@);
                }
            }
            Ok(table)
        },
        Err(error) => Err(error),
    }
}

/// The level at which VTCR_EL2 starts a translation.
pub open spec fn initial_level(vtcr_el2: u64) -> int {
    let sl0 = (vtcr_el2 & 0xC0) >> 6u64;
    if sl0 == 0 {
        2
    } else if sl0 == 1 {
        1
    } else if sl0 == 2 {
        0
    } else {
        3
    }
}

/// The number of descriptors at that level.
pub open spec fn initial_descriptors(vtcr_el2: u64) -> int {
    concatenated_tables((vtcr_el2 & 0x3F) as int, initial_level(vtcr_el2)) * 512
}

/// The table is one that VTCR_EL2 starts a translation with.
pub open spec fn is_initial_table(table: Stage2Table, vtcr_el2: u64) -> bool {
    &&& table.wf(initial_level(vtcr_el2))
    &&& table.descriptors@.len() == initial_descriptors(vtcr_el2)
}

/// A table that was created on a CPU is one that the CPU's own VTCR_EL2 starts a translation with.
pub proof fn created_table_is_initial(id_aa64mmfr0_el1: u64, vtcr_el2: u64)
    requires
        vtcr_el2 == vtcr_of(id_aa64mmfr0_el1),
    ensures
        initial_descriptors(vtcr_el2) == initial_tables(id_aa64mmfr0_el1) * 512,
        initial_level(vtcr_el2) == stage2_parameters(id_aa64mmfr0_el1 & 0xF).1,
{
    let ps = id_aa64mmfr0_el1 & 0xF;
    let (t0sz, level) = stage2_parameters(ps);
    let sl0 = if level == 1 {
        1u64
    } else {
        2u64
    };
    assert((vtcr_el2 & 0xC0) >> 6u64 == sl0 && vtcr_el2 & 0x3F == t0sz) by (bit_vector)
        requires
            vtcr_el2 == 0x8000_0000u64 | (ps << 16u64) | (3u64 << 12u64) | (3u64 << 10u64) | (3u64
                << 8u64) | (sl0 << 6u64) | t0sz,
            sl0 <= 2,
            t0sz <= 63,
    ;
}

/// What mapping `map_size` bytes did to the table. A size that is not of whole pages is refused.
/// Otherwise every page of the range is mapped, as far as the table covers it, and the other pages
/// stay as they are, but for those that shared a block with one of the range. Where there is no
/// memory for a new table, a first part of the range is mapped. Each new table is on the way to a page
/// of the range.
pub open spec fn is_mapped(
    before: Stage2Table,
    after: Stage2Table,
    complete: bool,
    vtcr_el2: u64,
    physical_address: u64,
    intermediate_physical_address: u64,
    map_size: u64,
    permission: u64,
    is_device: bool,
) -> bool {
    let level = initial_level(vtcr_el2);
    let from = crate::stage2::page_in_table(
        intermediate_physical_address as int / 0x1000,
        before.descriptors@.len() as int,
        level,
    );
    let todo = crate::stage2::min_of(map_size as int / 0x1000, before.pages(level) - from);
    if map_size % 0x1000 != 0 {
        !complete && after == before
    } else {
        exists|done: int|
            {
                &&& 0 <= done <= todo
                &&& complete <==> done == todo
                &&& #[trigger] pages_are_mapped(
                    before,
                    after,
                    level,
                    from,
                    done,
                    complete,
                    physical_address,
                    permission,
                    is_device,
                )
                &&& are_largest_blocks(
                    after,
                    level,
                    from,
                    done,
                    MapRequest {
                        physical_address,
                        intermediate_physical_address,
                        remaining_size: map_size,
                    },
                )
                &&& crate::stage2_needs::is_lean(
                    before,
                    after,
                    level,
                    (MapRequest {
                        physical_address,
                        intermediate_physical_address,
                        remaining_size: map_size,
                    }).goal(from),
                    crate::stage2::reached(from + done, complete),
                )
            }
    }
}

/// What mapping `map_size` bytes asks of a table that VTCR_EL2 starts a translation with.
pub open spec fn goal_of(
    vtcr_el2: u64,
    physical_address: u64,
    intermediate_physical_address: u64,
    map_size: u64,
) -> Goal {
    (MapRequest {
        physical_address,
        intermediate_physical_address,
        remaining_size: map_size,
    }).goal(
        crate::stage2::page_in_table(
            intermediate_physical_address as int / 0x1000,
            initial_descriptors(vtcr_el2),
            initial_level(vtcr_el2),
        ),
    )
}

/// How many new tables it takes to reach the goal, where there are tables at the places `had`.
pub open spec fn tables_needed(had: Set<(int, int)>, vtcr_el2: u64, goal: Goal) -> nat {
    crate::stage2_needs::places_needed(
        had,
        goal,
        initial_level(vtcr_el2),
        0,
        initial_descriptors(vtcr_el2) as nat,
    )
}

/// A mapping for which `needed` new tables have to be made is complete if and only if there is a page
/// for each of them. It then takes these pages; otherwise it takes all the pages that there are.
pub open spec fn is_supplied(
    memory: FreeMemory,
    left: FreeMemory,
    needed: nat,
    complete: bool,
) -> bool {
    match crate::allocator_laws::after_pages(memory, needed) {
        Some(rest) => complete && left == rest,
        None => !complete && crate::allocator_laws::has_no_page(left),
    }
}

/// `done` pages from page `from` on are mapped by the largest blocks that the request leaves room for.
pub open spec fn are_largest_blocks(
    after: Stage2Table,
    level: int,
    from: int,
    done: int,
    request: MapRequest,
) -> bool {
    forall|p: int|
        from <= p < from + done ==> (#[trigger] after.mapping(level, p))->0.level
            == request.level_of(p, from, level)
}

/// `done` pages from page `from` on are mapped to `physical_address` and on.
pub open spec fn pages_are_mapped(
    before: Stage2Table,
    after: Stage2Table,
    level: int,
    from: int,
    done: int,
    complete: bool,
    physical_address: u64,
    permission: u64,
    is_device: bool,
) -> bool {
    forall|p: int|
        0 <= p < before.pages(level) ==> crate::stage2::page_rule(
            before.mapping(level, p),
            #[trigger] after.mapping(level, p),
            p,
            from,
            from + done,
            complete,
            physical_address as int,
            permission,
            is_device,
        )
}

/// The new tables of a mapping are the pages that were taken for it: as many, and at their addresses.
pub open spec fn tables_have_grown(
    before: Stage2Table,
    after: Stage2Table,
    vtcr_el2: u64,
    memory: FreeMemory,
    left: FreeMemory,
) -> bool {
    let level = initial_level(vtcr_el2);
    &&& crate::stage2::has_grown(before, after, level, memory, left)
    &&& crate::allocator_laws::after_pages(
        memory,
        crate::stage2::new_tables(Some(before), after, level, before.descriptors@.len()),
    ) == Some(left)
}

/// The request can be tried: it is not empty, and both ranges end inside the address space.
pub open spec fn can_map(
    physical_address: u64,
    intermediate_physical_address: u64,
    map_size: u64,
) -> bool {
    map_size % 0x1000 == 0 ==> {
        &&& map_size > 0
        &&& physical_address + map_size <= u64::MAX
        &&& intermediate_physical_address + map_size <= u64::MAX
    }
}

pub open spec fn permission_bits(is_readable: bool, is_writable: bool) -> u64 {
    if is_writable && is_readable {
        3
    } else if is_writable {
        2
    } else if is_readable {
        1
    } else {
        0
    }
}

/// Maps `map_size` bytes of normal (write-back) guest memory into `table`, which need not be the
/// live one.
pub fn map_address_stage2(
    table: &mut Stage2Table,
    allocator: &mut MemoryAllocator,
    vtcr_el2: u64,
    physical_address: u64,
    intermediate_physical_address: u64,
    map_size: u64,
    is_readable: bool,
    is_writable: bool,
) -> (result: Result<(), ()>)
    requires
        is_initial_table(*old(table), vtcr_el2),
        can_map(physical_address, intermediate_physical_address, map_size),
        old(allocator).wf(),
        old(table).in_use(initial_level(vtcr_el2), old(allocator)@),
        crate::allocator_laws::is_below(old(allocator)@, usize::MAX - 0x1000),
    ensures
        is_initial_table(*final(table), vtcr_el2),
        final(table).address == old(table).address,
        final(allocator).wf(),
        crate::allocator_laws::is_below(final(allocator)@, usize::MAX - 0x1000),
        final(table).in_use(initial_level(vtcr_el2), final(allocator)@),
        tables_have_grown(
            *old(table),
            *final(table),
            vtcr_el2,
            old(allocator)@,
            final(allocator)@,
        ),
        map_size % 0x1000 == 0 ==> is_supplied(
            old(allocator)@,
            final(allocator)@,
            tables_needed(
                crate::stage2_needs::places_of(*old(table), initial_level(vtcr_el2)),
                vtcr_el2,
                goal_of(vtcr_el2, physical_address, intermediate_physical_address, map_size),
            ),
            result is Ok,
        ),
        is_mapped(
            *old(table),
            *final(table),
            result is Ok,
            vtcr_el2,
            physical_address,
            intermediate_physical_address,
            map_size,
            permission_bits(is_readable, is_writable),
            false,
        ),
{
    map_address_stage2_internal(
        table,
        allocator,
        vtcr_el2,
        physical_address,
        intermediate_physical_address,
        map_size,
        is_readable,
        is_writable,
        false,
    )
}

/// Maps device memory, such as MMIO, directly to the guest.
pub fn map_device_stage2(
    table: &mut Stage2Table,
    allocator: &mut MemoryAllocator,
    vtcr_el2: u64,
    physical_address: u64,
    intermediate_physical_address: u64,
    map_size: u64,
    is_readable: bool,
    is_writable: bool,
) -> (result: Result<(), ()>)
    requires
        is_initial_table(*old(table), vtcr_el2),
        can_map(physical_address, intermediate_physical_address, map_size),
        old(allocator).wf(),
        old(table).in_use(initial_level(vtcr_el2), old(allocator)@),
        crate::allocator_laws::is_below(old(allocator)@, usize::MAX - 0x1000),
    ensures
        is_initial_table(*final(table), vtcr_el2),
        final(table).address == old(table).address,
        final(allocator).wf(),
        crate::allocator_laws::is_below(final(allocator)@, usize::MAX - 0x1000),
        final(table).in_use(initial_level(vtcr_el2), final(allocator)@),
        tables_have_grown(
            *old(table),
            *final(table),
            vtcr_el2,
            old(allocator)@,
            final(allocator)@,
        ),
        map_size % 0x1000 == 0 ==> is_supplied(
            old(allocator)@,
            final(allocator)@,
            tables_needed(
                crate::stage2_needs::places_of(*old(table), initial_level(vtcr_el2)),
                vtcr_el2,
                goal_of(vtcr_el2, physical_address, intermediate_physical_address, map_size),
            ),
            result is Ok,
        ),
        is_mapped(
            *old(table),
            *final(table),
            result is Ok,
            vtcr_el2,
            physical_address,
            intermediate_physical_address,
            map_size,
            permission_bits(is_readable, is_writable),
            true,
        ),
{
    map_address_stage2_internal(
        table,
        allocator,
        vtcr_el2,
        physical_address,
        intermediate_physical_address,
        map_size,
        is_readable,
        is_writable,
        true,
    )
}

fn map_address_stage2_internal(
    table: &mut Stage2Table,
    allocator: &mut MemoryAllocator,
    vtcr_el2: u64,
    physical_address: u64,
    intermediate_physical_address: u64,
    map_size: u64,
    is_readable: bool,
    is_writable: bool,
    is_device: bool,
) -> (result: Result<(), ()>)
    requires
        is_initial_table(*old(table), vtcr_el2),
        can_map(physical_address, intermediate_physical_address, map_size),
        old(allocator).wf(),
        old(table).in_use(initial_level(vtcr_el2), old(allocator)@),
        crate::allocator_laws::is_below(old(allocator)@, usize::MAX - 0x1000),
    ensures
        is_initial_table(*final(table), vtcr_el2),
        final(table).address == old(table).address,
        final(allocator).wf(),
        crate::allocator_laws::is_below(final(allocator)@, usize::MAX - 0x1000),
        final(table).in_use(initial_level(vtcr_el2), final(allocator)@),
        tables_have_grown(
            *old(table),
            *final(table),
            vtcr_el2,
            old(allocator)@,
            final(allocator)@,
        ),
        map_size % 0x1000 == 0 ==> is_supplied(
            old(allocator)@,
            final(allocator)@,
            tables_needed(
                crate::stage2_needs::places_of(*old(table), initial_level(vtcr_el2)),
                vtcr_el2,
                goal_of(vtcr_el2, physical_address, intermediate_physical_address, map_size),
            ),
            result is Ok,
        ),
        is_mapped(
            *old(table),
            *final(table),
            result is Ok,
            vtcr_el2,
            physical_address,
            intermediate_physical_address,
            map_size,
            permission_bits(is_readable, is_writable),
            is_device,
        ),
{
    if map_size % PAGE_SIZE != 0 {
        proof {
            let level = initial_level(vtcr_el2);
            crate::stage2_tables::lemma_not_grown(*table, level, allocator@);
            crate::stage2_tables::lemma_none_new(*table, level, table.descriptors@.len());
        }
        return Err(());
    }
    let sl0: u64 = (vtcr_el2 & VTCR_EL2_SL0) >> VTCR_EL2_SL0_BITS_OFFSET;
    let initial_lookup_level: u8 = match sl0 {
        0 => 2,
        1 => 1,
        2 => 0,
        _ => 3,
    };
    let permission: u64 = if is_writable && is_readable {
        3
    } else if is_writable {
        2
    } else if is_readable {
        1
    } else {
        0
    };
    let mut request = MapRequest {
        physical_address,
        intermediate_physical_address,
        remaining_size: map_size,
    };
    let ghost start = request;
    let ghost before = *table;
    let ghost memory = allocator@;
    let result: Result<(), ()> = table.map_range(
        &mut request,
        permission,
        is_device,
        initial_lookup_level,
        allocator,
    );
    proof {
        let level = initial_level(vtcr_el2);
        let from = crate::stage2::page_in_table(
            intermediate_physical_address as int / 0x1000,
            before.descriptors@.len() as int,
            level,
        );
        let done = start.pages_done(request);
        assert(pages_are_mapped(
            before,
            *table,
            level,
            from,
            done,
            result is Ok,
            physical_address,
            permission,
            is_device,
        ));
        let goal = goal_of(vtcr_el2, physical_address, intermediate_physical_address, map_size);
        let taken = crate::stage2::new_tables(
            Some(before),
            *table,
            level,
            before.descriptors@.len(),
        );
        let needed = tables_needed(
            crate::stage2_needs::places_of(before, level),
            vtcr_el2,
            goal,
        );
        assert(start.goal(from) == goal);
        if result is Err {
            crate::allocator_laws::lemma_after_pages(memory, taken, (needed - taken) as nat);
        }
    }
    result
}

/// A table without tables below it needs as many as where there are none.
pub proof fn lemma_needed_by_childless(table: Stage2Table, vtcr_el2: u64, goal: Goal)
    requires
        is_initial_table(table, vtcr_el2),
        forall|i: int| 0 <= i < table.children@.len() ==> #[trigger] table.children@[i] is None,
    ensures
        tables_needed(
            crate::stage2_needs::places_of(table, initial_level(vtcr_el2)),
            vtcr_el2,
            goal,
        ) == tables_needed(Set::empty(), vtcr_el2, goal),
{
    let level = initial_level(vtcr_el2);
    crate::stage2_tables::lemma_childless(table, level);
    crate::stage2_needs::lemma_needed_agree(
        crate::stage2_needs::places_of(table, level),
        goal,
        Set::empty(),
        goal,
        level,
        0,
        0,
        table.descriptors@.len(),
    );
}

/// After a first mapping there are tables exactly where it needed them, and that is what a second
/// mapping finds.
pub proof fn second_mapping_finds_the_tables_of_the_first(
    before: Stage2Table,
    after: Stage2Table,
    vtcr_el2: u64,
    physical_address: u64,
    intermediate_physical_address: u64,
    map_size: u64,
    permission: u64,
    is_device: bool,
    next: Goal,
)
    requires
        is_initial_table(before, vtcr_el2),
        forall|i: int| 0 <= i < before.children@.len() ==> #[trigger] before.children@[i] is None,
        is_initial_table(after, vtcr_el2),
        is_mapped(
            before,
            after,
            true,
            vtcr_el2,
            physical_address,
            intermediate_physical_address,
            map_size,
            permission,
            is_device,
        ),
    ensures
        ({
            let goal = goal_of(vtcr_el2, physical_address, intermediate_physical_address, map_size);
            tables_needed(
                crate::stage2_needs::places_of(after, initial_level(vtcr_el2)),
                vtcr_el2,
                next,
            ) == tables_needed(crate::stage2_needs::ways_to(goal), vtcr_el2, next)
        }),
{
    let level = initial_level(vtcr_el2);
    let n = before.descriptors@.len();
    let goal = goal_of(vtcr_el2, physical_address, intermediate_physical_address, map_size);
    let request = MapRequest {
        physical_address,
        intermediate_physical_address,
        remaining_size: map_size,
    };
    let from = goal.from;
    let todo = crate::stage2::min_of(map_size as int / 0x1000, before.pages(level) - from);
    let done = choose|done: int|
        {
            &&& 0 <= done <= todo
            &&& true <==> done == todo
            &&& #[trigger] pages_are_mapped(
                before,
                after,
                level,
                from,
                done,
                true,
                physical_address,
                permission,
                is_device,
            )
            &&& are_largest_blocks(after, level, from, done, request)
            &&& crate::stage2_needs::is_lean(
                before,
                after,
                level,
                request.goal(from),
                crate::stage2::reached(from + done, true),
            )
        };
    let span = crate::stage2::span(level);
    let page = intermediate_physical_address as int / 0x1000;
    vstd::arithmetic::div_mod::lemma_div_pos_is_pos(page, span);
    assert(0 <= from) by (nonlinear_arith)
        requires
            from == ((page / span) % (n as int)) * span + page % span,
            span > 0,
            n > 0,
            page >= 0,
    ;
    assert forall|r: int| goal.from <= r < goal.end && r < before.pages(level) implies (
    #[trigger] after.mapping(level, r) matches Some(leaf) && leaf.level
        == crate::stage2::largest_fit(
        r,
        goal.from,
        goal.end,
        goal.address,
        goal.aligned,
        level,
    )) by {
        assert(crate::stage2::page_rule(
            before.mapping(level, r),
            after.mapping(level, r),
            r,
            from,
            from + done,
            true,
            physical_address as int,
            permission,
            is_device,
        ));
        assert(request.level_of(r, from, level) == crate::stage2::largest_fit(
            r,
            goal.from,
            goal.end,
            goal.address,
            goal.aligned,
            level,
        ));
    }
    crate::stage2_needs::lemma_tables_of_mapping(
        before,
        after,
        level,
        goal,
        crate::stage2::reached(from + done, true),
    );
    crate::stage2_needs::lemma_needed_agree(
        crate::stage2_needs::places_of(after, level),
        next,
        crate::stage2_needs::ways_to(goal),
        next,
        level,
        0,
        0,
        n,
    );
}

/// A page that lies inside the table stands where its number says.
proof fn lemma_page_inside(page: int, n: int, level: int)
    requires
        0 <= level <= 3,
        0 <= page < n * crate::stage2::span(level),
    ensures
        crate::stage2::page_in_table(page, n, level) == page,
{
    crate::stage2::lemma_index(page, n, level);
    vstd::arithmetic::div_mod::lemma_small_mod(
        (page / crate::stage2::span(level)) as nat,
        n as nat,
    );
}

/// What a walk finds at `x` after `map_size` bytes were mapped: inside the range that was mapped the
/// matching physical address, with the permission and the memory attribute that were asked for, and
/// elsewhere nothing, where nothing was mapped before.
pub proof fn mapping_is_what_a_walk_finds(
    before: Stage2Table,
    after: Stage2Table,
    vtcr_el2: u64,
    physical_address: u64,
    intermediate_physical_address: u64,
    map_size: u64,
    permission: u64,
    is_device: bool,
    x: u64,
)
    requires
        is_initial_table(before, vtcr_el2),
        is_mapped(
            before,
            after,
            true,
            vtcr_el2,
            physical_address,
            intermediate_physical_address,
            map_size,
            permission,
            is_device,
        ),
        permission <= 3,
        physical_address % 0x1000 == 0,
        intermediate_physical_address % 0x1000 == 0,
        map_size > 0,
        physical_address + map_size <= 0x4_0000_0000_0000,
        intermediate_physical_address + map_size <= before.pages(initial_level(vtcr_el2)) * 0x1000,
        x < before.pages(initial_level(vtcr_el2)) * 0x1000,
    ensures
        ({
            let level = initial_level(vtcr_el2);
            let found = after.mapping(level, x as int / 0x1000);
            if intermediate_physical_address <= x < intermediate_physical_address + map_size {
                &&& found matches Some(leaf)
                &&& crate::stage2::output_of(leaf, x) == physical_address + (x
                    - intermediate_physical_address)
                &&& crate::stage2::gives(leaf, permission, is_device)
            } else {
                before.mapping(level, x as int / 0x1000) is None ==> found is None
            }
        }),
{
    let level = initial_level(vtcr_el2);
    let n = before.descriptors@.len() as int;
    let ipa = intermediate_physical_address as int;
    let from = ipa / 0x1000;
    let p = x as int / 0x1000;
    let pages = map_size as int / 0x1000;
    let all = before.pages(level);
    lemma_page_inside(from, n, level);
    let todo = crate::stage2::min_of(pages, all - from);
    assert(todo == pages);
    let done = choose|done: int|
        {
            &&& 0 <= done <= todo
            &&& true <==> done == todo
            &&& #[trigger] pages_are_mapped(
                before,
                after,
                level,
                from,
                done,
                true,
                physical_address,
                permission,
                is_device,
            )
        };
    assert(0 <= p < all);
    assert(crate::stage2::page_rule(
        before.mapping(level, p),
        after.mapping(level, p),
        p,
        from,
        from + pages,
        true,
        physical_address as int,
        permission,
        is_device,
    ));
    if ipa <= x < ipa + map_size {
        let address = physical_address + (p - from) * 0x1000;
        crate::stage2::mapped_page_translates(
            after.mapping(level, p),
            x,
            address,
            permission,
            is_device,
        );
    }
}

/// Device memory and normal memory are mapped alike, but for the memory attribute: a walk gives the
/// same address and the same permission.
pub proof fn device_differs_in_its_attribute(
    before: Stage2Table,
    memory: Stage2Table,
    device: Stage2Table,
    vtcr_el2: u64,
    physical_address: u64,
    intermediate_physical_address: u64,
    map_size: u64,
    permission: u64,
    x: u64,
)
    requires
        is_initial_table(before, vtcr_el2),
        is_mapped(
            before,
            memory,
            true,
            vtcr_el2,
            physical_address,
            intermediate_physical_address,
            map_size,
            permission,
            false,
        ),
        is_mapped(
            before,
            device,
            true,
            vtcr_el2,
            physical_address,
            intermediate_physical_address,
            map_size,
            permission,
            true,
        ),
        permission <= 3,
        physical_address % 0x1000 == 0,
        intermediate_physical_address % 0x1000 == 0,
        map_size > 0,
        physical_address + map_size <= 0x4_0000_0000_0000,
        intermediate_physical_address + map_size <= before.pages(initial_level(vtcr_el2)) * 0x1000,
        x < before.pages(initial_level(vtcr_el2)) * 0x1000,
    ensures
        ({
            let level = initial_level(vtcr_el2);
            let normal = memory.mapping(level, x as int / 0x1000);
            let found = device.mapping(level, x as int / 0x1000);
            if intermediate_physical_address <= x < intermediate_physical_address + map_size {
                &&& normal is Some && found is Some
                &&& crate::stage2::output_of(normal->0, x) == crate::stage2::output_of(
                    found->0,
                    x,
                )
                &&& normal->0.level == found->0.level
                &&& crate::stage2::gives(normal->0, permission, false)
                &&& crate::stage2::gives(found->0, permission, true)
            } else {
                normal == found
            }
        }),
{
    let level = initial_level(vtcr_el2);
    let n = before.descriptors@.len() as int;
    let from = intermediate_physical_address as int / 0x1000;
    let p = x as int / 0x1000;
    mapping_is_what_a_walk_finds(
        before,
        memory,
        vtcr_el2,
        physical_address,
        intermediate_physical_address,
        map_size,
        permission,
        false,
        x,
    );
    mapping_is_what_a_walk_finds(
        before,
        device,
        vtcr_el2,
        physical_address,
        intermediate_physical_address,
        map_size,
        permission,
        true,
        x,
    );
    lemma_page_inside(from, n, level);
    let todo = map_size as int / 0x1000;
    assert(crate::stage2::min_of(todo, before.pages(level) - from) == todo);
    assert(pages_are_mapped(
        before,
        memory,
        level,
        from,
        todo,
        true,
        physical_address,
        permission,
        false,
    ));
    assert(pages_are_mapped(
        before,
        device,
        level,
        from,
        todo,
        true,
        physical_address,
        permission,
        true,
    ));
    assert(memory.mapping(level, p) == memory.mapping(level, p));
    assert(device.mapping(level, p) == device.mapping(level, p));
}

/// Whether stale TLB entries have to be flushed after a change of the table at `table_address`:
/// only the live table can have any.
pub fn needs_tlb_flush(table_address: u64, vttbr_el2: u64) -> (flush: bool)
    ensures
        flush == (table_address == vttbr_el2 & 0x7FFF_FFFF_FFFE),
{
    table_address == (vttbr_el2 & VTTBR_BADDR)
}

} // verus!
