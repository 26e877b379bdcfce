//! Stage 2 translation tables.

use crate::free_memory::FreeMemory;
use crate::memory_allocator::{MemoryAllocator, MemoryError};
use crate::paging::{Descriptor, PAGE_SIZE};
use crate::stage2_needs::{
    is_lean, is_lean_slot, places_needed, places_of, slot_needed, slot_places, Goal,
};
use vstd::prelude::*;

verus! {

/// A translation table, with the tables of the next level that its descriptors name.
pub struct Stage2Table {
    pub address: u64,
    pub descriptors: Vec<Descriptor>,
    pub children: Vec<Option<Box<Stage2Table>>>,
}

/// What is still to be mapped.
#[derive(Clone, Copy)]
pub struct MapRequest {
    pub physical_address: u64,
    pub intermediate_physical_address: u64,
    pub remaining_size: u64,
}

/// How a page is mapped: by a descriptor of some level.
pub struct Leaf {
    pub descriptor: Descriptor,
    pub level: int,
}

/// The number of pages that one descriptor of `level` covers.
pub open spec fn span(level: int) -> int {
    if level >= 3 {
        1
    } else if level == 2 {
        0x200
    } else if level == 1 {
        0x4_0000
    } else {
        0x800_0000
    }
}

/// Where a page stands in a table of `n` descriptors of `level`.
pub open spec fn page_in_table(page: int, n: int, level: int) -> int {
    ((page / span(level)) % n) * span(level) + page % span(level)
}

/// A descriptor of `level` that maps page `p` maps a page of `[from, to)` too.
pub open spec fn hits(p: int, level: int, from: int, to: int) -> bool {
    let first = p - p % span(level);
    from < to && first < to && from < first + span(level)
}

/// Page `p` is mapped to `address`. A block starts at a multiple of its size.
pub open spec fn maps(
    leaf: Option<Leaf>,
    p: int,
    address: int,
    permission: u64,
    is_device: bool,
) -> bool {
    &&& leaf matches Some(l)
    &&& 1 <= l.level <= 3
    &&& ({
        let first = address - (p % span(l.level)) * 0x1000;
        &&& 0 <= first
        &&& l.level < 3 ==> first % (span(l.level) * 0x1000) == 0
        &&& l.descriptor == Descriptor::leaf(first as u64, permission, is_device, l.level)
    })
}

/// One descriptor of `level` can map page `p` with all that it covers, where the pages of `[from, end)`
/// are to be mapped to `address` and on. `aligned` tells whether the guest's address is that of a page.
pub open spec fn fits_block(
    p: int,
    level: int,
    from: int,
    end: int,
    address: int,
    aligned: bool,
) -> bool {
    let first = p - p % span(level);
    &&& aligned
    &&& from <= first
    &&& first + span(level) <= end
    &&& (address + (first - from) * 0x1000) % (span(level) * 0x1000) == 0
}

/// The level of the descriptor that maps page `p`: the largest block that fits, or a page, in a table
/// of level `top`.
pub open spec fn largest_fit(
    p: int,
    from: int,
    end: int,
    address: int,
    aligned: bool,
    top: int,
) -> int {
    if top <= 1 && fits_block(p, 1, from, end, address, aligned) {
        1
    } else if top <= 2 && fits_block(p, 2, from, end, address, aligned) {
        2
    } else {
        3
    }
}

/// The byte at `x` is one of the table at this address.
pub open spec fn holds_byte(table: Option<u64>, x: int) -> bool {
    table matches Some(address) && address <= x < address + 0x1000
}

/// The page at `address` was free, and no longer is.
pub open spec fn is_taken_page(address: int, before: FreeMemory, after: FreeMemory) -> bool {
    forall|x: int|
        address <= x < address + 0x1000 ==> #[trigger] before.is_free(x) && !after.is_free(x)
}

/// The byte at `x` is one of a table that `after` has at this place, and `before` had not.
pub open spec fn is_of_new_table(
    before: Stage2Table,
    after: Stage2Table,
    level: int,
    lower: int,
    p: int,
    x: int,
) -> bool {
    &&& after.is_place(level, lower, p)
    &&& holds_byte(after.table_at(level, lower, p), x)
    &&& before.table_at(level, lower, p) is None
}

/// The tables below `after` are those below `before`, at the same places, and the pages that were
/// taken in between: each of those is a table now, and there is no other new table. A table is gone
/// only where a block has taken its place.
#[verifier::opaque]
pub open spec fn has_grown(
    before: Stage2Table,
    after: Stage2Table,
    level: int,
    memory: FreeMemory,
    left: FreeMemory,
) -> bool {
    &&& forall|l: int, p: int|
        after.is_place(level, l, p) ==> match #[trigger] after.table_at(level, l, p) {
            Some(address) => {
                ||| before.table_at(level, l, p) == Some(address)
                ||| before.table_at(level, l, p) is None && address % 0x1000 == 0 && is_taken_page(
                    address as int,
                    memory,
                    left,
                )
            },
            None => true,
        }
    &&& forall|x: int|
        memory.is_free(x) && !#[trigger] left.is_free(x) ==> exists|l: int, p: int| #[trigger]
            is_of_new_table(before, after, level, l, p, x)
    &&& forall|l: int, p: int|
        before.is_place(level, l, p) && (#[trigger] before.table_at(level, l, p)) is Some ==> {
            ||| after.table_at(level, l, p) == before.table_at(level, l, p)
            ||| after.mapping(level, p) matches Some(leaf) && leaf.level < l
        }
}

/// The table of the next level that descriptor `i` names, where there is one.
pub open spec fn child_of(table: Option<Stage2Table>, i: int) -> Option<Stage2Table> {
    match table {
        Some(own) => match own.children@[i] {
            Some(child) => Some(*child),
            None => None,
        },
        None => None,
    }
}

/// How many tables `after` has below its first `n` descriptors that `before` had not.
pub open spec fn new_tables(
    before: Option<Stage2Table>,
    after: Stage2Table,
    level: int,
    n: nat,
) -> nat
    decreases 4 - level, n,
{
    if n == 0 || level >= 3 {
        0
    } else {
        let i = n - 1;
        let own = child_of(before, i);
        new_tables(before, after, level, i as nat) + match after.children@[i] {
            Some(child) => (if own is None {
                1nat
            } else {
                0
            }) + new_tables(own, *child, level + 1, child.children@.len()),
            None => 0,
        }
    }
}

/// How many tables stand in place of one descriptor of `level` that did not before.
pub open spec fn new_in_slot(
    own: Option<Stage2Table>,
    child: Option<Box<Stage2Table>>,
    level: int,
) -> nat {
    match child {
        Some(child) => (if own is None {
            1nat
        } else {
            0
        }) + new_tables(own, *child, level + 1, child.children@.len()),
        None => 0,
    }
}

/// How page `p` is mapped after the pages of `[from, to)` were mapped to `address` and on. A page
/// outside of them keeps its mapping, unless a block held it together with one of them: such a
/// block is gone. Where the mapping was given up at page `to`, a block that holds that page may be
/// gone too.
pub open spec fn page_rule(
    before: Option<Leaf>,
    after: Option<Leaf>,
    p: int,
    from: int,
    to: int,
    complete: bool,
    address: int,
    permission: u64,
    is_device: bool,
) -> bool {
    if from <= p < to {
        maps(after, p, address + (p - from) * 0x1000, permission, is_device)
    } else if complete {
        after == match before {
            Some(leaf) => if hits(p, leaf.level, from, to) {
                None
            } else {
                before
            },
            None => None,
        }
    } else {
        match before {
            Some(leaf) => if hits(p, leaf.level, from, to) {
                after is None
            } else if hits(p, leaf.level, from, to + 1) {
                after == before || after is None
            } else {
                after == before
            },
            None => after is None,
        }
    }
}

impl Stage2Table {
    /// Each table descriptor names a table of the next level, and no other descriptor does.
    pub open spec fn has_shape(&self, level: int) -> bool
        decreases 4 - level,
    {
        &&& 0 <= level <= 3
        &&& 0 < self.descriptors@.len() <= 0x1_0000_0000
        &&& self.descriptors@.len() == self.children@.len()
        &&& forall|i: int|
            0 <= i < self.children@.len() ==> match #[trigger] self.children@[i] {
                Some(child) => {
                    &&& level < 3
                    &&& child.has_shape(level + 1)
                    &&& child.descriptors@.len() == 512
                    &&& self.descriptors@[i] == Descriptor::table(child.address)
                },
                None => level < 3 ==> !self.descriptors@[i].is_table(),
            }
    }

    /// The table of level `lower` in which page `p` is looked up, by its address.
    pub open spec fn table_at(&self, level: int, lower: int, p: int) -> Option<u64>
        decreases 4 - level,
    {
        match self.children@[p / span(level)] {
            Some(child) => if level >= 3 {
                None
            } else if lower == level + 1 {
                Some(child.address)
            } else {
                child.table_at(level + 1, lower, p % span(level))
            },
            None => None,
        }
    }

    /// Where [`table_at`](Self::table_at) is to be asked.
    pub open spec fn is_place(&self, level: int, lower: int, p: int) -> bool {
        level < lower <= 3 && 0 <= p < self.pages(level)
    }

    /// The page at `address` does not touch this table itself.
    pub open spec fn is_beside(&self, address: int) -> bool {
        address + 0x1000 <= self.address || self.address + 8 * self.descriptors@.len() <= address
    }

    /// The tables below this one are page aligned, and no two of them share an address, nor does one
    /// touch this table.
    #[verifier::opaque]
    pub open spec fn is_spread(&self, level: int) -> bool {
        &&& forall|l: int, p: int|
            self.is_place(level, l, p) ==> match #[trigger] self.table_at(level, l, p) {
                Some(address) => address % 0x1000 == 0 && self.is_beside(address as int),
                None => true,
            }
        &&& forall|l: int, p: int, m: int, q: int|
            self.is_place(level, l, p) && self.is_place(level, m, q) && (#[trigger] self.table_at(
                level,
                l,
                p,
            )) is Some && self.table_at(level, l, p) == #[trigger] self.table_at(level, m, q)
                ==> l == m && same_descriptor(p, q, l - 1)
    }

    /// No byte of this table, or of one below it, is free.
    #[verifier::opaque]
    pub open spec fn in_use(&self, level: int, memory: FreeMemory) -> bool {
        &&& forall|x: int|
            self.address <= x < self.address + 8 * self.descriptors@.len()
                ==> !#[trigger] memory.is_free(x)
        &&& forall|l: int, p: int, x: int|
            self.is_place(level, l, p) && holds_byte(#[trigger] self.table_at(level, l, p), x)
                ==> !#[trigger] memory.is_free(x)
    }

    /// The descriptors name tables of the next level, each at a place of its own.
    pub open spec fn wf(&self, level: int) -> bool {
        self.has_shape(level) && self.is_spread(level)
    }

    /// How page `p` of this table is mapped.
    pub open spec fn mapping(&self, level: int, p: int) -> Option<Leaf>
        decreases 4 - level,
    {
        let i = p / span(level);
        match self.children@[i] {
            Some(child) => if level < 3 {
                child.mapping(level + 1, p % span(level))
            } else {
                None
            },
            None => if self.descriptors@[i].is_valid() {
                Some(Leaf { descriptor: self.descriptors@[i], level })
            } else {
                None
            },
        }
    }

    /// The number of pages that this table covers.
    pub open spec fn pages(&self, level: int) -> int {
        self.descriptors@.len() * span(level)
    }
}

/// A mapping is by a descriptor of this level or a lower one.
pub proof fn lemma_mapping_level(table: Stage2Table, level: int, p: int)
    requires
        table.has_shape(level),
        0 <= p < table.pages(level),
    ensures
        table.mapping(level, p) matches Some(leaf) ==> level <= leaf.level <= 3,
    decreases 4 - level,
{
    let i = p / span(level);
    lemma_index(p, table.descriptors@.len() as int, level);
    if let Some(child) = table.children@[i] {
        lemma_mapping_level(*child, level + 1, p % span(level));
    }
}

/// A page of a table of `n` descriptors belongs to one of them.
pub proof fn lemma_index(p: int, n: int, level: int)
    requires
        0 <= level <= 3,
        0 <= p < n * span(level),
    ensures
        0 <= p / span(level) < n,
        0 <= p % span(level) < span(level),
        p == (p / span(level)) * span(level) + p % span(level),
        level < 3 ==> span(level) == 512 * span(level + 1),
{
    let s = span(level);
    vstd::arithmetic::div_mod::lemma_fundamental_div_mod(p, s);
    vstd::arithmetic::div_mod::lemma_mod_bound(p, s);
    assert(0 <= p / s < n) by (nonlinear_arith)
        requires
            0 <= p < n * s,
            p == s * (p / s) + p % s,
            0 <= p % s < s,
    ;
    vstd::arithmetic::mul::lemma_mul_is_commutative(s, p / s);
}

/// The pages of a descriptor of a lower level lie inside one descriptor of `level`.
pub proof fn lemma_region(p: int, level: int, lower: int)
    requires
        0 <= level <= lower <= 3,
        0 <= p,
    ensures
        p - p % span(level) <= p - p % span(lower),
        p - p % span(lower) + span(lower) <= p - p % span(level) + span(level),
        (p % span(level)) % span(lower) == p % span(lower),
{
    let ratio = if level == lower {
        1
    } else if level >= 2 || level + 1 == lower {
        512
    } else if level + 2 == lower {
        0x4_0000
    } else {
        0x800_0000int
    };
    assert(span(level) == span(lower) * ratio);
    vstd::arithmetic::div_mod::lemma_mod_mod(p, span(lower), ratio);
}

/// The pages of two descriptors do not overlap.
pub proof fn lemma_separate(p: int, q: int, level: int)
    requires
        0 <= level <= 3,
        0 <= p,
        0 <= q,
    ensures
        same_descriptor(p, q, level) || p - p % span(level) + span(level) <= q - q % span(level)
            || q - q % span(level) + span(level) <= p - p % span(level),
        same_descriptor(p, q, level) == (p / span(level) == q / span(level)),
        0 <= p % span(level) < span(level),
        0 <= q % span(level) < span(level),
{
    let s = span(level);
    vstd::arithmetic::div_mod::lemma_fundamental_div_mod(p, s);
    vstd::arithmetic::div_mod::lemma_fundamental_div_mod(q, s);
    vstd::arithmetic::div_mod::lemma_mod_bound(p, s);
    vstd::arithmetic::div_mod::lemma_mod_bound(q, s);
    let a = p / s;
    let b = q / s;
    assert(a < b ==> s * a + s <= s * b) by (nonlinear_arith)
        requires
            s > 0,
    ;
    assert(b < a ==> s * b + s <= s * a) by (nonlinear_arith)
        requires
            s > 0,
    ;
}

/// One descriptor of `level` covers both pages.
pub open spec fn same_descriptor(p: int, q: int, level: int) -> bool {
    p - p % span(level) == q - q % span(level)
}

/// Mapping `[from, pos)` and then `[pos, to)`, the latter in one descriptor, is mapping
/// `[from, to)`.
proof fn lemma_compose(
    first: Option<Leaf>,
    middle: Option<Leaf>,
    last: Option<Leaf>,
    p: int,
    from: int,
    pos: int,
    to: int,
    level: int,
    complete: bool,
    address: int,
    permission: u64,
    is_device: bool,
)
    requires
        0 <= level <= 3,
        0 <= p,
        0 <= from <= pos <= to,
        same_descriptor(p, pos, level) ==> from == pos || pos % span(level) == 0,
        first matches Some(leaf) ==> level <= leaf.level <= 3,
        page_rule(first, middle, p, from, pos, true, address, permission, is_device),
        same_descriptor(p, pos, level) ==> page_rule(
            middle,
            last,
            p,
            pos,
            to,
            complete,
            address + (pos - from) * 0x1000,
            permission,
            is_device,
        ),
        !same_descriptor(p, pos, level) ==> last == middle,
        to <= pos - pos % span(level) + span(level),
        complete ==> pos < to,
        !complete ==> to < pos - pos % span(level) + span(level),
    ensures
        page_rule(first, last, p, from, to, complete, address, permission, is_device),
{
    lemma_separate(p, pos, level);
    if let Some(leaf) = first {
        lemma_region(p, level, leaf.level);
        if same_descriptor(p, pos, level) {
            assert(hits(p, leaf.level, from, to) == (hits(p, leaf.level, from, pos) || hits(
                p,
                leaf.level,
                pos,
                to,
            )));
            assert(hits(p, leaf.level, from, to + 1) == (hits(p, leaf.level, from, pos) || hits(
                p,
                leaf.level,
                pos,
                to + 1,
            )));
        } else {
            assert(!hits(p, leaf.level, pos, to));
            assert(!(pos <= p < to));
            assert(pos < to ==> hits(p, leaf.level, from, to) == hits(p, leaf.level, from, pos));
        }
    }
    assert(!same_descriptor(p, pos, level) ==> !(pos <= p < to));
}

/// What the lowest bits of the descriptors say.
proof fn lemma_descriptor_kinds(address: u64, permission: u64, is_device: bool, level: int)
    requires
        1 <= level <= 3,
        level < 3 ==> address % 4 == 0,
    ensures
        Descriptor::leaf(address, permission, is_device, level).is_valid(),
        level < 3 ==> !Descriptor::leaf(address, permission, is_device, level).is_table(),
        Descriptor::table(address).is_table(),
        !Descriptor(0).is_table(),
        !Descriptor(0).is_valid(),
{
    let a = (0u64 & !0x0003_FFFF_FFFF_F000u64) | address | 0x400;
    let b = (a & !0xC0u64) | (permission << 6u64);
    let device = ((b & !0x3Cu64) & !0x300u64) | (3u64 << 8u64);
    let normal = (((b & !0x3Cu64) | 0x3C) & !0x300u64) | (3u64 << 8u64);
    assert({
        &&& (device | 3) & 1 == 1
        &&& (normal | 3) & 1 == 1
        &&& (device | 1) & 1 == 1
        &&& (normal | 1) & 1 == 1
        &&& (a | 3) & 3 == 3
        &&& 0u64 & 3 == 0
        &&& 0u64 & 1 == 0
        &&& address % 4 == 0 ==> (device | 1) & 3 == 1 && (normal | 1) & 3 == 1
    }) by (bit_vector)
        requires
            a == (0u64 & !0x0003_FFFF_FFFF_F000u64) | address | 0x400,
            b == (a & !0xC0u64) | (permission << 6u64),
            device == ((b & !0x3Cu64) & !0x300u64) | (3u64 << 8u64),
            normal == (((b & !0x3Cu64) | 0x3C) & !0x300u64) | (3u64 << 8u64),
    ;
}

impl Stage2Table {
    /// A table of `n` descriptors at `address` that maps nothing.
    pub fn new(address: u64, n: usize) -> (table: Self)
        requires
            0 < n <= 0x1_0000_0000,
        ensures
            table.address == address,
            table.descriptors@.len() == n,
            table.children@.len() == n,
            forall|i: int| 0 <= i < n ==> #[trigger] table.children@[i] is None,
            forall|level: int| 0 <= level <= 3 ==> #[trigger] table.wf(level),
            forall|level: int, p: int|
                0 <= level <= 3 && 0 <= p < table.pages(level) ==> #[trigger] table.mapping(
                    level,
                    p,
                ) is None,
    {
        let mut descriptors: Vec<Descriptor> = Vec::new();
        let mut children: Vec<Option<Box<Stage2Table>>> = Vec::new();
        let mut i: usize = 0;
        while i < n
            invariant
                i <= n,
                descriptors@.len() == i,
                children@.len() == i,
                forall|j: int| 0 <= j < i ==> #[trigger] descriptors@[j] == Descriptor(0),
                forall|j: int| 0 <= j < i ==> #[trigger] children@[j] is None,
            decreases n - i,
        {
            descriptors.push(Descriptor::new());
            children.push(None);
            i = i + 1;
        }
        let table = Self { address, descriptors, children };
        proof {
            lemma_descriptor_kinds(0, 0, false, 3);
            assert forall|level: int| 0 <= level <= 3 implies #[trigger] table.wf(level) by {
                assert(table.has_shape(level));
                crate::stage2_tables::lemma_childless(table, level);
            }
            assert forall|level: int, p: int| 0 <= level <= 3 && 0 <= p < table.pages(
                level,
            ) implies #[trigger] table.mapping(level, p) is None by {
                lemma_index(p, n as int, level);
            }
        }
        table
    }

    /// Nothing but descriptor `i` and its table differs.
    pub open spec fn same_but(&self, other: Self, i: int) -> bool {
        &&& self.address == other.address
        &&& self.descriptors@.len() == other.descriptors@.len()
        &&& self.children@.len() == other.children@.len()
        &&& forall|j: int|
            #![trigger self.descriptors@[j]]
            #![trigger self.children@[j]]
            0 <= j < self.descriptors@.len() && j != i ==> {
                &&& self.descriptors@[j] == other.descriptors@[j]
                &&& self.children@[j] == other.children@[j]
            }
    }

    /// How page `q` of descriptor `i` is mapped.
    pub open spec fn slot_mapping(&self, level: int, i: int, q: int) -> Option<Leaf> {
        match self.children@[i] {
            Some(child) => if level < 3 {
                child.mapping(level + 1, q)
            } else {
                None
            },
            None => if self.descriptors@[i].is_valid() {
                Some(Leaf { descriptor: self.descriptors@[i], level })
            } else {
                None
            },
        }
    }

    fn span_of(level: u8) -> (pages: u64)
        requires
            level <= 3,
        ensures
            pages == span(level as int),
    {
        if level >= 3 {
            1
        } else if level == 2 {
            0x200
        } else if level == 1 {
            0x4_0000
        } else {
            0x800_0000
        }
    }

    /// Maps as much of the request as descriptor `i` covers.
    #[verifier::rlimit(50)]
    #[verifier::spinoff_prover]
    fn map_descriptor(
        &mut self,
        i: usize,
        request: &mut MapRequest,
        permission: u64,
        is_device: bool,
        level: u8,
        allocator: &mut MemoryAllocator,
    ) -> (result: Result<(), ()>)
        requires
            old(self).wf(level as int),
            i < old(self).descriptors@.len(),
            old(request).is_valid(),
            old(allocator).wf(),
            old(self).in_use(level as int, old(allocator)@),
            crate::allocator_laws::is_below(old(allocator)@, usize::MAX - 0x1000),
        ensures
            final(self).wf(level as int),
            final(self).same_but(*old(self), i as int),
            final(allocator).wf(),
            final(self).in_use(level as int, final(allocator)@),
            has_grown(
                *old(self),
                *final(self),
                level as int,
                old(allocator)@,
                final(allocator)@,
            ),
            crate::stage2_tables::only_taken(old(allocator)@, final(allocator)@),
            crate::allocator_laws::is_below(final(allocator)@, usize::MAX - 0x1000),
            crate::allocator_laws::after_pages(
                old(allocator)@,
                new_in_slot(
                    child_of(Some(*old(self)), i as int),
                    final(self).children@[i as int],
                    level as int,
                ),
            ) == Some(final(allocator)@),
            result is Err ==> crate::allocator_laws::has_no_page(final(allocator)@),
            final(request).follows(*old(request)),
            ({
                let off = (old(request).intermediate_physical_address as int / 0x1000) % span(
                    level as int,
                );
                let done = old(request).pages_done(*final(request));
                let todo = min_of(old(request).pages(), span(level as int) - off);
                &&& result is Ok ==> done == todo
                &&& result is Err ==> done < todo
                &&& forall|q: int|
                    0 <= q < span(level as int) ==> page_rule(
                        old(self).slot_mapping(level as int, i as int, q),
                        #[trigger] final(self).slot_mapping(level as int, i as int, q),
                        q,
                        off,
                        off + done,
                        result is Ok,
                        old(request).physical_address as int,
                        permission,
                        is_device,
                    )
                &&& forall|q: int|
                    off <= q < off + done ==> (#[trigger] final(self).slot_mapping(
                        level as int,
                        i as int,
                        q,
                    ))->0.level == old(request).level_of(q, off, level as int)
                &&& is_lean_slot(
                    *old(self),
                    *final(self),
                    level as int,
                    i as int,
                    old(request).goal(off),
                    reached(off + done, result is Ok),
                )
                &&& is_enough(
                    new_in_slot(
                        child_of(Some(*old(self)), i as int),
                        final(self).children@[i as int],
                        level as int,
                    ),
                    slot_needed(
                        slot_places(*old(self), level as int, i as int),
                        old(request).goal(off),
                        level as int,
                        0,
                    ),
                    result is Ok,
                )
            }),
        decreases 3 - level, 0int,
    {
        let ghost before = *self;
        let ghost start = *request;
        let ghost page = start.intermediate_physical_address as int / 0x1000;
        let ghost off = page % span(level as int);
        let block_size: u64 = Self::span_of(level) * PAGE_SIZE;
        if level == 3 || (level >= 1 && request.remaining_size >= block_size
            && request.physical_address % block_size == 0
            && request.intermediate_physical_address % block_size == 0) {
            proof {
                lemma_block(start, level as int);
                lemma_span(page, level as int);
            }
            self.map_leaf(i, request.physical_address, permission, is_device, level);
            request.physical_address = request.physical_address + block_size;
            request.intermediate_physical_address = request.intermediate_physical_address
                + block_size;
            request.remaining_size = request.remaining_size - block_size;
            proof {
                crate::stage2_tables::lemma_leaf_grown(
                    before,
                    *self,
                    level as int,
                    i as int,
                    allocator@,
                );
                crate::stage2_needs::lemma_lean_without_tables(
                    before,
                    *self,
                    level as int,
                    i as int,
                    start.goal(off),
                    off + span(level as int),
                );
                lemma_block_is_largest(start, 0, level as int);
                assert forall|q: int| off <= q < off + span(level as int) implies (
                #[trigger] self.slot_mapping(level as int, i as int, q))->0.level == start.level_of(
                    q,
                    off,
                    level as int,
                ) by {
                    lemma_block_is_largest(start, q, level as int);
                }
            }
            return Ok(());
        }
        proof {
            lemma_page_in_child(page, level as int);
            lemma_span(page, level as int);
        }
        let mut child: Box<Stage2Table> = match self.take_child(i, level, allocator) {
            Ok(child) => child,
            Err(()) => {
                proof {
                    crate::stage2_tables::lemma_not_grown(before, level as int, allocator@);
                    crate::stage2_needs::lemma_lean_without_tables(
                        before,
                        *self,
                        level as int,
                        i as int,
                        start.goal(off),
                        off + 1,
                    );
                    lemma_no_block(start, level as int);
                    crate::stage2_tables::lemma_slot(before, level as int, i as int, level + 1, 0);
                }
                return Err(());
            },
        };
        let ghost child_before = *child;
        let ghost memory = allocator@;
        let result: Result<(), ()> = child.map_range(
            request,
            permission,
            is_device,
            level + 1,
            allocator,
        );
        let ghost child_after = *child;
        self.children[i] = Some(child);
        proof {
            let done = start.pages_done(*request);
            assert(self.has_shape(level as int));
            crate::stage2_tables::lemma_child_grown(
                before,
                *self,
                level as int,
                i as int,
                child_before,
                child_after,
                old(allocator)@,
                memory,
                allocator@,
            );
            lemma_no_block(start, level as int);
            crate::stage2_needs::lemma_lean_child(
                before,
                *self,
                level as int,
                i as int,
                child_before,
                child_after,
                start.goal(off),
                reached(off + done, result is Ok),
            );
            let count = new_tables(
                Some(child_before),
                child_after,
                level as int + 1,
                512,
            );
            if before.children@[i as int] is None {
                crate::stage2_tables::lemma_all_new(
                    child_before,
                    child_after,
                    level as int + 1,
                    512,
                );
                crate::allocator_laws::lemma_page_taken(old(allocator)@);
                crate::allocator_laws::lemma_after_pages(old(allocator)@, 1, count);
            }
            assert forall|q: int| 0 <= q < span(level as int) implies page_rule(
                before.slot_mapping(level as int, i as int, q),
                #[trigger] self.slot_mapping(level as int, i as int, q),
                q,
                off,
                off + done,
                result is Ok,
                start.physical_address as int,
                permission,
                is_device,
            ) && (off <= q < off + done ==> self.slot_mapping(
                level as int,
                i as int,
                q,
            )->0.level == start.level_of(q, off, level as int)) by {
                let slot = before.slot_mapping(level as int, i as int, q);
                let after = child_after.mapping(level as int + 1, q);
                assert(self.slot_mapping(level as int, i as int, q) == after);
                let own = child_before.mapping(level as int + 1, q);
                assert(page_rule(
                    own,
                    after,
                    q,
                    off,
                    off + done,
                    result is Ok,
                    start.physical_address as int,
                    permission,
                    is_device,
                ));
                if off <= q < off + done {
                    lemma_child_level(start, q, level as int);
                }
                if before.children@[i as int] is None {
                    lemma_new_table(
                        slot,
                        after,
                        q,
                        off,
                        done,
                        level as int,
                        result is Ok,
                        start.physical_address as int,
                        permission,
                        is_device,
                    );
                }
            }
        }
        result
    }

    /// Maps all that descriptor `i` covers to the memory at `address`.
    fn map_leaf(
        &mut self,
        i: usize,
        address: u64,
        permission: u64,
        is_device: bool,
        level: u8,
    )
        requires
            old(self).wf(level as int),
            1 <= level <= 3,
            i < old(self).descriptors@.len(),
            level < 3 ==> address % 4 == 0 && address as int % (span(level as int) * 0x1000) == 0,
        ensures
            final(self).has_shape(level as int),
            final(self).same_but(*old(self), i as int),
            final(self).children@[i as int] is None,
            final(self).descriptors@[i as int].is_valid(),
            forall|q: int|
                0 <= q < span(level as int) ==> page_rule(
                    old(self).slot_mapping(level as int, i as int, q),
                    #[trigger] final(self).slot_mapping(level as int, i as int, q),
                    q,
                    0,
                    span(level as int),
                    true,
                    address as int,
                    permission,
                    is_device,
                ),
    {
        proof {
            lemma_descriptor_kinds(address, permission, is_device, level as int);
        }
        self.descriptors[i] = Descriptor::create_leaf(address, permission, is_device, level);
        self.children[i] = None;
        proof {
            assert forall|q: int| 0 <= q < span(level as int) implies maps(
                #[trigger] self.slot_mapping(level as int, i as int, q),
                q,
                address + q * 0x1000,
                permission,
                is_device,
            ) by {
                lemma_span(q, level as int);
            }
        }
    }

    /// Takes out the table that descriptor `i` names. A descriptor that names none gets a new
    /// table, which maps nothing.
    fn take_child(&mut self, i: usize, level: u8, allocator: &mut MemoryAllocator) -> (result: Result<
        Box<Stage2Table>,
        (),
    >)
        requires
            old(self).wf(level as int),
            old(self).in_use(level as int, old(allocator)@),
            level < 3,
            i < old(self).descriptors@.len(),
            old(allocator).wf(),
            crate::allocator_laws::is_below(old(allocator)@, usize::MAX - 0x1000),
        ensures
            final(allocator).wf(),
            crate::allocator_laws::is_below(final(allocator)@, usize::MAX - 0x1000),
            crate::stage2_tables::only_taken(old(allocator)@, final(allocator)@),
            result is Err ==> crate::allocator_laws::has_no_page(final(allocator)@),
            result is Err ==> *final(self) == *old(self) && final(allocator)@ == old(allocator)@,
            result is Err ==> old(self).children@[i as int] is None,
            final(self).same_but(*old(self), i as int),
            result matches Ok(child) ==> {
                &&& child.wf(level as int + 1)
                &&& child.in_use(level as int + 1, final(allocator)@)
                &&& child.address % 0x1000 == 0
                &&& child.descriptors@.len() == 512
                &&& final(self).descriptors@[i as int] == Descriptor::table(child.address)
                &&& match old(self).children@[i as int] {
                    Some(own) => child == own && final(allocator)@ == old(allocator)@,
                    None => {
                        &&& forall|q: int|
                            0 <= q < span(level as int) ==> (#[trigger] child.mapping(
                                level as int + 1,
                                q,
                            )) is None
                        &&& forall|j: int|
                            0 <= j < child.children@.len() ==> #[trigger] child.children@[j] is None
                        &&& crate::stage2_tables::is_only_page_taken(
                            child.address as int,
                            old(allocator)@,
                            final(allocator)@,
                        )
                        &&& old(allocator)@.allocated(0x1000, 12, usize::MAX as int) == Ok::<
                            (int, FreeMemory),
                            MemoryError,
                        >((child.address as int, final(allocator)@))
                    },
                }
            },
    {
        if !self.descriptors[i].is_table_descriptor() {
            let ghost memory = allocator@;
            proof {
                crate::allocator_laws::page_allocations_can_be_tried(
                    *allocator,
                    0x1000,
                    usize::MAX as int,
                );
                crate::allocator_laws::allocator_is_consistent(*allocator);
                lemma_descriptor_kinds(0, 0, false, 3);
                if let Some(own) = self.children@[i as int] {
                    lemma_descriptor_kinds(own.address, 0, false, 3);
                }
            }
            let address: usize = match allocator.allocate(0x1000, 12) {
                Ok(address) => address,
                Err(_) => {
                    return Err(());
                },
            };
            proof {
                vstd::arithmetic::power2::lemma2_to64();
                crate::allocator_laws::allocation_takes_its_block(
                    memory,
                    0x1000,
                    12,
                    usize::MAX as int,
                );
                crate::allocator_laws::allocation_stays_below(
                    memory,
                    0x1000,
                    12,
                    usize::MAX as int,
                    usize::MAX - 0x1000,
                );
                lemma_span(0, level as int);
            }
            let mut descriptor: Descriptor = Descriptor::new();
            descriptor.set_output_address(address as u64);
            descriptor.validate_as_table_descriptor();
            self.descriptors[i] = descriptor;
            let child: Stage2Table = Stage2Table::new(address as u64, 512);
            proof {
                assert(child.pages(level as int + 1) == span(level as int));
                assert(child.wf(level as int + 1));
                crate::stage2_tables::lemma_childless_in_use(
                    child,
                    level as int + 1,
                    allocator@,
                );
            }
            Ok(Box::new(child))
        } else {
            proof {
                if self.children@[i as int] is Some {
                    crate::stage2_tables::lemma_child(
                        *self,
                        level as int,
                        i as int,
                        allocator@,
                    );
                }
            }
            let mut slot: Option<Box<Stage2Table>> = None;
            std::mem::swap(&mut self.children[i], &mut slot);
            match slot {
                Some(child) => Ok(child),
                None => Err(()),
            }
        }
    }

    /// Maps as much of the request as this table covers.
    #[verifier::rlimit(50)]
    #[verifier::spinoff_prover]
    pub fn map_range(
        &mut self,
        request: &mut MapRequest,
        permission: u64,
        is_device: bool,
        level: u8,
        allocator: &mut MemoryAllocator,
    ) -> (result: Result<(), ()>)
        requires
            old(self).wf(level as int),
            old(request).is_valid(),
            old(allocator).wf(),
            old(self).in_use(level as int, old(allocator)@),
            crate::allocator_laws::is_below(old(allocator)@, usize::MAX - 0x1000),
        ensures
            final(self).wf(level as int),
            final(self).address == old(self).address,
            final(self).descriptors@.len() == old(self).descriptors@.len(),
            final(allocator).wf(),
            final(self).in_use(level as int, final(allocator)@),
            has_grown(
                *old(self),
                *final(self),
                level as int,
                old(allocator)@,
                final(allocator)@,
            ),
            crate::stage2_tables::only_taken(old(allocator)@, final(allocator)@),
            crate::allocator_laws::is_below(final(allocator)@, usize::MAX - 0x1000),
            crate::allocator_laws::after_pages(
                old(allocator)@,
                new_tables(
                    Some(*old(self)),
                    *final(self),
                    level as int,
                    old(self).descriptors@.len(),
                ),
            ) == Some(final(allocator)@),
            result is Err ==> crate::allocator_laws::has_no_page(final(allocator)@),
            final(request).follows(*old(request)),
            ({
                let from = page_in_table(
                    old(request).intermediate_physical_address as int / 0x1000,
                    old(self).descriptors@.len() as int,
                    level as int,
                );
                let done = old(request).pages_done(*final(request));
                let todo = min_of(old(request).pages(), old(self).pages(level as int) - from);
                &&& result is Ok ==> done == todo
                &&& result is Err ==> done < todo
                &&& forall|p: int|
                    0 <= p < old(self).pages(level as int) ==> page_rule(
                        old(self).mapping(level as int, p),
                        #[trigger] final(self).mapping(level as int, p),
                        p,
                        from,
                        from + done,
                        result is Ok,
                        old(request).physical_address as int,
                        permission,
                        is_device,
                    )
                &&& forall|p: int|
                    from <= p < from + done ==> (#[trigger] final(self).mapping(
                        level as int,
                        p,
                    ))->0.level == old(request).level_of(p, from, level as int)
                &&& is_lean(
                    *old(self),
                    *final(self),
                    level as int,
                    old(request).goal(from),
                    reached(from + done, result is Ok),
                )
                &&& is_enough(
                    new_tables(
                        Some(*old(self)),
                        *final(self),
                        level as int,
                        old(self).descriptors@.len(),
                    ),
                    places_needed(
                        places_of(*old(self), level as int),
                        old(request).goal(from),
                        level as int,
                        0,
                        old(self).descriptors@.len(),
                    ),
                    result is Ok,
                )
            }),
        decreases 3 - level, 1int,
    {
        let ghost before = *self;
        let ghost start = *request;
        let ghost page = start.intermediate_physical_address as int / 0x1000;
        let ghost n = self.descriptors@.len() as int;
        let ghost lv = level as int;
        let ghost from = page_in_table(page, n, lv);
        let pages: u64 = Self::span_of(level);
        let count: usize = self.descriptors.len();
        let mut i: usize = (request.intermediate_physical_address / PAGE_SIZE / pages % (
        count as u64)) as usize;
        let ghost mut pos: int = from;
        proof {
            crate::stage2_tables::lemma_not_grown(before, lv, allocator@);
            crate::stage2_tables::lemma_none_new(before, lv, n as nat);
            lemma_page_in_table(page, n, lv);
            crate::stage2_needs::lemma_lean_at_first(before, lv, start.goal(from), from);
            crate::stage2_needs::lemma_none_before(
                places_of(before, lv),
                start.goal(from),
                lv,
                i as nat,
            );
            assert forall|p: int| 0 <= p < before.pages(lv) implies page_rule(
                before.mapping(lv, p),
                #[trigger] self.mapping(lv, p),
                p,
                from,
                from,
                true,
                start.physical_address as int,
                permission,
                is_device,
            ) by {}
        }
        while i < count
            invariant
                before == *old(self),
                start == *old(request),
                count == n,
                0 <= i <= count,
                0 <= lv <= 3,
                lv == level,
                self.wf(lv),
                before.wf(lv),
                self.address == before.address,
                self.descriptors@.len() == n,
                before.descriptors@.len() == n,
                request.is_valid(),
                request.follows(start),
                start.is_valid(),
                allocator.wf(),
                crate::allocator_laws::is_below(allocator@, usize::MAX - 0x1000),
                self.in_use(lv, allocator@),
                has_grown(before, *self, lv, old(allocator)@, allocator@),
                crate::stage2_tables::only_taken(old(allocator)@, allocator@),
                crate::allocator_laws::after_pages(
                    old(allocator)@,
                    new_tables(Some(before), *self, lv, n as nat),
                ) == Some(allocator@),
                forall|j: int| i <= j < n ==> self.children@[j] == #[trigger] before.children@[j],
                is_lean(before, *self, lv, start.goal(from), pos),
                new_tables(Some(before), *self, lv, n as nat) == places_needed(
                    places_of(before, lv),
                    start.goal(from),
                    lv,
                    0,
                    i as nat,
                ),
                page == start.intermediate_physical_address as int / 0x1000,
                from == page_in_table(page, n, lv),
                0 <= from <= pos <= n * span(lv),
                pos == from + start.pages_done(*request),
                pos == from || pos % span(lv) == 0,
                pos - pos % span(lv) == i * span(lv),
                (request.intermediate_physical_address as int / 0x1000) % span(lv) == pos % span(
                    lv,
                ),
                forall|p: int|
                    0 <= p < before.pages(lv) ==> page_rule(
                        before.mapping(lv, p),
                        #[trigger] self.mapping(lv, p),
                        p,
                        from,
                        pos,
                        true,
                        start.physical_address as int,
                        permission,
                        is_device,
                    ),
                forall|p: int|
                    from <= p < pos ==> (#[trigger] self.mapping(lv, p))->0.level == start.level_of(
                        p,
                        from,
                        lv,
                    ),
            decreases count - i,
        {
            let ghost middle = *self;
            let ghost current = *request;
            let ghost memory = allocator@;
            let result: Result<(), ()> = self.map_descriptor(
                i,
                request,
                permission,
                is_device,
                level,
                allocator,
            );
            let ghost to = pos + current.pages_done(*request);
            proof {
                crate::stage2_tables::lemma_grown_in_turn(
                    before,
                    middle,
                    *self,
                    lv,
                    i as int,
                    old(allocator)@,
                    memory,
                    allocator@,
                );
                crate::stage2_tables::lemma_new_in_turn(
                    before,
                    middle,
                    *self,
                    lv,
                    i as int,
                    n as nat,
                );
                crate::allocator_laws::lemma_after_pages(
                    old(allocator)@,
                    new_tables(Some(before), middle, lv, n as nat),
                    new_in_slot(
                        child_of(Some(before), i as int),
                        self.children@[i as int],
                        lv,
                    ),
                );
                lemma_requests(start, current, *request);
                lemma_step(
                    before,
                    middle,
                    *self,
                    i as int,
                    lv,
                    from,
                    pos,
                    to,
                    result is Ok,
                    start.physical_address as int,
                    permission,
                    is_device,
                );
            }
            proof {
                lemma_progress(start, current, *request, i as int, n, lv, from, pos, to);
                lemma_levels(middle, *self, start, current, i as int, lv, from, pos, to);
                lemma_needs(
                    before,
                    middle,
                    *self,
                    start,
                    current,
                    *request,
                    i as int,
                    lv,
                    from,
                    pos,
                    result is Ok,
                );
            }
            if result.is_err() || request.remaining_size == 0 {
                return result;
            }
            proof {
                pos = to;
            }
            i = i + 1;
        }
        Ok(())
    }
}

/// The page before which everything was looked at: a mapping that was given up has looked at the page
/// it was given up at.
pub open spec fn reached(to: int, complete: bool) -> int {
    if complete {
        to
    } else {
        to + 1
    }
}

/// A mapping takes the tables that it needs. Where it was given up, it has not got them all.
pub open spec fn is_enough(taken: nat, needed: nat, complete: bool) -> bool {
    if complete {
        taken == needed
    } else {
        taken < needed
    }
}

pub open spec fn min_of(a: int, b: int) -> int {
    if a < b {
        a
    } else {
        b
    }
}

impl MapRequest {
    /// The request is for whole pages, one at least, and ends inside the address space.
    pub open spec fn is_valid(self) -> bool {
        &&& self.remaining_size > 0
        &&& self.remaining_size % 0x1000 == 0
        &&& self.physical_address + self.remaining_size <= u64::MAX
        &&& self.intermediate_physical_address + self.remaining_size <= u64::MAX
    }

    pub open spec fn pages(self) -> int {
        self.remaining_size as int / 0x1000
    }

    /// The level of the descriptor that maps page `p`, where the request starts with page `from` of a
    /// table of level `top`.
    pub open spec fn level_of(self, p: int, from: int, top: int) -> int {
        largest_fit(
            p,
            from,
            from + self.pages(),
            self.physical_address as int,
            self.intermediate_physical_address % 0x1000 == 0,
            top,
        )
    }

    /// What the request asks for, where it starts with page `from` of a table.
    pub open spec fn goal(self, from: int) -> Goal {
        Goal {
            from,
            end: from + self.pages(),
            address: self.physical_address as int,
            aligned: self.intermediate_physical_address % 0x1000 == 0,
        }
    }

    /// How many pages were mapped, where `after` remains.
    pub open spec fn pages_done(self, after: MapRequest) -> int {
        (self.remaining_size - after.remaining_size) / 0x1000
    }

    /// Whole pages of `before` were mapped, and the addresses moved on by as much.
    pub open spec fn follows(self, before: MapRequest) -> bool {
        let done = before.remaining_size - self.remaining_size;
        &&& 0 <= done
        &&& done % 0x1000 == 0
        &&& self.physical_address == before.physical_address + done
        &&& self.intermediate_physical_address == before.intermediate_physical_address + done
    }
}

/// The number of pages of a descriptor, and where a page stands among them.
pub proof fn lemma_span(page: int, level: int)
    requires
        0 <= level <= 3,
        0 <= page,
    ensures
        span(level) >= 1,
        0 <= page % span(level) < span(level),
        level < 3 ==> span(level) == 512 * span(level + 1),
        page < span(level) ==> page % span(level) == page,
{
}

/// Where a page stands in a table of the next level is where it stands in its descriptor.
proof fn lemma_page_in_child(page: int, level: int)
    requires
        0 <= level < 3,
        0 <= page,
    ensures
        page_in_table(page, 512, level + 1) == page % span(level),
{
    if level == 0 {
        assert(((page / 0x4_0000) % 512) * 0x4_0000 + page % 0x4_0000 == page % 0x800_0000);
    } else if level == 1 {
        assert(((page / 0x200) % 512) * 0x200 + page % 0x200 == page % 0x4_0000);
    } else {
        assert(((page / 1) % 512) * 1 + page % 1 == page % 0x200);
    }
}

/// A block that is mapped as a whole starts with its first page.
proof fn lemma_block(request: MapRequest, level: int)
    requires
        1 <= level <= 3,
        request.is_valid(),
        level < 3 ==> request.physical_address as int % (span(level) * 0x1000) == 0,
        level < 3 ==> request.intermediate_physical_address as int % (span(level) * 0x1000) == 0,
        level < 3 ==> request.remaining_size >= span(level) * 0x1000,
    ensures
        (request.intermediate_physical_address as int / 0x1000) % span(level) == 0,
        level < 3 ==> request.physical_address % 4 == 0,
        request.pages() >= span(level),
        (span(level) * 0x1000) / 0x1000 == span(level),
        (span(level) * 0x1000) % 0x1000 == 0,
{
    let ipa = request.intermediate_physical_address as int;
    let pa = request.physical_address as int;
    if level == 1 {
        assert(span(level) * 0x1000 == 0x4000_0000);
        assert(ipa % 0x4000_0000 == 0 ==> (ipa / 0x1000) % 0x4_0000 == 0);
        assert(pa % 0x4000_0000 == 0 ==> pa % 4 == 0);
    } else if level == 2 {
        assert(span(level) * 0x1000 == 0x20_0000);
        assert(ipa % 0x20_0000 == 0 ==> (ipa / 0x1000) % 0x200 == 0);
        assert(pa % 0x20_0000 == 0 ==> pa % 4 == 0);
    }
}

/// A block that is mapped as a whole is the largest that fits.
proof fn lemma_block_is_largest(request: MapRequest, q: int, level: int)
    requires
        1 <= level <= 3,
        0 <= q < span(level),
        request.is_valid(),
        level < 3 ==> request.physical_address as int % (span(level) * 0x1000) == 0,
        level < 3 ==> request.intermediate_physical_address as int % (span(level) * 0x1000) == 0,
        level < 3 ==> request.remaining_size >= span(level) * 0x1000,
    ensures
        request.level_of(
            q,
            (request.intermediate_physical_address as int / 0x1000) % span(level),
            level,
        ) == level,
{
    lemma_block(request, level);
    lemma_span(q, level);
    if level == 1 {
        assert(request.intermediate_physical_address as int % 0x4000_0000 == 0);
    } else if level == 2 {
        assert(request.intermediate_physical_address as int % 0x20_0000 == 0);
    }
}

/// Where no block of `level` is mapped, none fits.
proof fn lemma_child_level(request: MapRequest, q: int, level: int)
    requires
        0 <= level < 3,
        0 <= q < span(level),
        request.is_valid(),
        !(level >= 1 && request.remaining_size >= span(level) * 0x1000
            && request.physical_address as int % (span(level) * 0x1000) == 0
            && request.intermediate_physical_address as int % (span(level) * 0x1000) == 0),
    ensures
        ({
            let off = (request.intermediate_physical_address as int / 0x1000) % span(level);
            request.level_of(q, off, level + 1) == request.level_of(q, off, level)
        }),
{
    let ipa = request.intermediate_physical_address as int;
    lemma_span(q, level);
    lemma_span(ipa / 0x1000, level);
    if level == 1 {
        assert(ipa % 0x1000 == 0 && (ipa / 0x1000) % 0x4_0000 == 0 ==> ipa % 0x4000_0000 == 0);
    } else if level == 2 {
        assert(ipa % 0x1000 == 0 && (ipa / 0x1000) % 0x200 == 0 ==> ipa % 0x20_0000 == 0);
    }
}

/// Where no block of `level` is mapped, a table is needed.
proof fn lemma_no_block(request: MapRequest, level: int)
    requires
        0 <= level < 3,
        request.is_valid(),
        !(level >= 1 && request.remaining_size >= span(level) * 0x1000
            && request.physical_address as int % (span(level) * 0x1000) == 0
            && request.intermediate_physical_address as int % (span(level) * 0x1000) == 0),
    ensures
        ({
            let off = (request.intermediate_physical_address as int / 0x1000) % span(level);
            &&& 0 <= off < span(level)
            &&& crate::stage2_needs::on_the_way(0, level + 1, request.goal(off))
        }),
{
    let ipa = request.intermediate_physical_address as int;
    lemma_span(0, level);
    lemma_span(ipa / 0x1000, level);
    if level == 1 {
        assert(ipa % 0x1000 == 0 && (ipa / 0x1000) % 0x4_0000 == 0 ==> ipa % 0x4000_0000 == 0);
    } else if level == 2 {
        assert(ipa % 0x1000 == 0 && (ipa / 0x1000) % 0x200 == 0 ==> ipa % 0x20_0000 == 0);
    }
}

/// Which block fits does not depend on whether the pages are counted in the table or in one of its
/// descriptors.
proof fn lemma_level_shift(
    p: int,
    pos: int,
    from: int,
    rest: int,
    address: int,
    aligned: bool,
    level: int,
)
    requires
        0 <= level <= 3,
        0 <= from <= pos <= p,
        same_descriptor(p, pos, level),
        pos == from || pos % span(level) == 0,
    ensures
        largest_fit(
            p % span(level),
            pos % span(level),
            pos % span(level) + rest,
            address + (pos - from) * 0x1000,
            aligned,
            level,
        ) == largest_fit(p, from, pos + rest, address, aligned, level),
{
    lemma_separate(p, pos, level);
    if level <= 1 {
        lemma_fit_shift(p, pos, from, rest, address, aligned, level, 1);
    }
    if level <= 2 {
        lemma_fit_shift(p, pos, from, rest, address, aligned, level, 2);
    }
}

/// A block fits where it fits, whether the pages are counted in the table or in one of its
/// descriptors.
pub proof fn lemma_fit_shift(
    p: int,
    pos: int,
    from: int,
    rest: int,
    address: int,
    aligned: bool,
    level: int,
    lower: int,
)
    requires
        0 <= level <= lower <= 3,
        0 <= from <= pos,
        0 <= p,
        same_descriptor(p, pos, level),
        pos == from || pos % span(level) == 0,
    ensures
        fits_block(
            p % span(level),
            lower,
            pos % span(level),
            pos % span(level) + rest,
            address + (pos - from) * 0x1000,
            aligned,
        ) == fits_block(p, lower, from, pos + rest, address, aligned),
{
    lemma_region(p, level, lower);
    let q = p % span(level);
    let here = q - q % span(lower);
    let first = p - p % span(lower);
    assert(first - here == pos - pos % span(level));
    assert(address + (pos - from) * 0x1000 + (here - pos % span(level)) * 0x1000 == address + (first
        - from) * 0x1000);
}

/// The levels of the descriptors once descriptor `i` is done.
proof fn lemma_levels(
    middle: Stage2Table,
    after: Stage2Table,
    start: MapRequest,
    current: MapRequest,
    i: int,
    level: int,
    from: int,
    pos: int,
    to: int,
)
    requires
        middle.has_shape(level),
        0 <= i < middle.descriptors@.len(),
        after.same_but(middle, i),
        current.follows(start),
        start.is_valid(),
        current.is_valid(),
        0 <= from <= pos <= to,
        to <= middle.pages(level),
        pos == from + start.pages_done(current),
        pos == from || pos % span(level) == 0,
        pos - pos % span(level) == i * span(level),
        to <= pos - pos % span(level) + span(level),
        forall|p: int|
            from <= p < pos ==> (#[trigger] middle.mapping(level, p))->0.level == start.level_of(
                p,
                from,
                level,
            ),
        forall|q: int|
            pos % span(level) <= q < pos % span(level) + (to - pos) ==> (
            #[trigger] after.slot_mapping(level, i, q))->0.level == current.level_of(
                q,
                pos % span(level),
                level,
            ),
    ensures
        forall|p: int|
            from <= p < to ==> (#[trigger] after.mapping(level, p))->0.level == start.level_of(
                p,
                from,
                level,
            ),
{
    let s = span(level);
    let n = middle.descriptors@.len() as int;
    assert forall|p: int| from <= p < to implies (#[trigger] after.mapping(level, p))->0.level
        == start.level_of(p, from, level) by {
        lemma_index(p, n, level);
        lemma_separate(p, pos, level);
        vstd::arithmetic::div_mod::lemma_fundamental_div_mod_converse(pos, s, i, pos % s);
        let j = p / s;
        if p < pos {
            assert(j != i) by {
                if j == i {
                    assert(same_descriptor(p, pos, level));
                }
            }
            assert(after.children@[j] == middle.children@[j]);
            assert(after.descriptors@[j] == middle.descriptors@[j]);
            assert(after.mapping(level, p) == middle.mapping(level, p));
        } else {
            assert(same_descriptor(p, pos, level));
            let q = p % s;
            assert(after.mapping(level, p) == after.slot_mapping(level, i, q));
            let rest = current.pages();
            assert(pos + rest == from + start.pages());
            assert(current.physical_address == start.physical_address + (pos - from) * 0x1000);
            assert(current.intermediate_physical_address % 0x1000
                == start.intermediate_physical_address % 0x1000);
            lemma_level_shift(
                p,
                pos,
                from,
                rest,
                start.physical_address as int,
                start.intermediate_physical_address % 0x1000 == 0,
                level,
            );
        }
    }
}

/// The goal of the rest of a request is that of the request, by the pages of descriptor `i`.
proof fn lemma_goal_in_slot(
    start: MapRequest,
    current: MapRequest,
    i: int,
    level: int,
    from: int,
    pos: int,
)
    requires
        0 <= level <= 3,
        start.is_valid(),
        current.is_valid(),
        current.follows(start),
        pos == from + start.pages_done(current),
    ensures
        current.goal(pos % span(level)) == crate::stage2_needs::slot_goal(
            start.goal(from),
            level,
            i,
            pos,
        ),
        pos < start.goal(from).end,
        pos + current.pages() == start.goal(from).end,
{
}

/// What the tables needed are once descriptor `i` is done.
proof fn lemma_needs(
    before: Stage2Table,
    middle: Stage2Table,
    after: Stage2Table,
    start: MapRequest,
    current: MapRequest,
    last: MapRequest,
    i: int,
    level: int,
    from: int,
    pos: int,
    complete: bool,
)
    requires
        before.has_shape(level),
        middle.has_shape(level),
        after.has_shape(level),
        0 <= i < before.descriptors@.len(),
        middle.descriptors@.len() == before.descriptors@.len(),
        middle.children@[i] == before.children@[i],
        after.same_but(middle, i),
        start.is_valid(),
        current.is_valid(),
        current.follows(start),
        last.follows(current),
        0 <= from <= pos,
        pos == from + start.pages_done(current),
        pos - pos % span(level) == i * span(level),
        pos == from || pos % span(level) == 0,
        current.pages_done(last) <= span(level) - pos % span(level),
        is_lean(before, middle, level, start.goal(from), pos),
        is_lean_slot(
            middle,
            after,
            level,
            i,
            current.goal(pos % span(level)),
            reached(pos % span(level) + current.pages_done(last), complete),
        ),
        new_tables(Some(before), middle, level, before.descriptors@.len()) == places_needed(
            places_of(before, level),
            start.goal(from),
            level,
            0,
            i as nat,
        ),
        is_enough(
            new_in_slot(child_of(Some(middle), i), after.children@[i], level),
            slot_needed(
                slot_places(middle, level, i),
                current.goal(pos % span(level)),
                level,
                0,
            ),
            complete,
        ),
    ensures
        is_lean(
            before,
            after,
            level,
            start.goal(from),
            reached(pos + current.pages_done(last), complete),
        ),
        complete ==> new_tables(Some(before), after, level, before.descriptors@.len())
            == places_needed(
            places_of(before, level),
            start.goal(from),
            level,
            0,
            (i + 1) as nat,
        ),
        !complete || last.remaining_size == 0 ==> is_enough(
            new_tables(Some(before), after, level, before.descriptors@.len()),
            places_needed(
                places_of(before, level),
                start.goal(from),
                level,
                0,
                before.descriptors@.len(),
            ),
            complete,
        ),
{
    let n = before.descriptors@.len();
    let s = span(level);
    let goal = start.goal(from);
    let had = places_of(before, level);
    let next = (i + 1) as nat;
    lemma_goal_in_slot(start, current, i, level, from, pos);
    crate::stage2_needs::lemma_lean_step(
        before,
        middle,
        after,
        level,
        i,
        pos,
        goal,
        reached(pos + current.pages_done(last), complete),
    );
    crate::stage2_needs::lemma_slot_needed(before, middle, level, i, pos, goal);
    crate::stage2_tables::lemma_new_in_turn(before, middle, after, level, i, n);
    assert(places_needed(had, goal, level, 0, next) == places_needed(had, goal, level, 0, i as nat)
        + slot_needed(had, goal, level, i * s)) by {
        assert(0 + (next - 1) * s == i * s);
    }
    crate::stage2_needs::lemma_needed_grows(had, goal, level, next, n);
    if last.remaining_size == 0 {
        assert((i + 1) * s == i * s + s) by (nonlinear_arith);
        crate::stage2_needs::lemma_none_behind(had, goal, level, next, n);
    }
}

/// A new table in place of a descriptor that named none: what the descriptor mapped is gone, but
/// for the pages that the table maps.
proof fn lemma_new_table(
    slot: Option<Leaf>,
    after: Option<Leaf>,
    q: int,
    off: int,
    done: int,
    level: int,
    complete: bool,
    address: int,
    permission: u64,
    is_device: bool,
)
    requires
        0 <= level < 3,
        0 <= q < span(level),
        0 <= off < span(level),
        0 <= done,
        complete ==> done > 0,
        slot matches Some(leaf) ==> leaf.level == level,
        page_rule(None, after, q, off, off + done, complete, address, permission, is_device),
    ensures
        page_rule(slot, after, q, off, off + done, complete, address, permission, is_device),
{
    lemma_span(q, level);
}

/// Where a page stands in a table of `n` descriptors.
proof fn lemma_page_in_table(page: int, n: int, level: int)
    requires
        0 <= level <= 3,
        0 <= page,
        n > 0,
    ensures
        ({
            let from = page_in_table(page, n, level);
            let s = span(level);
            &&& 0 <= from < n * s
            &&& from % s == page % s
            &&& from - from % s == ((page / s) % n) * s
            &&& 0 <= (page / s) % n < n
        }),
{
    let s = span(level);
    let k = (page / s) % n;
    let r = page % s;
    vstd::arithmetic::div_mod::lemma_mod_bound(page / s, n);
    vstd::arithmetic::div_mod::lemma_mod_bound(page, s);
    vstd::arithmetic::div_mod::lemma_fundamental_div_mod_converse(k * s + r, s, k, r);
    assert(0 <= k * s + r < n * s) by (nonlinear_arith)
        requires
            0 <= k < n,
            0 <= r < s,
    ;
}

/// What is done in two parts is done.
proof fn lemma_requests(start: MapRequest, current: MapRequest, last: MapRequest)
    requires
        current.follows(start),
        last.follows(current),
    ensures
        last.follows(start),
        start.pages_done(last) == start.pages_done(current) + current.pages_done(last),
        current.physical_address == start.physical_address + start.pages_done(current) * 0x1000,
{
}

/// Where the mapping stands once descriptor `i` is done.
proof fn lemma_progress(
    start: MapRequest,
    current: MapRequest,
    last: MapRequest,
    i: int,
    n: int,
    level: int,
    from: int,
    pos: int,
    to: int,
)
    requires
        0 <= level <= 3,
        0 <= i < n,
        start.is_valid(),
        current.is_valid(),
        current.follows(start),
        last.follows(current),
        0 <= from <= pos,
        pos == from + start.pages_done(current),
        to == pos + current.pages_done(last),
        pos - pos % span(level) == i * span(level),
        (current.intermediate_physical_address as int / 0x1000) % span(level) == pos % span(level),
        current.pages_done(last) <= min_of(current.pages(), span(level) - pos % span(level)),
    ensures
        to <= n * span(level),
        to == from + start.pages_done(last),
        start.pages_done(last) <= start.pages(),
        last.remaining_size == 0 ==> start.pages_done(last) == start.pages(),
        current.pages_done(last) < min_of(current.pages(), span(level) - pos % span(level))
            ==> start.pages_done(last) < min_of(start.pages(), n * span(level) - from),
        current.pages_done(last) == min_of(current.pages(), span(level) - pos % span(level))
            && last.remaining_size > 0 ==> {
            &&& to == (i + 1) * span(level)
            &&& to % span(level) == 0
            &&& (last.intermediate_physical_address as int / 0x1000) % span(level) == 0
            &&& last.is_valid()
        },
{
    let s = span(level);
    let off = pos % s;
    let done = current.pages_done(last);
    let page = current.intermediate_physical_address as int / 0x1000;
    vstd::arithmetic::div_mod::lemma_mod_bound(pos, s);
    assert((i + 1) * s == i * s + s) by (nonlinear_arith);
    assert((i + 1) * s <= n * s) by (nonlinear_arith)
        requires
            i + 1 <= n,
            s > 0,
    ;
    assert(last.intermediate_physical_address as int / 0x1000 == page + done);
    if done == s - off {
        vstd::arithmetic::div_mod::lemma_fundamental_div_mod_converse(to, s, i + 1, 0);
        vstd::arithmetic::div_mod::lemma_fundamental_div_mod(page, s);
        vstd::arithmetic::mul::lemma_mul_is_commutative(s, page / s);
        assert((page / s + 1) * s == (page / s) * s + s) by (nonlinear_arith);
        vstd::arithmetic::div_mod::lemma_fundamental_div_mod_converse(
            page + done,
            s,
            page / s + 1,
            0,
        );
    }
}

/// Mapping through one descriptor more.
proof fn lemma_step(
    before: Stage2Table,
    middle: Stage2Table,
    after: Stage2Table,
    i: int,
    level: int,
    from: int,
    pos: int,
    to: int,
    complete: bool,
    address: int,
    permission: u64,
    is_device: bool,
)
    requires
        before.has_shape(level),
        middle.has_shape(level),
        0 <= i < before.descriptors@.len(),
        before.descriptors@.len() == middle.descriptors@.len(),
        after.same_but(middle, i),
        0 <= from <= pos <= to,
        pos == from || pos % span(level) == 0,
        pos - pos % span(level) == i * span(level),
        to <= pos - pos % span(level) + span(level),
        complete ==> pos < to,
        !complete ==> to < pos - pos % span(level) + span(level),
        forall|p: int|
            0 <= p < before.pages(level) ==> page_rule(
                before.mapping(level, p),
                #[trigger] middle.mapping(level, p),
                p,
                from,
                pos,
                true,
                address,
                permission,
                is_device,
            ),
        forall|q: int|
            0 <= q < span(level) ==> page_rule(
                middle.slot_mapping(level, i, q),
                #[trigger] after.slot_mapping(level, i, q),
                q,
                pos % span(level),
                pos % span(level) + (to - pos),
                complete,
                address + (pos - from) * 0x1000,
                permission,
                is_device,
            ),
    ensures
        forall|p: int|
            0 <= p < before.pages(level) ==> page_rule(
                before.mapping(level, p),
                #[trigger] after.mapping(level, p),
                p,
                from,
                to,
                complete,
                address,
                permission,
                is_device,
            ),
{
    let s = span(level);
    assert forall|p: int| 0 <= p < before.pages(level) implies page_rule(
        before.mapping(level, p),
        #[trigger] after.mapping(level, p),
        p,
        from,
        to,
        complete,
        address,
        permission,
        is_device,
    ) by {
        lemma_index(p, before.descriptors@.len() as int, level);
        lemma_mapping_level(before, level, p);
        lemma_separate(p, pos, level);
        assert(page_rule(
            before.mapping(level, p),
            middle.mapping(level, p),
            p,
            from,
            pos,
            true,
            address,
            permission,
            is_device,
        ));
        let j = p / s;
        let q = p % s;
        assert(middle.mapping(level, p) == middle.slot_mapping(level, j, q));
        assert(after.mapping(level, p) == after.slot_mapping(level, j, q));
        vstd::arithmetic::div_mod::lemma_fundamental_div_mod_converse(
            pos,
            s,
            i,
            pos % s,
        );
        if j == i {
            lemma_mapping_level(middle, level, p);
            lemma_shift(
                middle.mapping(level, p),
                after.mapping(level, p),
                p,
                pos,
                to,
                level,
                complete,
                address + (pos - from) * 0x1000,
                permission,
                is_device,
            );
        }
        lemma_compose(
            before.mapping(level, p),
            middle.mapping(level, p),
            after.mapping(level, p),
            p,
            from,
            pos,
            to,
            level,
            complete,
            address,
            permission,
            is_device,
        );
    }
}

/// What is said of the pages of one descriptor holds of them as pages of the table.
proof fn lemma_shift(
    before: Option<Leaf>,
    after: Option<Leaf>,
    p: int,
    pos: int,
    to: int,
    level: int,
    complete: bool,
    address: int,
    permission: u64,
    is_device: bool,
)
    requires
        0 <= level <= 3,
        0 <= p,
        0 <= pos,
        same_descriptor(p, pos, level),
        before matches Some(leaf) ==> level <= leaf.level <= 3,
        after matches Some(leaf) ==> level <= leaf.level <= 3,
        page_rule(
            before,
            after,
            p % span(level),
            pos % span(level),
            pos % span(level) + (to - pos),
            complete,
            address,
            permission,
            is_device,
        ),
    ensures
        page_rule(before, after, p, pos, to, complete, address, permission, is_device),
{
    if let Some(leaf) = before {
        lemma_region(p, level, leaf.level);
    }
    if let Some(leaf) = after {
        lemma_region(p, level, leaf.level);
    }
}

/// The bits of an address that a descriptor of `level` leaves to the address.
pub open spec fn block_bits(level: int) -> u64 {
    if level >= 3 {
        0xFFF
    } else if level == 2 {
        0x1F_FFFF
    } else {
        0x3FFF_FFFF
    }
}

/// Where a walk that ends at `leaf` takes the byte at `x`: the output address of the descriptor,
/// without the bits that its block covers, and those bits of `x`.
pub open spec fn output_of(leaf: Leaf, x: u64) -> u64 {
    (leaf.descriptor.0 & 0x0003_FFFF_FFFF_F000 & !block_bits(leaf.level)) | (x & block_bits(
        leaf.level,
    ))
}

/// The descriptor grants this permission, has the access flag, and gives the memory attribute of
/// device memory or of write-back memory.
pub open spec fn gives(leaf: Leaf, permission: u64, is_device: bool) -> bool {
    &&& leaf.descriptor.is_valid()
    &&& leaf.descriptor.is_table() == (leaf.level == 3)
    &&& (leaf.descriptor.0 >> 6u64) & 3 == permission
    &&& (leaf.descriptor.0 >> 10u64) & 1 == 1
    &&& (leaf.descriptor.0 >> 2u64) & 0xF == if is_device {
        0u64
    } else {
        0xF
    }
}

/// A byte of a page that is mapped to an aligned address translates to that address: the bits of the
/// descriptor that a walk takes, joined with those that it leaves to the byte's own address.
pub proof fn mapped_page_translates(
    leaf: Option<Leaf>,
    x: u64,
    address: int,
    permission: u64,
    is_device: bool,
)
    requires
        maps(leaf, x as int / 0x1000, address, permission, is_device),
        permission <= 3,
        0 <= address < 0x4_0000_0000_0000,
        address % 0x1000 == 0,
    ensures
        output_of(leaf->0, x) == address + x % 0x1000,
        gives(leaf->0, permission, is_device),
{
    let l = leaf->0;
    let p = x as int / 0x1000;
    let first = address - (p % span(l.level)) * 0x1000;
    let base = first as u64;
    lemma_span(p, l.level);
    crate::laws::fields::lemma_output(base, base, x);
    crate::paging::leaf_fields(base, permission, is_device, l.level);
    let d = l.descriptor.0;
    if l.level == 1 {
        assert(first % 0x4000_0000 == 0);
        crate::laws::fields::lemma_output(d, base, x);
        assert(x % 0x4000_0000 == (p % 0x4_0000) * 0x1000 + x % 0x1000);
    } else if l.level == 2 {
        assert(first % 0x20_0000 == 0);
        crate::laws::fields::lemma_output(d, base, x);
        assert(x % 0x20_0000 == (p % 0x200) * 0x1000 + x % 0x1000);
    } else {
        crate::laws::fields::lemma_output(d, base, x);
    }
}

} // verus!
