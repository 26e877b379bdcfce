//! Where the tables of a translation are.

use crate::free_memory::FreeMemory;
use crate::stage2::{
    child_of, has_grown, holds_byte, is_of_new_table, is_taken_page, new_in_slot, new_tables,
    same_descriptor, span, Stage2Table,
};
use vstd::prelude::*;

verus! {

/// Nothing was freed in between.
pub open spec fn only_taken(before: FreeMemory, after: FreeMemory) -> bool {
    forall|x: int| #[trigger] after.is_free(x) ==> before.is_free(x)
}

/// The page at `address` was taken, and nothing else.
pub open spec fn is_only_page_taken(address: int, before: FreeMemory, after: FreeMemory) -> bool {
    forall|x: int|
        #![trigger before.is_free(x)]
        #![trigger after.is_free(x)]
        (before.is_free(x) && !after.is_free(x)) <==> (address <= x < address + 0x1000)
}

/// Page `q` of descriptor `i` is a page of the table, and is looked up where the descriptor says.
pub proof fn lemma_slot(table: Stage2Table, level: int, i: int, l: int, q: int)
    requires
        table.has_shape(level),
        0 <= i < table.descriptors@.len(),
        0 <= q < span(level),
    ensures
        ({
            let p = i * span(level) + q;
            &&& 0 <= p < table.pages(level)
            &&& p / span(level) == i
            &&& p % span(level) == q
            &&& table.children@[i] matches Some(child) ==> table.table_at(level, l, p) == if l
                == level + 1 {
                Some(child.address)
            } else {
                child.table_at(level + 1, l, q)
            }
        }),
{
    let s = span(level);
    let n = table.descriptors@.len() as int;
    vstd::arithmetic::div_mod::lemma_fundamental_div_mod_converse(i * s + q, s, i, q);
    assert(0 <= i * s + q < n * s) by (nonlinear_arith)
        requires
            0 <= i < n,
            0 <= q < s,
    ;
}

/// What holds of the tables below a table holds of those below one of them.
pub proof fn lemma_child(table: Stage2Table, level: int, i: int, memory: FreeMemory)
    requires
        table.wf(level),
        table.in_use(level, memory),
        0 <= i < table.descriptors@.len(),
        table.children@[i] is Some,
    ensures
        table.children@[i]->0.wf(level + 1),
        table.children@[i]->0.in_use(level + 1, memory),
        table.children@[i]->0.address % 0x1000 == 0,
{
    let s = span(level);
    let child = *table.children@[i]->0;
    assert(level < 3);
    assert(child.has_shape(level + 1));
    assert(s == 512 * span(level + 1));
    assert(child.pages(level + 1) == s);
    reveal(Stage2Table::is_spread);
    reveal(Stage2Table::in_use);
    lemma_slot(table, level, i, level + 1, 0);
    let first = i * s;
    assert(table.table_at(level, level + 1, first) == Some(child.address));
    assert(table.is_place(level, level + 1, first));
    assert forall|l: int, q: int| child.is_place(level + 1, l, q) implies match #[trigger] child.table_at(
        level + 1,
        l,
        q,
    ) {
        Some(address) => address % 0x1000 == 0 && child.is_beside(address as int),
        None => true,
    } by {
        lemma_slot(table, level, i, l, q);
        let p = i * s + q;
        assert(table.is_place(level, l, p));
        assert(table.table_at(level, l, p) == child.table_at(level + 1, l, q));
        if let Some(address) = child.table_at(level + 1, l, q) {
            assert(address != child.address) by {
                if address == child.address {
                    assert(table.table_at(level, l, p) == table.table_at(
                        level,
                        level + 1,
                        first,
                    ));
                }
            }
        }
    }
    assert forall|l: int, q: int, m: int, r: int|
        child.is_place(level + 1, l, q) && child.is_place(level + 1, m, r) && (
        #[trigger] child.table_at(level + 1, l, q)) is Some && child.table_at(level + 1, l, q)
            == #[trigger] child.table_at(level + 1, m, r) implies l == m && same_descriptor(
        q,
        r,
        l - 1,
    ) by {
        lemma_slot(table, level, i, l, q);
        lemma_slot(table, level, i, m, r);
        assert(table.table_at(level, l, i * s + q) == table.table_at(level, m, i * s + r));
        crate::stage2::lemma_region(i * s + q, level, l - 1);
        crate::stage2::lemma_region(i * s + r, level, l - 1);
    }
    assert forall|l: int, q: int, x: int|
        child.is_place(level + 1, l, q) && holds_byte(
            #[trigger] child.table_at(level + 1, l, q),
            x,
        ) implies !#[trigger] memory.is_free(x) by {
        lemma_slot(table, level, i, l, q);
        assert(table.is_place(level, l, i * s + q));
        assert(holds_byte(table.table_at(level, l, i * s + q), x));
    }
    assert forall|x: int| child.address <= x < child.address + 8 * child.descriptors@.len() implies !(
    #[trigger] memory.is_free(x)) by {
        assert(holds_byte(table.table_at(level, level + 1, first), x));
    }
}

/// A table without tables below it.
pub proof fn lemma_childless(table: Stage2Table, level: int)
    requires
        table.has_shape(level),
        forall|i: int| 0 <= i < table.children@.len() ==> #[trigger] table.children@[i] is None,
    ensures
        table.is_spread(level),
        forall|l: int, p: int|
            0 <= p < table.pages(level) ==> #[trigger] table.table_at(level, l, p) is None,
{
    assert forall|l: int, p: int| 0 <= p < table.pages(level) implies #[trigger] table.table_at(
        level,
        l,
        p,
    ) is None by {
        crate::stage2::lemma_index(p, table.descriptors@.len() as int, level);
    }
    reveal(Stage2Table::is_spread);
}

/// A table without tables below it is in use where its own bytes are.
pub proof fn lemma_childless_in_use(table: Stage2Table, level: int, memory: FreeMemory)
    requires
        table.has_shape(level),
        forall|i: int| 0 <= i < table.children@.len() ==> #[trigger] table.children@[i] is None,
        forall|x: int|
            table.address <= x < table.address + 8 * table.descriptors@.len()
                ==> !#[trigger] memory.is_free(x),
    ensures
        table.in_use(level, memory),
{
    lemma_childless(table, level);
    reveal(Stage2Table::in_use);
}

/// Where nothing is done, nothing has grown.
pub proof fn lemma_not_grown(table: Stage2Table, level: int, memory: FreeMemory)
    ensures
        has_grown(table, table, level, memory, memory),
{
    reveal(has_grown);
}

/// The tables stay in use while memory is taken: nobody else gets their pages.
pub proof fn tables_stay_in_use(
    table: Stage2Table,
    level: int,
    memory: FreeMemory,
    left: FreeMemory,
)
    requires
        table.in_use(level, memory),
        only_taken(memory, left),
    ensures
        table.in_use(level, left),
{
    reveal(Stage2Table::in_use);
}

/// What has grown is in use.
proof fn lemma_grown_in_use(
    before: Stage2Table,
    after: Stage2Table,
    level: int,
    memory: FreeMemory,
    left: FreeMemory,
)
    requires
        before.in_use(level, memory),
        after.address == before.address,
        after.descriptors@.len() == before.descriptors@.len(),
        has_grown(before, after, level, memory, left),
        only_taken(memory, left),
    ensures
        after.in_use(level, left),
{
    reveal(Stage2Table::in_use);
    reveal(has_grown);
    assert forall|l: int, p: int, x: int|
        after.is_place(level, l, p) && holds_byte(
            #[trigger] after.table_at(level, l, p),
            x,
        ) implies !#[trigger] left.is_free(x) by {
        let address = after.table_at(level, l, p)->0;
        assert(before.is_place(level, l, p));
        if before.table_at(level, l, p) == Some(address) {
            assert(holds_byte(before.table_at(level, l, p), x));
            assert(left.is_free(x) ==> memory.is_free(x));
        } else {
            assert(is_taken_page(address as int, memory, left));
            assert(memory.is_free(x) && !left.is_free(x));
        }
    }
}

/// A table stays spread where one descriptor changes, and the new tables below it were free.
proof fn lemma_still_spread(
    before: Stage2Table,
    after: Stage2Table,
    level: int,
    i: int,
    memory: FreeMemory,
    left: FreeMemory,
)
    requires
        0 <= level <= 3,
        before.is_spread(level),
        before.in_use(level, memory),
        after.same_but(before, i),
        0 < before.descriptors@.len() == before.children@.len(),
        has_grown(before, after, level, memory, left),
        forall|l: int, p: int, m: int, q: int|
            after.is_place(level, l, p) && after.is_place(level, m, q) && p / span(level) == i && q
                / span(level) == i && (#[trigger] after.table_at(level, l, p)) is Some
                && after.table_at(level, l, p) == #[trigger] after.table_at(level, m, q) ==> l == m
                && same_descriptor(p, q, l - 1),
    ensures
        after.is_spread(level),
{
    reveal(Stage2Table::is_spread);
    reveal(Stage2Table::in_use);
    reveal(has_grown);
    assert forall|l: int, p: int| after.is_place(level, l, p) implies match #[trigger] after.table_at(
        level,
        l,
        p,
    ) {
        Some(address) => address % 0x1000 == 0 && after.is_beside(address as int),
        None => true,
    } by {
        if let Some(address) = after.table_at(level, l, p) {
            assert(before.is_place(level, l, p));
            if before.table_at(level, l, p) != Some(address) {
                assert(is_taken_page(address as int, memory, left));
                let x = if address < after.address {
                    after.address as int
                } else {
                    address as int
                };
                if !after.is_beside(address as int) {
                    assert(memory.is_free(x));
                }
            }
        }
    }
    assert forall|l: int, p: int, m: int, q: int|
        after.is_place(level, l, p) && after.is_place(level, m, q) && (#[trigger] after.table_at(
            level,
            l,
            p,
        )) is Some && after.table_at(level, l, p) == #[trigger] after.table_at(
            level,
            m,
            q,
        ) implies l == m && same_descriptor(p, q, l - 1) by {
        let address = after.table_at(level, l, p)->0;
        let x = address as int;
        assert(before.is_place(level, l, p) && before.is_place(level, m, q));
        crate::stage2::lemma_index(p, before.descriptors@.len() as int, level);
        crate::stage2::lemma_index(q, before.descriptors@.len() as int, level);
        if p / span(level) != i {
            assert(after.children@[p / span(level)] == before.children@[p / span(level)]);
            assert(before.table_at(level, l, p) == Some(address));
            assert(holds_byte(before.table_at(level, l, p), x));
            if before.table_at(level, m, q) != Some(address) {
                assert(is_taken_page(x, memory, left));
                assert(memory.is_free(x));
            }
        } else if q / span(level) != i {
            assert(after.children@[q / span(level)] == before.children@[q / span(level)]);
            assert(before.table_at(level, m, q) == Some(address));
            assert(holds_byte(before.table_at(level, m, q), x));
            if before.table_at(level, l, p) != Some(address) {
                assert(is_taken_page(x, memory, left));
                assert(memory.is_free(x));
            }
        }
    }
}

/// A block in place of a descriptor and its tables.
pub proof fn lemma_leaf_grown(
    before: Stage2Table,
    after: Stage2Table,
    level: int,
    i: int,
    memory: FreeMemory,
)
    requires
        before.wf(level),
        before.in_use(level, memory),
        after.has_shape(level),
        0 <= i < before.descriptors@.len(),
        after.same_but(before, i),
        after.children@[i] is None,
        after.descriptors@[i].is_valid(),
    ensures
        has_grown(before, after, level, memory, memory),
        after.is_spread(level),
        after.in_use(level, memory),
{
    let n = before.descriptors@.len() as int;
    assert forall|l: int, p: int| after.is_place(level, l, p) implies match #[trigger] after.table_at(
        level,
        l,
        p,
    ) {
        Some(address) => before.table_at(level, l, p) == Some(address),
        None => true,
    } by {
        crate::stage2::lemma_index(p, n, level);
        if p / span(level) != i {
            assert(after.children@[p / span(level)] == before.children@[p / span(level)]);
        }
    }
    assert forall|l: int, p: int|
        before.is_place(level, l, p) && (#[trigger] before.table_at(level, l, p)) is Some implies {
        ||| after.table_at(level, l, p) == before.table_at(level, l, p)
        ||| after.mapping(level, p) matches Some(leaf) && leaf.level < l
    } by {
        crate::stage2::lemma_index(p, n, level);
        if p / span(level) != i {
            assert(after.children@[p / span(level)] == before.children@[p / span(level)]);
        }
    }
    assert(has_grown(before, after, level, memory, memory)) by {
        reveal(has_grown);
    }
    lemma_still_spread(before, after, level, i, memory, memory);
    lemma_grown_in_use(before, after, level, memory, memory);
}

/// The table `own` below descriptor `i`, an old one or a new one, has become `grown`.
pub proof fn lemma_child_grown(
    before: Stage2Table,
    after: Stage2Table,
    level: int,
    i: int,
    own: Stage2Table,
    grown: Stage2Table,
    memory: FreeMemory,
    middle: FreeMemory,
    left: FreeMemory,
)
    requires
        0 <= level < 3,
        before.wf(level),
        before.in_use(level, memory),
        after.has_shape(level),
        0 <= i < before.descriptors@.len(),
        after.same_but(before, i),
        after.children@[i] matches Some(child) && *child == grown,
        own.has_shape(level + 1),
        grown.wf(level + 1),
        own.address == grown.address,
        own.descriptors@.len() == 512,
        grown.descriptors@.len() == 512,
        has_grown(own, grown, level + 1, middle, left),
        only_taken(memory, middle),
        only_taken(middle, left),
        own.in_use(level + 1, middle),
        match before.children@[i] {
            Some(child) => *child == own && middle == memory,
            None => {
                &&& forall|j: int|
                    0 <= j < own.children@.len() ==> #[trigger] own.children@[j] is None
                &&& own.address % 0x1000 == 0
                &&& is_only_page_taken(own.address as int, memory, middle)
            },
        },
    ensures
        has_grown(before, after, level, memory, left),
        after.is_spread(level),
        after.in_use(level, left),
{
    let s = span(level);
    let n = before.descriptors@.len() as int;
    assert(s == 512 * span(level + 1));
    assert(own.pages(level + 1) == s && grown.pages(level + 1) == s);
    let is_new = before.children@[i] is None;
    if is_new {
        lemma_childless(own, level + 1);
    }
    reveal(Stage2Table::in_use);
    assert forall|l: int, p: int| after.is_place(level, l, p) implies match #[trigger] after.table_at(
        level,
        l,
        p,
    ) {
        Some(address) => {
            ||| before.table_at(level, l, p) == Some(address)
            ||| before.table_at(level, l, p) is None && address % 0x1000 == 0 && is_taken_page(
                address as int,
                memory,
                left,
            )
        },
        None => true,
    } by {
        reveal(has_grown);
        crate::stage2::lemma_index(p, n, level);
        let q = p % s;
        if p / s != i {
            assert(after.children@[p / s] == before.children@[p / s]);
        } else if l == level + 1 {
            if is_new {
                assert(is_taken_page(own.address as int, memory, left)) by {
                    assert forall|x: int| own.address <= x < own.address + 0x1000 implies
                        #[trigger] memory.is_free(x) && !left.is_free(x) by {
                        assert(memory.is_free(x) && !middle.is_free(x));
                        assert(left.is_free(x) ==> middle.is_free(x));
                    }
                }
            }
        } else if let Some(address) = after.table_at(level, l, p) {
            assert(grown.is_place(level + 1, l, q));
            assert(grown.table_at(level + 1, l, q) == Some(address));
            if own.table_at(level + 1, l, q) != Some(address) {
                assert(is_taken_page(address as int, middle, left));
                assert forall|x: int| address <= x < address + 0x1000 implies
                    #[trigger] memory.is_free(x) && !left.is_free(x) by {
                    assert(middle.is_free(x) && !left.is_free(x));
                }
            }
        }
    }
    assert forall|x: int| memory.is_free(x) && !#[trigger] left.is_free(x) implies exists|
        l: int,
        p: int,
    | #[trigger] is_of_new_table(before, after, level, l, p, x) by {
        reveal(has_grown);
        if middle.is_free(x) {
            let (l, q) = choose|l: int, q: int| #[trigger]
                is_of_new_table(own, grown, level + 1, l, q, x);
            lemma_slot(after, level, i, l, q);
            crate::stage2::lemma_index(i * s + q, n, level);
            assert(is_of_new_table(before, after, level, l, i * s + q, x));
        } else {
            lemma_slot(after, level, i, level + 1, 0);
            crate::stage2::lemma_index(i * s + 0, n, level);
            assert(is_of_new_table(before, after, level, level + 1, i * s + 0, x));
        }
    }
    assert forall|l: int, p: int|
        before.is_place(level, l, p) && (#[trigger] before.table_at(level, l, p)) is Some implies {
        ||| after.table_at(level, l, p) == before.table_at(level, l, p)
        ||| after.mapping(level, p) matches Some(leaf) && leaf.level < l
    } by {
        reveal(has_grown);
        crate::stage2::lemma_index(p, n, level);
        let q = p % s;
        if p / s != i {
            assert(after.children@[p / s] == before.children@[p / s]);
        } else if l > level + 1 {
            assert(own.is_place(level + 1, l, q));
            assert(own.table_at(level + 1, l, q) is Some);
            assert(after.mapping(level, p) == grown.mapping(level + 1, q));
        }
    }
    assert(has_grown(before, after, level, memory, left)) by {
        reveal(has_grown);
    }
    assert(only_taken(memory, left)) by {
        assert forall|x: int| #[trigger] left.is_free(x) implies memory.is_free(x) by {
            assert(middle.is_free(x));
        }
    }
    assert forall|l: int, p: int, m: int, q: int|
        after.is_place(level, l, p) && after.is_place(level, m, q) && p / span(level) == i && q
            / span(level) == i && (#[trigger] after.table_at(level, l, p)) is Some
            && after.table_at(level, l, p) == #[trigger] after.table_at(level, m, q) implies l == m
        && same_descriptor(p, q, l - 1) by {
        reveal(Stage2Table::is_spread);
        crate::stage2::lemma_index(p, n, level);
        crate::stage2::lemma_index(q, n, level);
        let a = p % s;
        let b = q % s;
        if l == level + 1 {
            if m != level + 1 {
                assert(grown.is_place(level + 1, m, b));
                assert(grown.table_at(level + 1, m, b) == Some(grown.address));
            }
        } else if m == level + 1 {
            assert(grown.is_place(level + 1, l, a));
            assert(grown.table_at(level + 1, l, a) == Some(grown.address));
        } else {
            assert(grown.is_place(level + 1, l, a) && grown.is_place(level + 1, m, b));
            assert(grown.table_at(level + 1, l, a) == grown.table_at(level + 1, m, b));
            crate::stage2::lemma_region(p, level, l - 1);
            crate::stage2::lemma_region(q, level, l - 1);
        }
    }
    lemma_still_spread(before, after, level, i, memory, left);
    lemma_grown_in_use(before, after, level, memory, left);
}

/// What grows through one descriptor more has grown. The descriptor had not changed before.
pub proof fn lemma_grown_in_turn(
    before: Stage2Table,
    middle: Stage2Table,
    after: Stage2Table,
    level: int,
    i: int,
    memory: FreeMemory,
    rest: FreeMemory,
    left: FreeMemory,
)
    requires
        0 <= level <= 3,
        before.descriptors@.len() == before.children@.len(),
        middle.descriptors@.len() == before.descriptors@.len(),
        middle.children@.len() == before.children@.len(),
        after.same_but(middle, i),
        0 <= i < before.descriptors@.len(),
        middle.children@[i] == before.children@[i],
        has_grown(before, middle, level, memory, rest),
        has_grown(middle, after, level, rest, left),
        only_taken(memory, rest),
        only_taken(rest, left),
    ensures
        has_grown(before, after, level, memory, left),
        only_taken(memory, left),
{
    let s = span(level);
    let n = before.descriptors@.len() as int;
    reveal(has_grown);
    assert forall|x: int| #[trigger] left.is_free(x) implies memory.is_free(x) by {
        assert(rest.is_free(x));
    }
    assert forall|l: int, p: int| after.is_place(level, l, p) implies match #[trigger] after.table_at(
        level,
        l,
        p,
    ) {
        Some(address) => {
            ||| before.table_at(level, l, p) == Some(address)
            ||| before.table_at(level, l, p) is None && address % 0x1000 == 0 && is_taken_page(
                address as int,
                memory,
                left,
            )
        },
        None => true,
    } by {
        crate::stage2::lemma_index(p, n, level);
        assert(middle.is_place(level, l, p));
        if let Some(address) = after.table_at(level, l, p) {
            if p / s == i {
                assert(before.table_at(level, l, p) == middle.table_at(level, l, p));
                if middle.table_at(level, l, p) != Some(address) {
                    assert(is_taken_page(address as int, rest, left));
                    assert forall|x: int| address <= x < address + 0x1000 implies
                        #[trigger] memory.is_free(x) && !left.is_free(x) by {
                        assert(rest.is_free(x) && !left.is_free(x));
                    }
                }
            } else {
                assert(after.children@[p / s] == middle.children@[p / s]);
                assert(middle.table_at(level, l, p) == Some(address));
                if before.table_at(level, l, p) != Some(address) {
                    assert(is_taken_page(address as int, memory, rest));
                    assert forall|x: int| address <= x < address + 0x1000 implies
                        #[trigger] memory.is_free(x) && !left.is_free(x) by {
                        assert(memory.is_free(x) && !rest.is_free(x));
                        assert(left.is_free(x) ==> rest.is_free(x));
                    }
                }
            }
        }
    }
    assert forall|x: int| memory.is_free(x) && !#[trigger] left.is_free(x) implies exists|
        l: int,
        p: int,
    | #[trigger] is_of_new_table(before, after, level, l, p, x) by {
        if rest.is_free(x) {
            let (l, p) = choose|l: int, p: int| #[trigger]
                is_of_new_table(middle, after, level, l, p, x);
            crate::stage2::lemma_index(p, n, level);
            if p / s != i {
                assert(after.children@[p / s] == middle.children@[p / s]);
            }
            assert(is_of_new_table(before, after, level, l, p, x));
        } else {
            assert(memory.is_free(x) && !rest.is_free(x));
            let (l, p) = choose|l: int, p: int| #[trigger]
                is_of_new_table(before, middle, level, l, p, x);
            crate::stage2::lemma_index(p, n, level);
            assert(p / s != i);
            assert(after.children@[p / s] == middle.children@[p / s]);
            assert(is_of_new_table(before, after, level, l, p, x));
        }
    }
    assert forall|l: int, p: int|
        before.is_place(level, l, p) && (#[trigger] before.table_at(level, l, p)) is Some implies {
        ||| after.table_at(level, l, p) == before.table_at(level, l, p)
        ||| after.mapping(level, p) matches Some(leaf) && leaf.level < l
    } by {
        crate::stage2::lemma_index(p, n, level);
        assert(middle.is_place(level, l, p));
        if p / s == i {
            assert(middle.table_at(level, l, p) == before.table_at(level, l, p));
        } else {
            assert(after.children@[p / s] == middle.children@[p / s]);
            assert(after.descriptors@[p / s] == middle.descriptors@[p / s]);
            assert(after.mapping(level, p) == middle.mapping(level, p));
        }
    }
}

/// Where nothing is done, there is no new table.
pub proof fn lemma_none_new(table: Stage2Table, level: int, n: nat)
    ensures
        new_tables(Some(table), table, level, n) == 0,
    decreases 4 - level, n,
{
    if n > 0 && level < 3 {
        lemma_none_new(table, level, (n - 1) as nat);
        if let Some(child) = table.children@[n - 1] {
            lemma_none_new(*child, level + 1, child.children@.len());
        }
    }
}

/// Below a new table all the tables are new.
pub proof fn lemma_all_new(own: Stage2Table, grown: Stage2Table, level: int, n: nat)
    requires
        n <= own.children@.len(),
        forall|i: int| 0 <= i < own.children@.len() ==> #[trigger] own.children@[i] is None,
    ensures
        new_tables(Some(own), grown, level, n) == new_tables(None, grown, level, n),
    decreases n,
{
    if n > 0 && level < 3 {
        lemma_all_new(own, grown, level, (n - 1) as nat);
        assert(child_of(Some(own), n - 1) is None);
    }
}

/// The new tables below a descriptor that had not changed before are added to those below the others.
pub proof fn lemma_new_in_turn(
    before: Stage2Table,
    middle: Stage2Table,
    after: Stage2Table,
    level: int,
    i: int,
    n: nat,
)
    requires
        after.same_but(middle, i),
        n <= middle.children@.len(),
        middle.children@.len() == middle.descriptors@.len(),
        0 <= i < middle.children@.len(),
        middle.children@[i] == before.children@[i],
    ensures
        level < 3 ==> new_tables(Some(before), after, level, n) == new_tables(
            Some(before),
            middle,
            level,
            n,
        ) + if i < n {
            new_in_slot(child_of(Some(before), i), after.children@[i], level)
        } else {
            0
        },
    decreases n,
{
    if n > 0 && level < 3 {
        lemma_new_in_turn(before, middle, after, level, i, (n - 1) as nat);
        if n - 1 == i {
            if let Some(child) = middle.children@[i] {
                lemma_none_new(*child, level + 1, child.children@.len());
            }
        } else {
            assert(after.children@[n - 1] == middle.children@[n - 1]);
        }
    }
}

} // verus!
