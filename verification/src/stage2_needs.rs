//! Which tables a mapping needs, and how many.

use crate::stage2::{fits_block, hits, largest_fit, same_descriptor, span, Stage2Table};
use vstd::prelude::*;

verus! {

/// What a mapping is to bring about: the pages of `[from, end)` are mapped to `address` and on.
/// `aligned` tells whether the guest's address is that of a page.
pub struct Goal {
    pub from: int,
    pub end: int,
    pub address: int,
    pub aligned: bool,
}

/// A table of level `lower` is needed where page `p` is looked up: one of the pages that it covers is
/// to be mapped, and no block maps all of them.
pub open spec fn on_the_way(p: int, lower: int, goal: Goal) -> bool {
    &&& hits(p, lower - 1, goal.from, goal.end)
    &&& !(lower >= 2 && fits_block(
        p,
        lower - 1,
        goal.from,
        goal.end,
        goal.address,
        goal.aligned,
    ))
}

/// The places, by level and page, at which there is a table below this one.
pub open spec fn places_of(table: Stage2Table, level: int) -> Set<(int, int)> {
    Set::new(|x: (int, int)| table.table_at(level, x.0, x.1) is Some)
}

/// The places at which a mapping needs a table.
pub open spec fn ways_to(goal: Goal) -> Set<(int, int)> {
    Set::new(|x: (int, int)| on_the_way(x.1, x.0, goal))
}

/// The places at which there is a table below descriptor `i`, by the pages of the descriptor.
pub open spec fn slot_places(table: Stage2Table, level: int, i: int) -> Set<(int, int)> {
    Set::new(|x: (int, int)| table.table_at(level, x.0, i * span(level) + x.1) is Some)
}

/// How many tables a mapping needs below `n` descriptors of `level`, the first of which covers page
/// `first` and on, besides those that are there.
pub open spec fn places_needed(
    had: Set<(int, int)>,
    goal: Goal,
    level: int,
    first: int,
    n: nat,
) -> nat
    decreases 4 - level, n,
{
    if n == 0 || level >= 3 {
        0
    } else {
        let p = first + (n - 1) * span(level);
        places_needed(had, goal, level, first, (n - 1) as nat) + if on_the_way(p, level + 1, goal) {
            (if had.contains((level + 1, p)) {
                0nat
            } else {
                1
            }) + places_needed(had, goal, level + 1, p, 512)
        } else {
            0
        }
    }
}

/// How many tables a mapping needs below the descriptor of `level` that covers page `p` and on.
pub open spec fn slot_needed(had: Set<(int, int)>, goal: Goal, level: int, p: int) -> nat {
    if level < 3 && on_the_way(p, level + 1, goal) {
        (if had.contains((level + 1, p)) {
            0nat
        } else {
            1
        }) + places_needed(had, goal, level + 1, p, 512)
    } else {
        0
    }
}

/// Each new table below `after` is on the way to a page that was to be mapped, and that lies before
/// page `reach`.
#[verifier::opaque]
pub open spec fn is_lean(
    before: Stage2Table,
    after: Stage2Table,
    level: int,
    goal: Goal,
    reach: int,
) -> bool {
    forall|l: int, p: int|
        after.is_place(level, l, p) && (#[trigger] after.table_at(level, l, p)) is Some
            && before.table_at(level, l, p) is None ==> on_the_way(p, l, goal) && hits(
            p,
            l - 1,
            goal.from,
            reach,
        )
}

/// Each new table below descriptor `i` is on the way to a page that was to be mapped. The pages are
/// those of the descriptor.
#[verifier::opaque]
pub open spec fn is_lean_slot(
    before: Stage2Table,
    after: Stage2Table,
    level: int,
    i: int,
    goal: Goal,
    reach: int,
) -> bool {
    forall|l: int, q: int|
        level < l <= 3 && 0 <= q < span(level) && (#[trigger] slot_places(
            after,
            level,
            i,
        ).contains((l, q))) && !slot_places(before, level, i).contains((l, q)) ==> on_the_way(
            q,
            l,
            goal,
        ) && hits(q, l - 1, goal.from, reach)
}

/// A descriptor without new tables below it.
pub proof fn lemma_lean_without_tables(
    before: Stage2Table,
    after: Stage2Table,
    level: int,
    i: int,
    goal: Goal,
    reach: int,
)
    requires
        before.has_shape(level),
        after.has_shape(level),
        0 <= i < before.descriptors@.len(),
        after.descriptors@.len() == before.descriptors@.len(),
        after.children@[i] is None || after == before,
    ensures
        is_lean_slot(before, after, level, i, goal, reach),
{
    reveal(is_lean_slot);
    if after != before {
        assert forall|l: int, q: int| level < l <= 3 && 0 <= q < span(level) implies !(
        #[trigger] slot_places(after, level, i).contains((l, q))) by {
            crate::stage2_tables::lemma_slot(after, level, i, l, q);
        }
    }
}

/// The table `own` below descriptor `i`, an old one or a new one, has become `grown`.
pub proof fn lemma_lean_child(
    before: Stage2Table,
    after: Stage2Table,
    level: int,
    i: int,
    own: Stage2Table,
    grown: Stage2Table,
    goal: Goal,
    reach: int,
)
    requires
        0 <= level < 3,
        before.has_shape(level),
        after.has_shape(level),
        0 <= i < before.descriptors@.len(),
        after.descriptors@.len() == before.descriptors@.len(),
        after.children@[i] matches Some(child) && *child == grown,
        own.has_shape(level + 1),
        own.descriptors@.len() == 512,
        grown.descriptors@.len() == 512,
        match before.children@[i] {
            Some(child) => *child == own,
            None => forall|j: int|
                0 <= j < own.children@.len() ==> #[trigger] own.children@[j] is None,
        },
        on_the_way(0, level + 1, goal),
        0 <= goal.from < reach,
        goal.from < span(level),
        is_lean(own, grown, level + 1, goal, reach),
    ensures
        is_lean_slot(before, after, level, i, goal, reach),
        slot_needed(slot_places(before, level, i), goal, level, 0) == (
        if before.children@[i] is None {
            1nat
        } else {
            0
        }) + places_needed(places_of(own, level + 1), goal, level + 1, 0, 512),
{
    let s = span(level);
    let had = slot_places(before, level, i);
    let below = places_of(own, level + 1);
    assert(s == 512 * span(level + 1));
    assert(own.pages(level + 1) == s && grown.pages(level + 1) == s);
    if before.children@[i] is None {
        crate::stage2_tables::lemma_childless(own, level + 1);
    }
    reveal(is_lean);
    reveal(is_lean_slot);
    assert forall|l: int, q: int|
        level < l <= 3 && 0 <= q < s && (#[trigger] slot_places(after, level, i).contains((l, q)))
            && !had.contains((l, q)) implies on_the_way(q, l, goal) && hits(
        q,
        l - 1,
        goal.from,
        reach,
    ) by {
        crate::stage2_tables::lemma_slot(after, level, i, l, q);
        crate::stage2_tables::lemma_slot(before, level, i, l, q);
        if l == level + 1 {
            crate::stage2::lemma_span(q, level);
            crate::stage2::lemma_span(0, level);
        } else {
            assert(grown.is_place(level + 1, l, q));
            assert(grown.table_at(level + 1, l, q) is Some);
            assert(own.table_at(level + 1, l, q) is None);
        }
    }
    assert forall|l: int, q: int| level + 1 < l <= 3 && 0 <= q < s implies #[trigger] had.contains(
        (l, q),
    ) == below.contains((l, q + 0)) by {
        crate::stage2_tables::lemma_slot(before, level, i, l, q);
    }
    lemma_needed_agree(had, goal, below, goal, level + 1, 0, 0, 512);
    crate::stage2_tables::lemma_slot(before, level, i, level + 1, 0);
}

/// Where nothing is done, no table is needless.
pub proof fn lemma_lean_at_first(table: Stage2Table, level: int, goal: Goal, reach: int)
    ensures
        is_lean(table, table, level, goal, reach),
{
    reveal(is_lean);
}

/// What is lean stays lean through one descriptor more.
pub proof fn lemma_lean_step(
    before: Stage2Table,
    middle: Stage2Table,
    after: Stage2Table,
    level: int,
    i: int,
    pos: int,
    goal: Goal,
    reach: int,
)
    requires
        before.has_shape(level),
        middle.has_shape(level),
        after.has_shape(level),
        0 <= i < before.descriptors@.len(),
        middle.descriptors@.len() == before.descriptors@.len(),
        middle.children@[i] == before.children@[i],
        after.same_but(middle, i),
        0 <= goal.from <= pos < goal.end,
        pos - pos % span(level) == i * span(level),
        pos == goal.from || pos % span(level) == 0,
        pos <= reach,
        is_lean(before, middle, level, goal, pos),
        is_lean_slot(
            middle,
            after,
            level,
            i,
            slot_goal(goal, level, i, pos),
            pos % span(level) + (reach - pos),
        ),
    ensures
        is_lean(before, after, level, goal, reach),
{
    let s = span(level);
    reveal(is_lean);
    reveal(is_lean_slot);
    assert forall|l: int, p: int|
        after.is_place(level, l, p) && (#[trigger] after.table_at(level, l, p)) is Some
            && before.table_at(level, l, p) is None implies on_the_way(p, l, goal) && hits(
        p,
        l - 1,
        goal.from,
        reach,
    ) by {
        crate::stage2::lemma_index(p, before.descriptors@.len() as int, level);
        let j = p / s;
        let q = p % s;
        if j == i {
            assert(middle.table_at(level, l, p) == before.table_at(level, l, p));
            assert(i * s + q == p);
            assert(slot_places(after, level, i).contains((l, q)));
            assert(!slot_places(middle, level, i).contains((l, q)));
            lemma_way_shift(q, l, level, i, pos, goal);
            crate::stage2::lemma_region(p, level, l - 1);
        } else {
            assert(after.children@[j] == middle.children@[j]);
            assert(middle.is_place(level, l, p));
            assert(middle.table_at(level, l, p) is Some);
        }
    }
}

/// Where the same tables are there and the same are needed, as many are needed.
pub proof fn lemma_needed_agree(
    a: Set<(int, int)>,
    goal_a: Goal,
    b: Set<(int, int)>,
    goal_b: Goal,
    level: int,
    first: int,
    shift: int,
    n: nat,
)
    requires
        0 <= level <= 3,
        forall|l: int, q: int|
            level < l <= 3 && first <= q < first + n * span(level) ==> #[trigger] a.contains(
                (l, q),
            ) == b.contains((l, q + shift)),
        forall|l: int, q: int|
            level < l <= 3 && first <= q < first + n * span(level) ==> #[trigger] on_the_way(
                q,
                l,
                goal_a,
            ) == on_the_way(q + shift, l, goal_b),
    ensures
        places_needed(a, goal_a, level, first, n) == places_needed(
            b,
            goal_b,
            level,
            first + shift,
            n,
        ),
    decreases 4 - level, n,
{
    if n > 0 && level < 3 {
        let s = span(level);
        let p = first + (n - 1) * s;
        assert(n * s == (n - 1) * s + s) by (nonlinear_arith);
        assert(0 <= (n - 1) * s) by (nonlinear_arith)
            requires
                n >= 1,
                s >= 1,
        ;
        assert(s == 512 * span(level + 1));
        lemma_needed_agree(a, goal_a, b, goal_b, level, first, shift, (n - 1) as nat);
        lemma_needed_agree(a, goal_a, b, goal_b, level + 1, p, shift, 512);
        assert(a.contains((level + 1, p)) == b.contains((level + 1, p + shift)));
        assert(on_the_way(p, level + 1, goal_a) == on_the_way(p + shift, level + 1, goal_b));
        assert(first + shift + (n - 1) * s == p + shift);
    }
}

/// No table is needed below descriptors that end before the goal.
pub proof fn lemma_none_before(had: Set<(int, int)>, goal: Goal, level: int, n: nat)
    requires
        0 <= level <= 3,
        n * span(level) <= goal.from,
    ensures
        places_needed(had, goal, level, 0, n) == 0,
    decreases n,
{
    if n > 0 && level < 3 {
        let s = span(level);
        let p = (n - 1) * s;
        assert(n * s == (n - 1) * s + s) by (nonlinear_arith);
        vstd::arithmetic::div_mod::lemma_mod_multiples_basic(n - 1, s);
        lemma_none_before(had, goal, level, (n - 1) as nat);
    }
}

/// No table is needed below descriptors that start behind the goal.
pub proof fn lemma_none_behind(had: Set<(int, int)>, goal: Goal, level: int, m: nat, n: nat)
    requires
        0 <= level <= 3,
        goal.end <= m * span(level),
        m <= n,
    ensures
        places_needed(had, goal, level, 0, n) == places_needed(had, goal, level, 0, m),
    decreases n,
{
    if n > m && level < 3 {
        let s = span(level);
        assert(m * s <= (n - 1) * s) by (nonlinear_arith)
            requires
                m <= n - 1,
                s >= 1,
        ;
        vstd::arithmetic::div_mod::lemma_mod_multiples_basic(n - 1, s);
        lemma_none_behind(had, goal, level, m, (n - 1) as nat);
    }
}

/// Below more descriptors no fewer tables are needed.
pub proof fn lemma_needed_grows(had: Set<(int, int)>, goal: Goal, level: int, m: nat, n: nat)
    requires
        m <= n,
    ensures
        places_needed(had, goal, level, 0, m) <= places_needed(had, goal, level, 0, n),
    decreases n,
{
    if n > m {
        lemma_needed_grows(had, goal, level, m, (n - 1) as nat);
    }
}

/// Whether a table is needed does not depend on whether the pages are counted in the table or in one
/// of its descriptors, nor on what was mapped before this descriptor.
pub proof fn lemma_way_shift(
    q: int,
    l: int,
    level: int,
    i: int,
    pos: int,
    goal: Goal,
)
    requires
        0 <= level < l <= 3,
        0 <= q < span(level),
        0 <= i,
        0 <= goal.from <= pos < goal.end,
        pos - pos % span(level) == i * span(level),
        pos == goal.from || pos % span(level) == 0,
    ensures
        on_the_way(q, l, slot_goal(goal, level, i, pos)) == on_the_way(
            i * span(level) + q,
            l,
            goal,
        ),
        hits(q, l - 1, pos % span(level), pos % span(level) + 1) ==> hits(
            i * span(level) + q,
            l - 1,
            goal.from,
            pos + 1,
        ),
{
    let s = span(level);
    let p = i * s + q;
    assert(0 <= p) by (nonlinear_arith)
        requires
            p == i * s + q,
            0 <= i,
            0 <= q,
            s >= 1,
    ;
    vstd::arithmetic::div_mod::lemma_fundamental_div_mod_converse(p, s, i, q);
    crate::stage2::lemma_region(p, level, l - 1);
    crate::stage2::lemma_fit_shift(
        p,
        pos,
        goal.from,
        goal.end - pos,
        goal.address,
        goal.aligned,
        level,
        l - 1,
    );
}

/// The goal as it stands at page `pos` of descriptor `i`, by the pages of the descriptor.
pub open spec fn slot_goal(goal: Goal, level: int, i: int, pos: int) -> Goal {
    Goal {
        from: pos % span(level),
        end: pos % span(level) + (goal.end - pos),
        address: goal.address + (pos - goal.from) * 0x1000,
        aligned: goal.aligned,
    }
}

/// As many tables are needed below a descriptor, however its pages are counted.
pub proof fn lemma_slot_needed(
    before: Stage2Table,
    middle: Stage2Table,
    level: int,
    i: int,
    pos: int,
    goal: Goal,
)
    requires
        before.has_shape(level),
        middle.has_shape(level),
        0 <= i < before.descriptors@.len(),
        middle.descriptors@.len() == before.descriptors@.len(),
        middle.children@[i] == before.children@[i],
        0 <= goal.from <= pos < goal.end,
        pos - pos % span(level) == i * span(level),
        pos == goal.from || pos % span(level) == 0,
    ensures
        slot_needed(
            slot_places(middle, level, i),
            slot_goal(goal, level, i, pos),
            level,
            0,
        ) == slot_needed(places_of(before, level), goal, level, i * span(level)),
{
    let s = span(level);
    let first = i * s;
    let had = places_of(before, level);
    let own = slot_places(middle, level, i);
    let here = slot_goal(goal, level, i, pos);
    if level < 3 {
        assert(s == 512 * span(level + 1));
        assert forall|l: int, q: int| level < l <= 3 && 0 <= q < s implies #[trigger] own.contains(
            (l, q),
        ) == had.contains((l, q + first)) by {
            crate::stage2_tables::lemma_slot(before, level, i, l, q);
            crate::stage2_tables::lemma_slot(middle, level, i, l, q);
            assert(middle.table_at(level, l, first + q) == before.table_at(level, l, first + q));
            assert(q + first == first + q);
        }
        assert forall|l: int, q: int| level < l <= 3 && 0 <= q < s implies #[trigger] on_the_way(
            q,
            l,
            here,
        ) == on_the_way(q + first, l, goal) by {
            lemma_way_shift(q, l, level, i, pos, goal);
            assert(q + first == first + q);
        }
        assert(own.contains((level + 1, 0)) == had.contains((level + 1, 0 + first)));
        assert(on_the_way(0, level + 1, here) == on_the_way(0 + first, level + 1, goal));
        lemma_needed_agree(own, here, had, goal, level + 1, 0, first, 512);
    }
}

/// A mapping by a descriptor of a lower level goes over tables of all the levels in between.
proof fn lemma_mapping_has_tables(table: Stage2Table, level: int, l: int, p: int)
    requires
        table.has_shape(level),
        0 <= p < table.pages(level),
        level < l <= 3,
        table.mapping(level, p) matches Some(leaf) && l <= leaf.level,
    ensures
        table.table_at(level, l, p) is Some,
    decreases 4 - level,
{
    crate::stage2::lemma_index(p, table.descriptors@.len() as int, level);
    if let Some(child) = table.children@[p / span(level)] {
        if l > level + 1 {
            lemma_mapping_has_tables(*child, level + 1, l, p % span(level));
        }
    }
}

/// All the pages below one descriptor are looked up in the same table.
proof fn lemma_same_table(table: Stage2Table, level: int, l: int, p: int, r: int)
    requires
        table.has_shape(level),
        0 <= p < table.pages(level),
        0 <= r < table.pages(level),
        level < l <= 3,
        same_descriptor(p, r, l - 1),
    ensures
        table.table_at(level, l, p) == table.table_at(level, l, r),
    decreases 4 - level,
{
    let s = span(level);
    crate::stage2::lemma_index(p, table.descriptors@.len() as int, level);
    crate::stage2::lemma_index(r, table.descriptors@.len() as int, level);
    crate::stage2::lemma_region(p, level, l - 1);
    crate::stage2::lemma_region(r, level, l - 1);
    crate::stage2::lemma_separate(p, r, level);
    assert(p / s == r / s);
    if let Some(child) = table.children@[p / s] {
        if l > level + 1 {
            lemma_same_table(*child, level + 1, l, p % s, r % s);
        }
    }
}

/// A page is mapped below every table that is on the way to it.
proof fn lemma_level_on_the_way(p: int, r: int, l: int, goal: Goal, top: int)
    requires
        0 <= top < l <= 3,
        0 <= p,
        0 <= r,
        same_descriptor(p, r, l - 1),
        on_the_way(p, l, goal),
    ensures
        l <= largest_fit(r, goal.from, goal.end, goal.address, goal.aligned, top),
{
    let g = goal;
    if l == 3 {
        assert(!fits_block(r, 2, g.from, g.end, g.address, g.aligned));
        if fits_block(r, 1, g.from, g.end, g.address, g.aligned) {
            let a = r - r % 0x4_0000;
            let b = r - r % 0x200;
            crate::stage2::lemma_region(r, 1, 2);
            let k = r / 0x200 - 0x200 * (r / 0x4_0000);
            let u = g.address + (a - g.from) * 0x1000;
            assert(span(1) * 0x1000 == 0x4000_0000 && span(2) * 0x1000 == 0x20_0000);
            assert(u % 0x4000_0000 == 0);
            assert(b - a == k * 0x200);
            assert(g.address + (b - g.from) * 0x1000 == u + k * 0x20_0000);
            assert((u + k * 0x20_0000) % 0x20_0000 == 0);
        }
    } else if l == 2 {
        assert(!fits_block(r, 1, g.from, g.end, g.address, g.aligned));
    }
}

/// A complete mapping leaves tables where there were tables, and where it needed them. Where it starts
/// from no tables, these are the tables.
pub proof fn lemma_tables_of_mapping(
    before: Stage2Table,
    after: Stage2Table,
    level: int,
    goal: Goal,
    reach: int,
)
    requires
        before.has_shape(level),
        after.has_shape(level),
        after.descriptors@.len() == before.descriptors@.len(),
        forall|i: int| 0 <= i < before.children@.len() ==> #[trigger] before.children@[i] is None,
        is_lean(before, after, level, goal, reach),
        0 <= goal.from,
        forall|r: int|
            goal.from <= r < goal.end && r < before.pages(level) ==> (#[trigger] after.mapping(
                level,
                r,
            ) matches Some(leaf) && leaf.level == largest_fit(
                r,
                goal.from,
                goal.end,
                goal.address,
                goal.aligned,
                level,
            )),
    ensures
        forall|l: int, p: int|
            after.is_place(level, l, p) ==> #[trigger] places_of(after, level).contains((l, p))
                == ways_to(goal).contains((l, p)),
{
    reveal(is_lean);
    crate::stage2_tables::lemma_childless(before, level);
    assert forall|l: int, p: int| after.is_place(level, l, p) implies #[trigger] places_of(
        after,
        level,
    ).contains((l, p)) == ways_to(goal).contains((l, p)) by {
        if after.table_at(level, l, p) is Some {
            assert(before.table_at(level, l, p) is None);
        } else if on_the_way(p, l, goal) {
            let s = span(l - 1);
            let first = p - p % s;
            let r = if first < goal.from {
                goal.from
            } else {
                first
            };
            vstd::arithmetic::div_mod::lemma_mod_bound(p, s);
            vstd::arithmetic::div_mod::lemma_fundamental_div_mod(p, s);
            vstd::arithmetic::mul::lemma_mul_is_commutative(s, p / s);
            vstd::arithmetic::div_mod::lemma_fundamental_div_mod_converse(
                r,
                s,
                p / s,
                r - first,
            );
            assert(same_descriptor(p, r, l - 1));
            crate::stage2::lemma_index(p, after.descriptors@.len() as int, level);
            crate::stage2::lemma_region(p, level, l - 1);
            lemma_inside(p, r, after.descriptors@.len() as int, level, l - 1);
            lemma_level_on_the_way(p, r, l, goal, level);
            lemma_mapping_has_tables(after, level, l, r);
            lemma_same_table(after, level, l, p, r);
        }
    }
}

/// What one descriptor of a lower level covers is inside the table.
proof fn lemma_inside(p: int, r: int, n: int, level: int, lower: int)
    requires
        0 <= level <= lower <= 3,
        0 <= p < n * span(level),
        0 <= r,
        same_descriptor(p, r, lower),
    ensures
        r < n * span(level),
{
    let s = span(level);
    crate::stage2::lemma_index(p, n, level);
    crate::stage2::lemma_region(p, level, lower);
    crate::stage2::lemma_separate(r, r, lower);
    assert((p / s) * s + s <= n * s) by (nonlinear_arith)
        requires
            p / s < n,
            s >= 1,
    ;
}

/// How many descriptors of this level there are before page `p` that cover a page of the goal. The page
/// is the first one of its descriptor.
pub open spec fn descriptors_before(goal: Goal, level: int, p: int) -> int {
    let first = goal.from / span(level);
    let end = (goal.end + span(level) - 1) / span(level);
    let i = p / span(level);
    if i < first {
        0
    } else if i > end {
        end - first
    } else {
        i - first
    }
}

/// The same, for this level and each lower one that has tables below it.
pub open spec fn ways_before(goal: Goal, level: int, p: int) -> int
    decreases 3 - level,
{
    if level >= 3 {
        0
    } else {
        descriptors_before(goal, level, p) + ways_before(goal, level + 1, p)
    }
}

/// A mapping needs at most one table below each descriptor that covers one of its pages.
pub proof fn tables_needed_are_bounded(
    had: Set<(int, int)>,
    goal: Goal,
    level: int,
    first: int,
    n: nat,
)
    requires
        0 <= level <= 3,
        0 <= goal.from < goal.end,
        0 <= first,
        first % span(level) == 0,
    ensures
        places_needed(had, goal, level, first, n) <= ways_before(
            goal,
            level,
            first + n * span(level),
        ) - ways_before(goal, level, first),
    decreases 4 - level, n,
{
    if level < 3 {
        if n > 0 {
            let s = span(level);
            let p = first + (n - 1) * s;
            assert(n * s == (n - 1) * s + s && 0 <= (n - 1) * s) by (nonlinear_arith)
                requires
                    n >= 1,
                    s >= 1,
            ;
            vstd::arithmetic::div_mod::lemma_mod_multiples_vanish(n - 1, first, s);
            vstd::arithmetic::mul::lemma_mul_is_commutative(n - 1, s);
            assert(s == 512 * span(level + 1));
            assert(p % span(level + 1) == 0) by {
                if level == 0 {
                    assert(p % 0x4_0000 == 0);
                } else if level == 1 {
                    assert(p % 0x200 == 0);
                }
            }
            tables_needed_are_bounded(had, goal, level, first, (n - 1) as nat);
            tables_needed_are_bounded(had, goal, level + 1, p, 512);
            lemma_one_descriptor(goal, level, p);
            reveal_with_fuel(ways_before, 2);
            if !on_the_way(p, level + 1, goal) {
                lemma_ways_grow(goal, level + 1, p, p + s);
            }
        }
    }
}

/// One descriptor more counts where it covers a page of the goal.
proof fn lemma_one_descriptor(goal: Goal, level: int, p: int)
    requires
        0 <= level < 3,
        0 <= goal.from < goal.end,
        0 <= p,
        p % span(level) == 0,
    ensures
        descriptors_before(goal, level, p + span(level)) - descriptors_before(goal, level, p) >= (
        if hits(p, level, goal.from, goal.end) {
            1int
        } else {
            0
        }),
{
    if level == 0 {
        assert((p + 0x800_0000) / 0x800_0000 == p / 0x800_0000 + 1);
    } else if level == 1 {
        assert((p + 0x4_0000) / 0x4_0000 == p / 0x4_0000 + 1);
    } else {
        assert((p + 0x200) / 0x200 == p / 0x200 + 1);
    }
}

/// Before a later page there are no fewer descriptors.
proof fn lemma_ways_grow(goal: Goal, level: int, p: int, q: int)
    requires
        0 <= level <= 3,
        0 <= goal.from < goal.end,
        p <= q,
    ensures
        ways_before(goal, level, p) <= ways_before(goal, level, q),
    decreases 3 - level,
{
    if level < 3 {
        vstd::arithmetic::div_mod::lemma_div_is_ordered(p, q, span(level));
        vstd::arithmetic::div_mod::lemma_div_is_ordered(
            goal.from,
            goal.end + span(level) - 1,
            span(level),
        );
        lemma_ways_grow(goal, level + 1, p, q);
    }
}

/// A table that is there is not needed: with no tables there, the most are needed.
pub proof fn tables_at_hand_are_saved(
    had: Set<(int, int)>,
    goal: Goal,
    level: int,
    first: int,
    n: nat,
)
    ensures
        places_needed(had, goal, level, first, n) <= places_needed(
            Set::empty(),
            goal,
            level,
            first,
            n,
        ),
    decreases 4 - level, n,
{
    if n > 0 && level < 3 {
        tables_at_hand_are_saved(had, goal, level, first, (n - 1) as nat);
        tables_at_hand_are_saved(
            had,
            goal,
            level + 1,
            first + (n - 1) * span(level),
            512,
        );
    }
}

} // verus!
