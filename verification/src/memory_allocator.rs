//! Memory allocator.
//!
//! Free memory is kept as a pool of entries, one for each free range. Every entry is in two
//! doubly linked lists: the chain of all entries by ascending address, and one of the free
//! lists, which hold the entries of one page order by ascending size.

use crate::free_memory::{FreeEffect, FreeMemory, Range};
use vstd::prelude::*;

verus! {

/// One free range of memory.
#[derive(Clone, Copy)]
pub struct MemoryEntry {
    pub previous: Option<u32>,
    pub next: Option<u32>,
    pub list_prev: Option<u32>,
    pub list_next: Option<u32>,
    pub start: usize,
    pub end: usize,
    pub enabled: bool,
    pub id: u32,
}

pub type MemoryEntryPool = [MemoryEntry; 64];

#[derive(Clone, Copy, PartialEq, Eq, Debug, Structural)]
pub enum MemoryError {
    NoEntry,
    InvalidEntry,
    NoMemory,
    InvalidRequest,
}

pub struct MemoryAllocator {
    pub free_size: usize,
    pub first_entry: Option<u32>,
    pub free_list: [Option<u32>; 12],
    pub memory_entry_pool: MemoryEntryPool,
    /// The entries by ascending address.
    pub chain: Ghost<Seq<u32>>,
    /// The entries by ascending size: the free lists, one after the other.
    pub sized: Ghost<Seq<u32>>,
}

/// The free list that holds the ranges of `size` bytes: the least order whose block of
/// `2^order` pages is not smaller, or the last list.
#[verifier::opaque]
pub open spec fn page_order(size: int) -> int {
    if size <= 0x1000 {
        0
    } else if size <= 0x2000 {
        1
    } else if size <= 0x4000 {
        2
    } else if size <= 0x8000 {
        3
    } else if size <= 0x1_0000 {
        4
    } else if size <= 0x2_0000 {
        5
    } else if size <= 0x4_0000 {
        6
    } else if size <= 0x8_0000 {
        7
    } else if size <= 0x10_0000 {
        8
    } else if size <= 0x20_0000 {
        9
    } else if size <= 0x40_0000 {
        10
    } else {
        11
    }
}

/// The id at index `i`, where there is one.
pub open spec fn at(ids: Seq<u32>, i: int) -> Option<u32> {
    if 0 <= i < ids.len() {
        Some(ids[i])
    } else {
        None
    }
}

/// Ids of pool entries, each at most once.
pub open spec fn distinct(ids: Seq<u32>) -> bool {
    &&& forall|i: int| 0 <= i < ids.len() ==> #[trigger] ids[i] < 64
    &&& forall|i: int, j: int| 0 <= i < j < ids.len() ==> #[trigger] ids[i] != #[trigger] ids[j]
}

/// The `previous` and `next` links of the entries in `chain` spell out `chain`.
pub open spec fn chain_ok(
    pool: Seq<MemoryEntry>,
    first: Option<u32>,
    chain: Seq<u32>,
) -> bool {
    &&& pool.len() == 64
    &&& distinct(chain)
    &&& first == at(chain, 0)
    &&& forall|i: int|
        0 <= i < chain.len() ==> (#[trigger] pool[chain[i] as int]).next == at(chain, i + 1)
    &&& forall|i: int|
        0 <= i < chain.len() ==> (#[trigger] pool[chain[i] as int]).previous == at(chain, i - 1)
}

/// The entry at index `j`, where it is in the same free list as the one at index `i`.
pub open spec fn peer(sized: Seq<u32>, sizes: Seq<int>, i: int, j: int) -> Option<u32> {
    if 0 <= j < sized.len() && page_order(sizes[sized[j] as int]) == page_order(
        sizes[sized[i] as int],
    ) {
        Some(sized[j])
    } else {
        None
    }
}

/// The first index from `from` on whose entry belongs to free list `order` or a later one.
pub open spec fn list_start_from(
    sized: Seq<u32>,
    sizes: Seq<int>,
    order: int,
    from: int,
) -> int
    decreases sized.len() - from,
{
    if from < 0 || from >= sized.len() || page_order(sizes[sized[from] as int]) >= order {
        from
    } else {
        list_start_from(sized, sizes, order, from + 1)
    }
}

/// The head of free list `order`.
pub open spec fn list_head(sized: Seq<u32>, sizes: Seq<int>, order: int) -> Option<u32> {
    let i = list_start_from(sized, sizes, order, 0);
    if i < sized.len() && page_order(sizes[sized[i] as int]) == order {
        Some(sized[i])
    } else {
        None
    }
}

/// The free lists, one after the other, spell out `sized`, which ascends by size. The size of
/// entry `id` is `sizes[id]`.
#[verifier::opaque]
pub open spec fn lists_ok(
    pool: Seq<MemoryEntry>,
    heads: Seq<Option<u32>>,
    sized: Seq<u32>,
    sizes: Seq<int>,
) -> bool {
    &&& pool.len() == 64
    &&& heads.len() == 12
    &&& sizes.len() == 64
    &&& distinct(sized)
    &&& forall|i: int, j: int|
        0 <= i < j < sized.len() ==> sizes[#[trigger] sized[i] as int]
            <= sizes[#[trigger] sized[j] as int]
    &&& forall|i: int|
        0 <= i < sized.len() ==> (#[trigger] pool[sized[i] as int]).list_next == peer(
            sized,
            sizes,
            i,
            i + 1,
        )
    &&& forall|i: int|
        0 <= i < sized.len() ==> (#[trigger] pool[sized[i] as int]).list_prev == peer(
            sized,
            sizes,
            i,
            i - 1,
        )
    &&& forall|order: int|
        0 <= order < 12 ==> #[trigger] heads[order] == list_head(sized, sizes, order)
}

pub open spec fn range_of(entry: MemoryEntry) -> Range {
    Range { start: entry.start as int, end: entry.end as int }
}

pub open spec fn ranges_of(pool: Seq<MemoryEntry>, ids: Seq<u32>) -> Seq<Range> {
    Seq::new(ids.len(), |i: int| range_of(pool[ids[i] as int]))
}

pub open spec fn sizes_of(pool: Seq<MemoryEntry>) -> Seq<int> {
    Seq::new(pool.len(), |i: int| range_of(pool[i]).size())
}

/// Nothing but the free-list links differs.
pub open spec fn same_but_lists(a: Seq<MemoryEntry>, b: Seq<MemoryEntry>) -> bool {
    &&& a.len() == b.len()
    &&& forall|i: int|
        0 <= i < a.len() ==> #[trigger] a[i] == (MemoryEntry {
            list_prev: a[i].list_prev,
            list_next: a[i].list_next,
            ..b[i]
        })
}

/// The pool once entry `id` has left its free list.
pub open spec fn unchained(pool: Seq<MemoryEntry>, id: int) -> Seq<MemoryEntry> {
    let entry = pool[id];
    let left = match entry.list_prev {
        Some(p) => if p < 64 {
            pool.update(p as int, MemoryEntry { list_next: entry.list_next, ..pool[p as int] })
        } else {
            pool
        },
        None => pool,
    };
    let right = match entry.list_next {
        Some(n) => if n < 64 {
            left.update(n as int, MemoryEntry { list_prev: entry.list_prev, ..left[n as int] })
        } else {
            left
        },
        None => left,
    };
    right.update(id, MemoryEntry { list_prev: None, list_next: None, ..right[id] })
}

/// The start of a free list is the boundary between the orders below it and the others.
proof fn lemma_list_start(sized: Seq<u32>, sizes: Seq<int>, order: int, from: int)
    requires
        0 <= from <= sized.len(),
    ensures
        from <= list_start_from(sized, sizes, order, from) <= sized.len(),
        forall|i: int|
            from <= i < list_start_from(sized, sizes, order, from) ==> page_order(
                sizes[#[trigger] sized[i] as int],
            ) < order,
        list_start_from(sized, sizes, order, from) < sized.len() ==> page_order(
            sizes[sized[list_start_from(sized, sizes, order, from)] as int],
        ) >= order,
    decreases sized.len() - from,
{
    if from < sized.len() && page_order(sizes[sized[from] as int]) < order {
        lemma_list_start(sized, sizes, order, from + 1);
    }
}

/// Where the sizes ascend, a boundary between the orders is the start of the list.
proof fn lemma_list_start_is(sized: Seq<u32>, sizes: Seq<int>, order: int, b: int)
    requires
        0 <= b <= sized.len(),
        forall|i: int| 0 <= i < b ==> page_order(sizes[#[trigger] sized[i] as int]) < order,
        b < sized.len() ==> page_order(sizes[sized[b] as int]) >= order,
    ensures
        list_start_from(sized, sizes, order, 0) == b,
{
    lemma_list_start(sized, sizes, order, 0);
    let s = list_start_from(sized, sizes, order, 0);
    if s < b {
        assert(page_order(sizes[sized[s] as int]) < order);
    }
    if b < s {
        assert(page_order(sizes[sized[b] as int]) < order);
    }
}

/// A larger size has no smaller order.
proof fn lemma_page_order(a: int, b: int)
    ensures
        0 <= page_order(a) < 12,
        a <= b ==> page_order(a) <= page_order(b),
{
    reveal(page_order);
}

/// The free lists stand one after the other.
proof fn lemma_orders_ascend(sized: Seq<u32>, sizes: Seq<int>)
    requires
        forall|i: int, j: int|
            0 <= i < j < sized.len() ==> sizes[#[trigger] sized[i] as int]
                <= sizes[#[trigger] sized[j] as int],
    ensures
        forall|i: int, j: int|
            0 <= i <= j < sized.len() ==> page_order(sizes[#[trigger] sized[i] as int])
                <= page_order(sizes[#[trigger] sized[j] as int]),
{
    assert forall|i: int, j: int| 0 <= i <= j < sized.len() implies page_order(
        sizes[#[trigger] sized[i] as int],
    ) <= page_order(sizes[#[trigger] sized[j] as int]) by {
        lemma_page_order(sizes[sized[i] as int], sizes[sized[j] as int]);
    }
}

/// The heads of the free lists once the entry at index `k` is gone.
proof fn lemma_head_remove(sized: Seq<u32>, sizes: Seq<int>, k: int, order: int)
    requires
        distinct(sized),
        0 <= k < sized.len(),
        forall|i: int, j: int|
            0 <= i <= j < sized.len() ==> page_order(sizes[#[trigger] sized[i] as int])
                <= page_order(sizes[#[trigger] sized[j] as int]),
    ensures
        list_head(sized.remove(k), sizes, order) == if list_head(sized, sizes, order) == Some(
            sized[k],
        ) {
            peer(sized, sizes, k, k + 1)
        } else {
            list_head(sized, sizes, order)
        },
{
    let rest = sized.remove(k);
    let b = list_start_from(sized, sizes, order, 0);
    lemma_list_start(sized, sizes, order, 0);
    let own = page_order(sizes[sized[k] as int]);
    let c = if own < order {
        b - 1
    } else {
        b
    };
    if own < order {
        assert(k < b);
    } else {
        assert(b <= k);
    }
    assert forall|i: int| 0 <= i < c implies page_order(sizes[#[trigger] rest[i] as int])
        < order by {
        assert(rest[i] == sized[if i < k {
            i
        } else {
            i + 1
        }]);
    }
    if c < rest.len() {
        let p = if c < k {
            c
        } else {
            c + 1
        };
        assert(rest[c] == sized[p]);
    }
    lemma_list_start_is(rest, sizes, order, c);
}

/// The links of the entry at index `i`, once the entry at index `k` is gone.
proof fn lemma_remove_links(
    pool: Seq<MemoryEntry>,
    sized: Seq<u32>,
    sizes: Seq<int>,
    k: int,
    i: int,
)
    requires
        pool.len() == 64,
        distinct(sized),
        0 <= k < sized.len(),
        0 <= i < sized.len() - 1,
        0 < k < sized.len() - 1 && page_order(sizes[sized[k - 1] as int]) == page_order(
            sizes[sized[k + 1] as int],
        ) ==> page_order(sizes[sized[k] as int]) == page_order(sizes[sized[k + 1] as int]),
        pool[sized[k] as int].list_next == peer(sized, sizes, k, k + 1),
        pool[sized[k] as int].list_prev == peer(sized, sizes, k, k - 1),
        i < k ==> pool[sized[i] as int].list_next == peer(sized, sizes, i, i + 1),
        i < k ==> pool[sized[i] as int].list_prev == peer(sized, sizes, i, i - 1),
        i >= k ==> pool[sized[i + 1] as int].list_next == peer(sized, sizes, i + 1, i + 2),
        i >= k ==> pool[sized[i + 1] as int].list_prev == peer(sized, sizes, i + 1, i),
    ensures
        ({
            let rest = sized.remove(k);
            let new_pool = unchained(pool, sized[k] as int);
            &&& new_pool[rest[i] as int].list_next == peer(rest, sizes, i, i + 1)
            &&& new_pool[rest[i] as int].list_prev == peer(rest, sizes, i, i - 1)
        }),
{
    let rest = sized.remove(k);
    assert(rest[i] == sized[if i < k {
        i
    } else {
        i + 1
    }]);
    if k > 0 {
        assert(rest[k - 1] == sized[k - 1]);
    }
    if k < rest.len() {
        assert(rest[k] == sized[k + 1]);
    }
}

/// Taking the entry at index `k` out of its free list.
proof fn lemma_list_remove(
    pool: Seq<MemoryEntry>,
    heads: Seq<Option<u32>>,
    sized: Seq<u32>,
    sizes: Seq<int>,
    k: int,
    new_heads: Seq<Option<u32>>,
)
    requires
        lists_ok(pool, heads, sized, sizes),
        0 <= k < sized.len(),
        ({
            let order = page_order(sizes[sized[k] as int]);
            new_heads == if heads[order] == Some(sized[k]) {
                heads.update(order, pool[sized[k] as int].list_next)
            } else {
                heads
            }
        }),
    ensures
        lists_ok(unchained(pool, sized[k] as int), new_heads, sized.remove(k), sizes),
        same_but_lists(unchained(pool, sized[k] as int), pool),
{
    reveal(lists_ok);
    let id = sized[k];
    let new_pool = unchained(pool, id as int);
    let rest = sized.remove(k);
    let order = page_order(sizes[id as int]);
    lemma_page_order(sizes[id as int], 0);
    if 0 < k < sized.len() - 1 {
        assert(sizes[sized[k - 1] as int] <= sizes[sized[k] as int]);
        assert(sizes[sized[k] as int] <= sizes[sized[k + 1] as int]);
        lemma_page_order(sizes[sized[k - 1] as int], sizes[sized[k] as int]);
        lemma_page_order(sizes[sized[k] as int], sizes[sized[k + 1] as int]);
    }
    assert forall|i: int| 0 <= i < rest.len() implies {
        &&& (#[trigger] new_pool[rest[i] as int]).list_next == peer(rest, sizes, i, i + 1)
        &&& new_pool[rest[i] as int].list_prev == peer(rest, sizes, i, i - 1)
    } by {
        let o = if i < k {
            i
        } else {
            i + 1
        };
        assert(pool[sized[o] as int].list_next == peer(sized, sizes, o, o + 1));
        assert(pool[sized[k] as int].list_next == peer(sized, sizes, k, k + 1));
        lemma_remove_links(pool, sized, sizes, k, i);
    }
    assert forall|o: int| 0 <= o < 12 implies #[trigger] new_heads[o] == list_head(
        rest,
        sizes,
        o,
    ) by {
        lemma_orders_ascend(sized, sizes);
        lemma_head_remove(sized, sizes, k, o);
        assert(heads[o] == list_head(sized, sizes, o));
    }
}

/// The pool once entry `id` stands between `prev` and `next` in a free list.
pub open spec fn linked_in(
    pool: Seq<MemoryEntry>,
    id: int,
    prev: Option<u32>,
    next: Option<u32>,
) -> Seq<MemoryEntry> {
    let here = pool.update(id, MemoryEntry { list_prev: prev, list_next: next, ..pool[id] });
    let left = match prev {
        Some(p) => here.update(
            p as int,
            MemoryEntry { list_next: Some(id as u32), ..here[p as int] },
        ),
        None => here,
    };
    match next {
        Some(n) => left.update(
            n as int,
            MemoryEntry { list_prev: Some(id as u32), ..left[n as int] },
        ),
        None => left,
    }
}

/// The heads of the free lists once entry `id` is in them, at index `j`.
proof fn lemma_head_insert(sized: Seq<u32>, sizes: Seq<int>, j: int, id: u32, order: int)
    requires
        0 <= j <= sized.len(),
        forall|a: int, b: int|
            0 <= a <= b < sized.insert(j, id).len() ==> page_order(
                sizes[#[trigger] sized.insert(j, id)[a] as int],
            ) <= page_order(sizes[#[trigger] sized.insert(j, id)[b] as int]),
    ensures
        list_head(sized.insert(j, id), sizes, order) == if order == page_order(sizes[id as int])
            && peer(sized.insert(j, id), sizes, j, j - 1) is None {
            Some(id)
        } else {
            list_head(sized, sizes, order)
        },
{
    let grown = sized.insert(j, id);
    let b = list_start_from(grown, sizes, order, 0);
    lemma_list_start(grown, sizes, order, 0);
    let own = page_order(sizes[id as int]);
    assert(grown[j] == id);
    if own < order {
        assert(j < b);
    } else {
        assert(b <= j);
    }
    let c = if own < order {
        b - 1
    } else {
        b
    };
    assert forall|i: int| 0 <= i < c implies page_order(sizes[#[trigger] sized[i] as int])
        < order by {
        assert(sized[i] == grown[if i < j {
            i
        } else {
            i + 1
        }]);
    }
    if c < sized.len() {
        let p = if c < j {
            c
        } else {
            c + 1
        };
        assert(sized[c] == grown[p]);
    }
    lemma_list_start_is(sized, sizes, order, c);
    if j > 0 {
        assert(grown[j - 1] == sized[j - 1]);
    }
}

/// With entry `id` at index `j`, the sizes still ascend and no entry occurs twice.
proof fn lemma_insert_ascends(sized: Seq<u32>, sizes: Seq<int>, j: int, id: u32)
    requires
        distinct(sized),
        forall|a: int, b: int|
            0 <= a < b < sized.len() ==> sizes[#[trigger] sized[a] as int]
                <= sizes[#[trigger] sized[b] as int],
        0 <= j <= sized.len(),
        id < 64,
        forall|i: int| 0 <= i < sized.len() ==> #[trigger] sized[i] != id,
        j > 0 ==> sizes[sized[j - 1] as int] <= sizes[id as int],
        j < sized.len() ==> sizes[id as int] <= sizes[sized[j] as int],
    ensures
        distinct(sized.insert(j, id)),
        forall|a: int, b: int|
            0 <= a < b < sized.insert(j, id).len() ==> sizes[#[trigger] sized.insert(j, id)[a] as int]
                <= sizes[#[trigger] sized.insert(j, id)[b] as int],
{
    let grown = sized.insert(j, id);
    assert forall|a: int, b: int| 0 <= a < b < grown.len() implies sizes[#[trigger] grown[a] as int]
        <= sizes[#[trigger] grown[b] as int] by {
        if a != j {
            assert(grown[a] == sized[if a < j {
                a
            } else {
                a - 1
            }]);
        }
        if b != j {
            assert(grown[b] == sized[if b < j {
                b
            } else {
                b - 1
            }]);
        }
        if a == j && b > j + 1 {
            assert(sizes[sized[j] as int] <= sizes[sized[b - 1] as int]);
        }
        if b == j && a < j - 1 {
            assert(sizes[sized[a] as int] <= sizes[sized[j - 1] as int]);
        }
    }
}

/// The links of the entry at index `i`, once entry `id` is at index `j`.
proof fn lemma_insert_links(
    pool: Seq<MemoryEntry>,
    sized: Seq<u32>,
    sizes: Seq<int>,
    j: int,
    id: u32,
    i: int,
)
    requires
        pool.len() == 64,
        distinct(sized.insert(j, id)),
        0 <= j <= sized.len(),
        0 <= i < sized.len() + 1,
        j > 0 ==> page_order(sizes[sized[j - 1] as int]) <= page_order(sizes[id as int]),
        j < sized.len() ==> page_order(sizes[id as int]) <= page_order(sizes[sized[j] as int]),
        i < j ==> pool[sized[i] as int].list_next == peer(sized, sizes, i, i + 1),
        i < j ==> pool[sized[i] as int].list_prev == peer(sized, sizes, i, i - 1),
        i > j ==> pool[sized[i - 1] as int].list_next == peer(sized, sizes, i - 1, i),
        i > j ==> pool[sized[i - 1] as int].list_prev == peer(sized, sizes, i - 1, i - 2),
    ensures
        ({
            let grown = sized.insert(j, id);
            let new_pool = linked_in(
                pool,
                id as int,
                peer(grown, sizes, j, j - 1),
                peer(grown, sizes, j, j + 1),
            );
            &&& new_pool[grown[i] as int].list_next == peer(grown, sizes, i, i + 1)
            &&& new_pool[grown[i] as int].list_prev == peer(grown, sizes, i, i - 1)
        }),
{
    let grown = sized.insert(j, id);
    assert(grown[j] == id);
    if i != j {
        assert(grown[i] == sized[if i < j {
            i
        } else {
            i - 1
        }]);
    }
    if j + 1 < grown.len() {
        assert(grown[j + 1] == sized[j]);
    }
    if j > 0 {
        assert(grown[j - 1] == sized[j - 1]);
    }
}

/// Putting entry `id` into its free list, at index `j` of all the lists.
proof fn lemma_list_insert(
    pool: Seq<MemoryEntry>,
    heads: Seq<Option<u32>>,
    sized: Seq<u32>,
    sizes: Seq<int>,
    j: int,
    id: u32,
    new_heads: Seq<Option<u32>>,
)
    requires
        lists_ok(pool, heads, sized, sizes),
        0 <= j <= sized.len(),
        id < 64,
        forall|i: int| 0 <= i < sized.len() ==> #[trigger] sized[i] != id,
        j > 0 ==> sizes[sized[j - 1] as int] <= sizes[id as int],
        j < sized.len() ==> sizes[id as int] <= sizes[sized[j] as int],
        ({
            let order = page_order(sizes[id as int]);
            new_heads == if peer(sized.insert(j, id), sizes, j, j - 1) is None {
                heads.update(order, Some(id))
            } else {
                heads
            }
        }),
    ensures
        lists_ok(
            linked_in(
                pool,
                id as int,
                peer(sized.insert(j, id), sizes, j, j - 1),
                peer(sized.insert(j, id), sizes, j, j + 1),
            ),
            new_heads,
            sized.insert(j, id),
            sizes,
        ),
        same_but_lists(
            linked_in(
                pool,
                id as int,
                peer(sized.insert(j, id), sizes, j, j - 1),
                peer(sized.insert(j, id), sizes, j, j + 1),
            ),
            pool,
        ),
{
    reveal(lists_ok);
    let grown = sized.insert(j, id);
    let prev = peer(grown, sizes, j, j - 1);
    let next = peer(grown, sizes, j, j + 1);
    let new_pool = linked_in(pool, id as int, prev, next);
    lemma_insert_ascends(sized, sizes, j, id);
    if j > 0 {
        lemma_page_order(sizes[sized[j - 1] as int], sizes[id as int]);
    }
    if j < sized.len() {
        lemma_page_order(sizes[id as int], sizes[sized[j] as int]);
    }
    lemma_page_order(sizes[id as int], 0);
    assert forall|i: int| 0 <= i < grown.len() implies {
        &&& (#[trigger] new_pool[grown[i] as int]).list_next == peer(grown, sizes, i, i + 1)
        &&& new_pool[grown[i] as int].list_prev == peer(grown, sizes, i, i - 1)
    } by {
        let o = if i < j {
            i
        } else {
            i - 1
        };
        if i != j {
            assert(pool[sized[o] as int].list_next == peer(sized, sizes, o, o + 1));
        }
        lemma_insert_links(pool, sized, sizes, j, id, i);
    }
    assert forall|o: int| 0 <= o < 12 implies #[trigger] new_heads[o] == list_head(
        grown,
        sizes,
        o,
    ) by {
        lemma_orders_ascend(grown, sizes);
        lemma_head_insert(sized, sizes, j, id, o);
        assert(heads[o] == list_head(sized, sizes, o));
    }
}

/// Only the sizes of the listed entries matter.
proof fn lemma_lists_sizes(
    pool: Seq<MemoryEntry>,
    heads: Seq<Option<u32>>,
    sized: Seq<u32>,
    sizes: Seq<int>,
    new_sizes: Seq<int>,
)
    requires
        lists_ok(pool, heads, sized, sizes),
        new_sizes.len() == 64,
        forall|i: int|
            0 <= i < sized.len() ==> sizes[#[trigger] sized[i] as int] == new_sizes[sized[i] as int],
    ensures
        lists_ok(pool, heads, sized, new_sizes),
{
    reveal(lists_ok);
    assert forall|order: int| 0 <= order < 12 implies #[trigger] heads[order] == list_head(
        sized,
        new_sizes,
        order,
    ) by {
        assert(heads[order] == list_head(sized, sizes, order));
        lemma_list_start(sized, sizes, order, 0);
        lemma_list_start_is(sized, new_sizes, order, list_start_from(sized, sizes, order, 0));
    }
    assert forall|i: int, j: int| 0 <= i < j < sized.len() implies new_sizes[#[trigger] sized[i] as int]
        <= new_sizes[#[trigger] sized[j] as int] by {
        assert(sizes[sized[i] as int] <= sizes[sized[j] as int]);
    }
}

/// The boundary between the smaller ranges and the others is the slot.
proof fn lemma_slot_is(ranges: Seq<Range>, size: int, j: int)
    requires
        0 <= j <= ranges.len(),
        forall|i: int| 0 <= i < j ==> (#[trigger] ranges[i]).size() < size,
        j < ranges.len() ==> ranges[j].size() >= size,
    ensures
        crate::free_memory::slot_from(ranges, size, 0) == j,
{
    crate::free_memory::lemma_slot_from(ranges, size, 0);
    let s = crate::free_memory::slot_from(ranges, size, 0);
    if s < j {
        assert(ranges[s].size() < size);
    }
    if j < s {
        assert(ranges[j].size() < size);
    }
}

/// What the head of a free list says of the entries before it.
proof fn lemma_head(sized: Seq<u32>, sizes: Seq<int>, order: int)
    requires
        forall|i: int, j: int|
            0 <= i < j < sized.len() ==> sizes[#[trigger] sized[i] as int]
                <= sizes[#[trigger] sized[j] as int],
    ensures
        ({
            let b = list_start_from(sized, sizes, order, 0);
            &&& 0 <= b <= sized.len()
            &&& forall|i: int|
                0 <= i < b ==> page_order(sizes[#[trigger] sized[i] as int]) < order
            &&& forall|i: int|
                b <= i < sized.len() ==> page_order(sizes[#[trigger] sized[i] as int]) >= order
            &&& list_head(sized, sizes, order) is None ==> forall|i: int|
                b <= i < sized.len() ==> page_order(sizes[#[trigger] sized[i] as int]) > order
            &&& list_head(sized, sizes, order) is Some ==> b < sized.len() && sized[b]
                == list_head(sized, sizes, order)->0 && page_order(sizes[sized[b] as int]) == order
        }),
{
    lemma_list_start(sized, sizes, order, 0);
    lemma_orders_ascend(sized, sizes);
    let b = list_start_from(sized, sizes, order, 0);
    assert forall|i: int| b <= i < sized.len() implies page_order(
        sizes[#[trigger] sized[i] as int],
    ) >= page_order(sizes[sized[b] as int]) by {
        assert(sized[b] == sized[b]);
    }
}

/// What the free lists say of the ids and the sizes in them.
pub proof fn lemma_lists_basics(
    pool: Seq<MemoryEntry>,
    heads: Seq<Option<u32>>,
    sized: Seq<u32>,
    sizes: Seq<int>,
)
    requires
        lists_ok(pool, heads, sized, sizes),
    ensures
        pool.len() == 64,
        heads.len() == 12,
        sizes.len() == 64,
        distinct(sized),
        forall|i: int, j: int|
            0 <= i < j < sized.len() ==> sizes[#[trigger] sized[i] as int]
                <= sizes[#[trigger] sized[j] as int],
{
    reveal(lists_ok);
}

/// The neighbours of entry `id` in its free list, once it is in its slot.
proof fn lemma_slot_neighbours(pool: Seq<MemoryEntry>, sized: Seq<u32>, id: u32)
    requires
        pool.len() == 64,
        distinct(sized),
        id < 64,
    ensures
        ({
            let sizes = sizes_of(pool);
            let size = range_of(pool[id as int]).size();
            let j = crate::free_memory::slot_from(ranges_of(pool, sized), size, 0);
            let grown = sized.insert(j, id);
            &&& 0 <= j <= sized.len()
            &&& j > 0 ==> sizes[sized[j - 1] as int] <= sizes[id as int]
            &&& j < sized.len() ==> sizes[id as int] <= sizes[sized[j] as int]
            &&& MemoryAllocator::in_order(sized, sizes, j - 1, size) == peer(grown, sizes, j, j - 1)
            &&& MemoryAllocator::in_order(sized, sizes, j, size) == peer(grown, sizes, j, j + 1)
        }),
{
    let sizes = sizes_of(pool);
    let size = range_of(pool[id as int]).size();
    let ranges = ranges_of(pool, sized);
    crate::free_memory::lemma_slot_from(ranges, size, 0);
    let j = crate::free_memory::slot_from(ranges, size, 0);
    let grown = sized.insert(j, id);
    assert(grown[j] == id);
    if j > 0 {
        assert(grown[j - 1] == sized[j - 1]);
        assert(ranges[j - 1].size() == sizes[sized[j - 1] as int]);
    }
    if j < sized.len() {
        assert(grown[j + 1] == sized[j]);
        assert(ranges[j].size() == sizes[sized[j] as int]);
    }
}

/// With one entry more, the entries still know their ids.
proof fn lemma_named_insert(
    pool: Seq<MemoryEntry>,
    new_pool: Seq<MemoryEntry>,
    ids: Seq<u32>,
    j: int,
    id: u32,
)
    requires
        pool.len() == 64,
        distinct(ids),
        same_but_lists(new_pool, pool),
        MemoryAllocator::named(pool, ids),
        0 <= j <= ids.len(),
        id < 64,
        pool[id as int].is_range(),
        pool[id as int].id == id,
    ensures
        MemoryAllocator::named(new_pool, ids.insert(j, id)),
{
    let grown = ids.insert(j, id);
    assert forall|i: int| 0 <= i < grown.len() implies new_pool[#[trigger] grown[i] as int].is_range()
        && new_pool[grown[i] as int].id == grown[i] by {
        if i != j {
            assert(grown[i] == ids[if i < j {
                i
            } else {
                i - 1
            }]);
        }
    }
}

/// The pool once entry `id` has left the chain.
pub open spec fn deleted(pool: Seq<MemoryEntry>, id: int) -> Seq<MemoryEntry> {
    let entry = pool[id];
    let joined = match (in_pool(entry.previous), in_pool(entry.next)) {
        (Some(p), Some(n)) => chained_after(pool, p as int, n as int),
        (Some(p), None) => pool.update(p as int, MemoryEntry { next: None, ..pool[p as int] }),
        (None, Some(n)) => pool.update(n as int, MemoryEntry { previous: None, ..pool[n as int] }),
        (None, None) => pool,
    };
    joined.update(id, MemoryEntry { previous: None, next: None, enabled: false, ..joined[id] })
}

/// The id, where it is one of the pool.
pub open spec fn in_pool(id: Option<u32>) -> Option<u32> {
    match id {
        Some(i) => if i < 64 {
            Some(i)
        } else {
            None
        },
        None => None,
    }
}

/// The pool with entry `entry` chained behind entry `me`.
pub open spec fn chained_after(pool: Seq<MemoryEntry>, me: int, entry: int) -> Seq<MemoryEntry> {
    let here = pool.update(me, MemoryEntry { next: Some(pool[entry].id), ..pool[me] });
    here.update(entry, MemoryEntry { previous: Some(here[me].id), ..here[entry] })
}

/// The pool with entry `id` in the chain between `prev` and `next`.
pub open spec fn chained_in(
    pool: Seq<MemoryEntry>,
    id: int,
    prev: Option<u32>,
    next: Option<u32>,
) -> Seq<MemoryEntry> {
    let right = match next {
        Some(n) => chained_after(pool, id, n as int),
        None => pool,
    };
    match prev {
        Some(p) => chained_after(right, p as int, id),
        None => right,
    }
}

/// Nothing but the chain links and the enabled flags differs.
pub open spec fn same_but_chain(a: Seq<MemoryEntry>, b: Seq<MemoryEntry>) -> bool {
    &&& a.len() == b.len()
    &&& forall|i: int|
        0 <= i < a.len() ==> #[trigger] a[i] == (MemoryEntry {
            previous: a[i].previous,
            next: a[i].next,
            enabled: a[i].enabled,
            ..b[i]
        })
}

/// The chain links of the entry at index `i`, once the entry at index `k` is gone.
proof fn lemma_chain_links_remove(pool: Seq<MemoryEntry>, chain: Seq<u32>, k: int, i: int)
    requires
        pool.len() == 64,
        distinct(chain),
        0 <= k < chain.len(),
        0 <= i < chain.len() - 1,
        pool[chain[k] as int].next == at(chain, k + 1),
        pool[chain[k] as int].previous == at(chain, k - 1),
        k > 0 ==> pool[chain[k - 1] as int].id == chain[k - 1],
        k < chain.len() - 1 ==> pool[chain[k + 1] as int].id == chain[k + 1],
        i < k ==> pool[chain[i] as int].next == at(chain, i + 1),
        i < k ==> pool[chain[i] as int].previous == at(chain, i - 1),
        i >= k ==> pool[chain[i + 1] as int].next == at(chain, i + 2),
        i >= k ==> pool[chain[i + 1] as int].previous == at(chain, i),
    ensures
        deleted(pool, chain[k] as int)[chain.remove(k)[i] as int].next == at(
            chain.remove(k),
            i + 1,
        ),
        deleted(pool, chain[k] as int)[chain.remove(k)[i] as int].previous == at(
            chain.remove(k),
            i - 1,
        ),
{
    let rest = chain.remove(k);
    assert(rest[i] == chain[if i < k {
        i
    } else {
        i + 1
    }]);
    if k > 0 {
        assert(rest[k - 1] == chain[k - 1]);
    }
    if k < rest.len() {
        assert(rest[k] == chain[k + 1]);
    }
}

/// The chain links of the entry at index `i`, once entry `id` is at index `k`.
proof fn lemma_chain_links_insert(
    pool: Seq<MemoryEntry>,
    chain: Seq<u32>,
    k: int,
    id: u32,
    i: int,
)
    requires
        pool.len() == 64,
        distinct(chain.insert(k, id)),
        0 <= k <= chain.len(),
        0 <= i < chain.len() + 1,
        pool[id as int].id == id,
        pool[id as int].previous is None,
        pool[id as int].next is None,
        k > 0 ==> pool[chain[k - 1] as int].id == chain[k - 1],
        k < chain.len() ==> pool[chain[k] as int].id == chain[k],
        i < k ==> pool[chain[i] as int].next == at(chain, i + 1),
        i < k ==> pool[chain[i] as int].previous == at(chain, i - 1),
        i > k ==> pool[chain[i - 1] as int].next == at(chain, i),
        i > k ==> pool[chain[i - 1] as int].previous == at(chain, i - 2),
    ensures
        ({
            let grown = chain.insert(k, id);
            let new_pool = chained_in(pool, id as int, at(chain, k - 1), at(chain, k));
            &&& new_pool[grown[i] as int].next == at(grown, i + 1)
            &&& new_pool[grown[i] as int].previous == at(grown, i - 1)
        }),
{
    let grown = chain.insert(k, id);
    assert(grown[k] == id);
    if i != k {
        assert(grown[i] == chain[if i < k {
            i
        } else {
            i - 1
        }]);
    }
    if k > 0 {
        assert(grown[k - 1] == chain[k - 1]);
    }
    if k < chain.len() {
        assert(grown[k + 1] == chain[k]);
    }
}

/// Deleting an entry changes chain links, and no flag but its own.
proof fn lemma_deleted_frame(pool: Seq<MemoryEntry>, id: int)
    requires
        pool.len() == 64,
        0 <= id < 64,
    ensures
        same_but_chain(deleted(pool, id), pool),
        forall|i: int|
            0 <= i < 64 ==> (#[trigger] deleted(pool, id)[i]).enabled == (pool[i].enabled && i
                != id),
{
}

/// Removing an id leaves the others distinct.
proof fn lemma_distinct_remove(ids: Seq<u32>, k: int)
    requires
        distinct(ids),
        0 <= k < ids.len(),
    ensures
        distinct(ids.remove(k)),
{
}

/// Inserting a new id keeps the ids distinct.
proof fn lemma_distinct_insert(ids: Seq<u32>, k: int, id: u32)
    requires
        distinct(ids),
        0 <= k <= ids.len(),
        id < 64,
        forall|i: int| 0 <= i < ids.len() ==> #[trigger] ids[i] != id,
    ensures
        distinct(ids.insert(k, id)),
{
}

/// Taking the entry at index `k` out of the chain.
proof fn lemma_chain_remove(
    pool: Seq<MemoryEntry>,
    first: Option<u32>,
    chain: Seq<u32>,
    k: int,
)
    requires
        chain_ok(pool, first, chain),
        MemoryAllocator::named(pool, chain),
        0 <= k < chain.len(),
    ensures
        chain_ok(
            deleted(pool, chain[k] as int),
            if k == 0 {
                pool[chain[k] as int].next
            } else {
                first
            },
            chain.remove(k),
        ),
        same_but_chain(deleted(pool, chain[k] as int), pool),
        forall|i: int|
            0 <= i < 64 ==> (#[trigger] deleted(pool, chain[k] as int)[i]).enabled == (
            pool[i].enabled && i != chain[k]),
{
    let id = chain[k];
    let rest = chain.remove(k);
    let new_pool = deleted(pool, id as int);
    assert forall|i: int| 0 <= i < rest.len() implies {
        &&& (#[trigger] new_pool[rest[i] as int]).next == at(rest, i + 1)
        &&& new_pool[rest[i] as int].previous == at(rest, i - 1)
    } by {
        let o = if i < k {
            i
        } else {
            i + 1
        };
        assert(pool[chain[o] as int].next == at(chain, o + 1));
        assert(pool[chain[k] as int].next == at(chain, k + 1));
        lemma_chain_links_remove(pool, chain, k, i);
    }
    lemma_deleted_frame(pool, id as int);
    lemma_distinct_remove(chain, k);
    assert(pool[chain[k] as int].next == at(chain, k + 1));
}

/// Putting entry `id` into the chain at index `k`.
proof fn lemma_chain_insert(
    pool: Seq<MemoryEntry>,
    first: Option<u32>,
    chain: Seq<u32>,
    k: int,
    id: u32,
)
    requires
        chain_ok(pool, first, chain),
        MemoryAllocator::named(pool, chain),
        0 <= k <= chain.len(),
        id < 64,
        pool[id as int].id == id,
        pool[id as int].previous is None,
        pool[id as int].next is None,
        forall|i: int| 0 <= i < chain.len() ==> #[trigger] chain[i] != id,
    ensures
        chain_ok(
            chained_in(pool, id as int, at(chain, k - 1), at(chain, k)),
            if k == 0 {
                Some(id)
            } else {
                first
            },
            chain.insert(k, id),
        ),
        same_but_chain(chained_in(pool, id as int, at(chain, k - 1), at(chain, k)), pool),
        forall|i: int|
            0 <= i < 64 ==> (#[trigger] chained_in(
                pool,
                id as int,
                at(chain, k - 1),
                at(chain, k),
            )[i]).enabled == pool[i].enabled,
{
    let grown = chain.insert(k, id);
    let new_pool = chained_in(pool, id as int, at(chain, k - 1), at(chain, k));
    lemma_distinct_insert(chain, k, id);
    assert forall|i: int| 0 <= i < grown.len() implies {
        &&& (#[trigger] new_pool[grown[i] as int]).next == at(grown, i + 1)
        &&& new_pool[grown[i] as int].previous == at(grown, i - 1)
    } by {
        let o = if i < k {
            i
        } else {
            i - 1
        };
        if i != k {
            assert(pool[chain[o] as int].next == at(chain, o + 1));
        }
        lemma_chain_links_insert(pool, chain, k, id, i);
    }
}

/// Only the list links of the listed entries matter.
proof fn lemma_lists_frame(
    pool: Seq<MemoryEntry>,
    heads: Seq<Option<u32>>,
    sized: Seq<u32>,
    sizes: Seq<int>,
    new_pool: Seq<MemoryEntry>,
)
    requires
        lists_ok(pool, heads, sized, sizes),
        new_pool.len() == 64,
        forall|i: int|
            0 <= i < sized.len() ==> {
                &&& new_pool[#[trigger] sized[i] as int].list_next
                    == pool[sized[i] as int].list_next
                &&& new_pool[sized[i] as int].list_prev == pool[sized[i] as int].list_prev
            },
    ensures
        lists_ok(new_pool, heads, sized, sizes),
{
    reveal(lists_ok);
}

/// In free memory no two ids stand for the same range, so a range is found where its id is.
proof fn lemma_index_of_range(
    pool: Seq<MemoryEntry>,
    chain: Seq<u32>,
    sized: Seq<u32>,
    id: u32,
)
    requires
        pool.len() == 64,
        distinct(sized),
        distinct(chain),
        forall|x: u32| #[trigger] sized.contains(x) ==> chain.contains(x),
        sized.contains(id),
        (FreeMemory {
            by_address: ranges_of(pool, chain),
            by_size: ranges_of(pool, sized),
        }).separated(),
    ensures
        ranges_of(pool, sized).index_of(range_of(pool[id as int])) == sized.index_of(id),
{
    let memory = FreeMemory {
        by_address: ranges_of(pool, chain),
        by_size: ranges_of(pool, sized),
    };
    let ranges = memory.by_size;
    let range = range_of(pool[id as int]);
    let k = sized.index_of(id);
    assert(ranges[k] == range);
    let j = ranges.index_of(range);
    assert(0 <= j < ranges.len() && ranges[j] == range);
    assert(sized.contains(sized[j]));
    let a = chain.index_of(sized[j]);
    let b = chain.index_of(id);
    assert(memory.by_address[a] == range);
    assert(memory.by_address[b] == range);
    assert(a == b);
}

impl MemoryEntry {
    /// An entry that holds nothing.
    pub open spec fn blank() -> MemoryEntry {
        MemoryEntry {
            previous: None,
            next: None,
            list_prev: None,
            list_next: None,
            start: 0,
            end: 0,
            enabled: false,
            id: 0,
        }
    }

    /// The entry holds a range, and that range ends before the last address.
    pub open spec fn is_range(self) -> bool {
        self.start <= self.end < usize::MAX
    }

    pub fn new() -> (entry: Self)
        ensures
            entry == Self::blank(),
    {
        Self {
            previous: None,
            next: None,
            list_prev: None,
            list_next: None,
            start: 0,
            end: 0,
            enabled: false,
            id: 0,
        }
    }

    pub fn set_range(&mut self, start: usize, end: usize)
        requires
            start <= end,
        ensures
            *final(self) == (MemoryEntry { start, end, ..*old(self) }),
    {
        self.start = start;
        self.end = end;
    }

    pub fn get_start_address(&self) -> (address: usize)
        ensures
            address == self.start,
    {
        self.start
    }

    pub fn get_end_address(&self) -> (address: usize)
        ensures
            address == self.end,
    {
        self.end
    }

    pub fn set_prev_entry(&mut self, prev: &Self)
        ensures
            *final(self) == (MemoryEntry { previous: Some(prev.id), ..*old(self) }),
    {
        self.previous = Some(prev.id);
    }

    pub fn unset_prev_entry(&mut self)
        ensures
            *final(self) == (MemoryEntry { previous: None, ..*old(self) }),
    {
        self.previous = None;
    }

    pub fn set_next_entry(&mut self, next: &Self)
        ensures
            *final(self) == (MemoryEntry { next: Some(next.id), ..*old(self) }),
    {
        self.next = Some(next.id);
    }

    pub fn unset_next_entry(&mut self)
        ensures
            *final(self) == (MemoryEntry { next: None, ..*old(self) }),
    {
        self.next = None;
    }

    pub fn get_size(&self) -> (size: usize)
        requires
            self.start <= self.end,
            self.end - self.start < usize::MAX,
        ensures
            size == range_of(*self).size(),
    {
        self.end - self.start + 1
    }

    pub fn is_first_entry(&self) -> (first: bool)
        ensures
            first == (self.previous is None),
    {
        self.previous.is_none()
    }

    /// Takes entry `id` out of the chain, and frees its place in the pool.
    pub fn delete(pool: &mut MemoryEntryPool, id: u32)
        requires
            id < 64,
        ensures
            final(pool)@ == deleted(old(pool)@, id as int),
    {
        let entry: MemoryEntry = pool[id as usize];
        let previous: Option<u32> = MemoryAllocator::get_prev_entry(pool, &entry);
        let next: Option<u32> = MemoryAllocator::get_next_entry(pool, &entry);
        if let Some(p) = previous {
            if let Some(n) = next {
                Self::chain_after_me(pool, p, n);
            } else {
                pool[p as usize].unset_next_entry();
            }
        } else if let Some(n) = next {
            pool[n as usize].unset_prev_entry();
        }
        pool[id as usize].previous = None;
        pool[id as usize].next = None;
        pool[id as usize].enabled = false;
        assert(pool@ =~= deleted(old(pool)@, id as int));
    }

    /// Chains entry `entry` behind entry `me`.
    pub fn chain_after_me(pool: &mut MemoryEntryPool, me: u32, entry: u32)
        requires
            me < 64,
            entry < 64,
        ensures
            final(pool)@ == chained_after(old(pool)@, me as int, entry as int),
    {
        let after: MemoryEntry = pool[entry as usize];
        pool[me as usize].set_next_entry(&after);
        let before: MemoryEntry = pool[me as usize];
        pool[entry as usize].set_prev_entry(&before);
        assert(pool@ =~= chained_after(old(pool)@, me as int, entry as int));
    }

    /// Takes entry `id` out of its free list.
    pub fn unchain_from_freelist(pool: &mut MemoryEntryPool, id: u32)
        requires
            id < 64,
        ensures
            final(pool)@ == unchained(old(pool)@, id as int),
    {
        let entry: MemoryEntry = pool[id as usize];
        if let Some(p) = entry.list_prev {
            if MemoryAllocator::get_memory_entry(pool, p).is_ok() {
                pool[p as usize].list_next = entry.list_next;
            }
        }
        if let Some(n) = entry.list_next {
            if MemoryAllocator::get_memory_entry(pool, n).is_ok() {
                pool[n as usize].list_prev = entry.list_prev;
            }
        }
        pool[id as usize].list_next = None;
        pool[id as usize].list_prev = None;
        assert(pool@ =~= unchained(old(pool)@, id as int));
    }
}

impl MemoryAllocator {
    /// How many free ranges the allocator can hold.
    pub const POOL_SIZE: usize = 64;

    pub const NUM_OF_FREE_LIST: usize = 12;

    pub fn get_memory_entry(pool: &MemoryEntryPool, index: u32) -> (entry: Result<
        &MemoryEntry,
        MemoryError,
    >)
        ensures
            index < 64 ==> entry == Ok::<&MemoryEntry, MemoryError>(&pool@[index as int]),
            index >= 64 ==> entry == Err::<&MemoryEntry, MemoryError>(MemoryError::InvalidEntry),
    {
        let i: usize = index as usize;
        if i >= Self::POOL_SIZE {
            Err(MemoryError::InvalidEntry)
        } else {
            Ok(&pool[i])
        }
    }

    /// The id of the entry behind `entry` in the chain.
    pub fn get_next_entry(pool: &MemoryEntryPool, entry: &MemoryEntry) -> (next: Option<u32>)
        ensures
            next == in_pool(entry.next),
    {
        match entry.next {
            Some(n) => match Self::get_memory_entry(pool, n) {
                Ok(_) => Some(n),
                Err(_) => None,
            },
            None => None,
        }
    }

    /// The id of the entry before `entry` in the chain.
    pub fn get_prev_entry(pool: &MemoryEntryPool, entry: &MemoryEntry) -> (previous: Option<u32>)
        ensures
            previous == in_pool(entry.previous),
    {
        match entry.previous {
            Some(p) => match Self::get_memory_entry(pool, p) {
                Ok(_) => Some(p),
                Err(_) => None,
            },
            None => None,
        }
    }

    /// Takes the first unused entry of the pool into use.
    pub fn create_memory_entry(pool: &mut MemoryEntryPool) -> (created: Result<u32, MemoryError>)
        ensures
            match created {
                Ok(id) => {
                    &&& id < 64
                    &&& !old(pool)@[id as int].enabled
                    &&& forall|i: int| 0 <= i < id ==> (#[trigger] old(pool)@[i]).enabled
                    &&& final(pool)@ == old(pool)@.update(
                        id as int,
                        MemoryEntry { id, enabled: true, ..MemoryEntry::blank() },
                    )
                },
                Err(error) => {
                    &&& error == MemoryError::NoEntry
                    &&& forall|i: int| 0 <= i < 64 ==> (#[trigger] old(pool)@[i]).enabled
                    &&& final(pool)@ == old(pool)@
                },
            },
    {
        let mut i: usize = 0;
        while i < Self::POOL_SIZE
            invariant
                0 <= i <= 64,
                pool@ == old(pool)@,
                forall|j: int| 0 <= j < i ==> (#[trigger] old(pool)@[j]).enabled,
            decreases 64 - i,
        {
            if !pool[i].enabled {
                let mut entry: MemoryEntry = MemoryEntry::new();
                entry.id = i as u32;
                entry.enabled = true;
                pool[i] = entry;
                assert(pool@ =~= old(pool)@.update(i as int, entry));
                return Ok(i as u32);
            }
            i = i + 1;
        }
        Err(MemoryError::NoEntry)
    }

    pub fn size_to_page_order(size: usize) -> (order: usize)
        ensures
            order == page_order(size as int),
    {
        proof {
            reveal(page_order);
        }
        let mut order: usize = 0;
        let mut limit: usize = 0x1000;
        while size > limit
            invariant
                order < 11,
                limit == (if order == 0 {
                    0x1000int
                } else if order == 1 {
                    0x2000
                } else if order == 2 {
                    0x4000
                } else if order == 3 {
                    0x8000
                } else if order == 4 {
                    0x1_0000
                } else if order == 5 {
                    0x2_0000
                } else if order == 6 {
                    0x4_0000
                } else if order == 7 {
                    0x8_0000
                } else if order == 8 {
                    0x10_0000
                } else if order == 9 {
                    0x20_0000
                } else {
                    0x40_0000
                }),
                order > 0 ==> size > limit / 2,
            decreases 11 - order,
        {
            order = order + 1;
            if order == Self::NUM_OF_FREE_LIST - 1 {
                reveal(page_order);
                return order;
            }
            limit = limit * 2;
        }
        proof {
            reveal(page_order);
        }
        order
    }

    /// The entries that `ids` names hold ranges and know their own ids.
    pub open spec fn named(pool: Seq<MemoryEntry>, ids: Seq<u32>) -> bool {
        forall|i: int|
            0 <= i < ids.len() ==> pool[#[trigger] ids[i] as int].is_range()
                && pool[ids[i] as int].id == ids[i]
    }

    /// The free lists stand, the size of entry `id` being `sizes[id]`.
    pub open spec fn listed(self, sizes: Seq<int>) -> bool {
        &&& lists_ok(self.memory_entry_pool@, self.free_list@, self.sized@, sizes)
        &&& Self::named(self.memory_entry_pool@, self.sized@)
    }

    /// Nothing but the free lists differs.
    pub open spec fn differs_in_lists(self, other: Self) -> bool {
        &&& same_but_lists(self.memory_entry_pool@, other.memory_entry_pool@)
        &&& self.chain@ == other.chain@
        &&& self.first_entry == other.first_entry
        &&& self.free_size == other.free_size
    }

    /// The entries outside the free lists are as before, entry `id` aside.
    pub open spec fn unlisted_unchanged(self, other: Self, id: u32) -> bool {
        forall|i: int|
            0 <= i < 64 && i != id && !other.sized@.contains(i as u32) ==> (
            #[trigger] self.memory_entry_pool@[i]) == other.memory_entry_pool@[i]
    }

    /// Takes entry `id` out of its free list. The list is that of the entry's size.
    pub fn unchain_entry_from_free_list(&mut self, id: u32)
        requires
            old(self).listed(sizes_of(old(self).memory_entry_pool@)),
            old(self).sized@.contains(id),
        ensures
            final(self).listed(sizes_of(final(self).memory_entry_pool@)),
            final(self).differs_in_lists(*old(self)),
            final(self).unlisted_unchanged(*old(self), id),
            final(self).sized@ == old(self).sized@.remove(old(self).sized@.index_of(id)),
    {
        proof {
            lemma_lists_basics(
                self.memory_entry_pool@,
                self.free_list@,
                self.sized@,
                sizes_of(self.memory_entry_pool@),
            );
        }
        let size: usize = self.memory_entry_pool[id as usize].get_size();
        proof {
            let sizes = sizes_of(self.memory_entry_pool@);
            assert(sizes.update(id as int, size as int) =~= sizes);
        }
        self.unchain_from_order(id, size);
        proof {
            let sizes = sizes_of(self.memory_entry_pool@);
            assert(sizes.update(id as int, size as int) =~= sizes);
        }
    }

    /// Takes entry `id` out of the free list for `size` bytes.
    fn unchain_from_order(&mut self, id: u32, size: usize)
        requires
            old(self).listed(
                sizes_of(old(self).memory_entry_pool@).update(id as int, size as int),
            ),
            old(self).sized@.contains(id),
        ensures
            final(self).listed(
                sizes_of(final(self).memory_entry_pool@).update(id as int, size as int),
            ),
            final(self).differs_in_lists(*old(self)),
            final(self).unlisted_unchanged(*old(self), id),
            final(self).sized@ == old(self).sized@.remove(old(self).sized@.index_of(id)),
            final(self).memory_entry_pool@[id as int].list_next is None,
            final(self).memory_entry_pool@[id as int].list_prev is None,
    {
        let ghost k = self.sized@.index_of(id);
        let ghost pool = self.memory_entry_pool@;
        let ghost heads = self.free_list@;
        let ghost sized = self.sized@;
        let ghost sizes = sizes_of(pool).update(id as int, size as int);
        proof {
            lemma_lists_basics(pool, heads, sized, sizes);
            lemma_page_order(size as int, 0);
        }
        let order: usize = Self::size_to_page_order(size);
        if self.free_list[order] == Some(id) {
            self.free_list[order] = self.memory_entry_pool[id as usize].list_next;
        }
        MemoryEntry::unchain_from_freelist(&mut self.memory_entry_pool, id);
        proof {
            self.sized@ = sized.remove(k);
            lemma_list_remove(pool, heads, sized, sizes, k, self.free_list@);
            assert(sizes_of(self.memory_entry_pool@) =~= sizes_of(pool));
            assert(self.unlisted_unchanged(*old(self), id)) by {
                reveal(lists_ok);
                assert(pool[sized[k] as int].list_next == peer(sized, sizes, k, k + 1));
            }
        }
    }

    /// The neighbours that an entry of `size` bytes gets in its free list: the last smaller entry
    /// and the first other one, as far as they are in that list.
    fn list_position(&self, size: usize) -> (position: (Option<u32>, Option<u32>))
        requires
            self.listed(sizes_of(self.memory_entry_pool@)),
        ensures
            ({
                let sizes = sizes_of(self.memory_entry_pool@);
                let j = crate::free_memory::slot_from(
                    ranges_of(self.memory_entry_pool@, self.sized@),
                    size as int,
                    0,
                );
                &&& position.0 == Self::in_order(self.sized@, sizes, j - 1, size as int)
                &&& position.1 == Self::in_order(self.sized@, sizes, j, size as int)
            }),
    {
        let ghost pool = self.memory_entry_pool@;
        let ghost sized = self.sized@;
        let ghost sizes = sizes_of(pool);
        let ghost ranges = ranges_of(pool, sized);
        proof {
            reveal(lists_ok);
        }
        let order: usize = Self::size_to_page_order(size);
        let ghost b = list_start_from(sized, sizes, order as int, 0);
        proof {
            lemma_page_order(size as int, 0);
            lemma_head(sized, sizes, order as int);
            assert(self.free_list@[order as int] == list_head(sized, sizes, order as int));
            assert forall|i: int| 0 <= i < b implies (#[trigger] ranges[i]).size() < size by {
                assert(ranges[i].size() == sizes[sized[i] as int]);
                lemma_page_order(size as int, sizes[sized[i] as int]);
            }
            if b < sized.len() {
                assert(ranges[b].size() == sizes[sized[b] as int]);
                lemma_page_order(sizes[sized[b] as int], size as int);
            }
        }
        let head: u32 = match self.free_list[order] {
            Some(head) => head,
            None => {
                proof {
                    lemma_slot_is(ranges, size as int, b);
                }
                return (None, None);
            },
        };
        assert(sized[b] == head);
        if self.memory_entry_pool[head as usize].get_size() >= size {
            proof {
                lemma_slot_is(ranges, size as int, b);
            }
            return (None, Some(head));
        }
        let mut list_entry: u32 = head;
        let ghost mut c: int = b;
        loop
            invariant
                0 <= b <= c < sized.len(),
                self.listed(sizes),
                pool == self.memory_entry_pool@,
                sized == self.sized@,
                sizes == sizes_of(pool),
                ranges == ranges_of(pool, sized),
                list_entry == sized[c],
                order == page_order(size as int),
                page_order(sizes[list_entry as int]) == order,
                forall|i: int| 0 <= i <= c ==> (#[trigger] ranges[i]).size() < size,
            decreases sized.len() - c,
        {
            proof {
                reveal(lists_ok);
                assert(pool[sized[c] as int].list_next == peer(sized, sizes, c, c + 1));
            }
            match self.memory_entry_pool[list_entry as usize].list_next {
                Some(next) => {
                    assert(next == sized[c + 1]);
                    assert(ranges[c + 1].size() == sizes[next as int]);
                    if self.memory_entry_pool[next as usize].get_size() >= size {
                        proof {
                            lemma_slot_is(ranges, size as int, c + 1);
                        }
                        return (Some(list_entry), Some(next));
                    }
                    list_entry = next;
                    proof {
                        c = c + 1;
                    }
                },
                None => {
                    proof {
                        if c + 1 < sized.len() {
                            assert(sizes[sized[c] as int] <= sizes[sized[c + 1] as int]);
                            assert(ranges[c + 1].size() == sizes[sized[c + 1] as int]);
                            lemma_page_order(sizes[sized[c + 1] as int], size as int);
                            lemma_page_order(sizes[sized[c] as int], sizes[sized[c + 1] as int]);
                        }
                        lemma_slot_is(ranges, size as int, c + 1);
                    }
                    return (Some(list_entry), None);
                },
            }
        }
    }

    /// The entry at index `i`, where it is in the free list for `size` bytes.
    pub open spec fn in_order(sized: Seq<u32>, sizes: Seq<int>, i: int, size: int) -> Option<u32> {
        if 0 <= i < sized.len() && page_order(sizes[sized[i] as int]) == page_order(size) {
            Some(sized[i])
        } else {
            None
        }
    }

    /// Puts entry `id`, which is in no free list, into that of its size, in front of the first
    /// entry that is at least as large.
    fn chain_to_own_order(&mut self, id: u32)
        requires
            old(self).listed(sizes_of(old(self).memory_entry_pool@)),
            !old(self).sized@.contains(id),
            id < 64,
            old(self).memory_entry_pool@[id as int].is_range(),
            old(self).memory_entry_pool@[id as int].id == id,
        ensures
            final(self).listed(sizes_of(final(self).memory_entry_pool@)),
            final(self).differs_in_lists(*old(self)),
            final(self).unlisted_unchanged(*old(self), id),
            final(self).sized@ == Self::sized_with(
                old(self).memory_entry_pool@,
                old(self).sized@,
                id,
            ),
    {
        let ghost pool = self.memory_entry_pool@;
        let ghost heads = self.free_list@;
        let ghost sized = self.sized@;
        let ghost sizes = sizes_of(pool);
        let size: usize = self.memory_entry_pool[id as usize].get_size();
        let order: usize = Self::size_to_page_order(size);
        let (prev, next) = self.list_position(size);
        let ghost j = crate::free_memory::slot_from(ranges_of(pool, sized), size as int, 0);
        proof {
            lemma_lists_basics(pool, heads, sized, sizes);
            lemma_page_order(size as int, 0);
            lemma_slot_neighbours(pool, sized, id);
        }
        self.memory_entry_pool[id as usize].list_prev = prev;
        self.memory_entry_pool[id as usize].list_next = next;
        match prev {
            Some(p) => {
                self.memory_entry_pool[p as usize].list_next = Some(id);
            },
            None => {
                self.free_list[order] = Some(id);
            },
        }
        if let Some(n) = next {
            self.memory_entry_pool[n as usize].list_prev = Some(id);
        }
        proof {
            assert(self.memory_entry_pool@ =~= linked_in(pool, id as int, prev, next));
            self.sized@ = sized.insert(j, id);
            lemma_list_insert(pool, heads, sized, sizes, j, id, self.free_list@);
            assert(sizes_of(self.memory_entry_pool@) =~= sizes);
            lemma_named_insert(pool, self.memory_entry_pool@, sized, j, id);
        }
    }

    /// `sized` with entry `id` in front of the first entry that is at least as large.
    pub open spec fn sized_with(pool: Seq<MemoryEntry>, sized: Seq<u32>, id: u32) -> Seq<u32> {
        sized.insert(
            crate::free_memory::slot_from(
                ranges_of(pool, sized),
                range_of(pool[id as int]).size(),
                0,
            ),
            id,
        )
    }

    /// Puts entry `id` into the free list of its size, and takes it out of that of its old
    /// size where it is in one. An entry whose size did not change stays where it is.
    pub fn chain_entry_to_free_list(&mut self, id: u32, old_size: Option<usize>)
        requires
            id < 64,
            old(self).memory_entry_pool@[id as int].is_range(),
            old(self).memory_entry_pool@[id as int].id == id,
            old_size is None ==> {
                &&& old(self).listed(sizes_of(old(self).memory_entry_pool@))
                &&& !old(self).sized@.contains(id)
                &&& old(self).memory_entry_pool@[id as int].list_next is None
                &&& old(self).memory_entry_pool@[id as int].list_prev is None
            },
            old_size is Some ==> {
                &&& old(self).listed(
                    sizes_of(old(self).memory_entry_pool@).update(id as int, old_size->0 as int),
                )
                &&& old(self).sized@.contains(id)
            },
        ensures
            final(self).listed(sizes_of(final(self).memory_entry_pool@)),
            final(self).differs_in_lists(*old(self)),
            final(self).unlisted_unchanged(*old(self), id),
            final(self).sized@ == match old_size {
                None => Self::sized_with(old(self).memory_entry_pool@, old(self).sized@, id),
                Some(size) => if size == range_of(old(self).memory_entry_pool@[id as int]).size() {
                    old(self).sized@
                } else {
                    Self::sized_with(
                        old(self).memory_entry_pool@,
                        old(self).sized@.remove(old(self).sized@.index_of(id)),
                        id,
                    )
                },
            },
    {
        if let Some(size) = old_size {
            let ghost sizes = sizes_of(self.memory_entry_pool@);
            if size == self.memory_entry_pool[id as usize].get_size() {
                assert(sizes.update(id as int, size as int) =~= sizes);
                return;
            }
            let ghost k = self.sized@.index_of(id);
            let ghost sized = self.sized@;
            proof {
                lemma_lists_basics(
                    self.memory_entry_pool@,
                    self.free_list@,
                    sized,
                    sizes.update(id as int, size as int),
                );
            }
            self.unchain_from_order(id, size);
            proof {
                let rest = self.sized@;
                assert(sizes_of(self.memory_entry_pool@) =~= sizes);
                assert forall|i: int| 0 <= i < rest.len() implies #[trigger] rest[i] != id by {
                    assert(rest[i] == sized[if i < k {
                        i
                    } else {
                        i + 1
                    }]);
                }
                lemma_lists_sizes(
                    self.memory_entry_pool@,
                    self.free_list@,
                    rest,
                    sizes.update(id as int, size as int),
                    sizes,
                );
                assert(ranges_of(self.memory_entry_pool@, rest) =~= ranges_of(
                    old(self).memory_entry_pool@,
                    rest,
                ));
            }
        }
        self.chain_to_own_order(id);
    }

    /// The chain and the free lists stand, and hold the same entries.
    pub open spec fn linked(self) -> bool {
        &&& chain_ok(self.memory_entry_pool@, self.first_entry, self.chain@)
        &&& self.listed(sizes_of(self.memory_entry_pool@))
        &&& forall|id: u32| #[trigger] self.sized@.contains(id) <==> self.chain@.contains(id)
    }

    /// The entries in use are those in the chain.
    pub open spec fn enabled_in_chain(self) -> bool {
        forall|i: int|
            0 <= i < 64 ==> (#[trigger] self.memory_entry_pool@[i]).enabled
                == self.chain@.contains(i as u32)
    }

    pub open spec fn view(&self) -> FreeMemory {
        FreeMemory {
            by_address: ranges_of(self.memory_entry_pool@, self.chain@),
            by_size: ranges_of(self.memory_entry_pool@, self.sized@),
        }
    }

    pub open spec fn wf(self) -> bool {
        &&& self.linked()
        &&& self.enabled_in_chain()
        &&& self@.separated()
        &&& self.free_size == self@.total()
    }

    /// The free range of entry `id` is gone.
    fn remove_entry(&mut self, id: u32)
        requires
            old(self).linked(),
            old(self).enabled_in_chain(),
            old(self)@.separated(),
            old(self).chain@.contains(id),
        ensures
            final(self).linked(),
            final(self).enabled_in_chain(),
            final(self)@ == old(self)@.without_range(old(self).chain@.index_of(id)),
            final(self).chain@ == old(self).chain@.remove(old(self).chain@.index_of(id)),
            final(self).free_size == old(self).free_size,
    {
        let ghost k = self.chain@.index_of(id);
        let ghost chain = self.chain@;
        let ghost sized = self.sized@;
        let ghost pool = self.memory_entry_pool@;
        proof {
            assert(sized.contains(id));
            lemma_lists_basics(pool, self.free_list@, sized, sizes_of(pool));
            lemma_index_of_range(pool, chain, sized, id);
        }
        let entry: MemoryEntry = self.memory_entry_pool[id as usize];
        assert(pool[chain[k] as int].previous == at(chain, k - 1));
        assert(pool[chain[k] as int].next == at(chain, k + 1));
        if entry.is_first_entry() {
            match Self::get_next_entry(&self.memory_entry_pool, &entry) {
                Some(next) => {
                    self.first_entry = Some(next);
                },
                None => {
                    self.first_entry = None;
                },
            }
        }
        self.unchain_entry_from_free_list(id);
        let ghost middle = self.memory_entry_pool@;
        MemoryEntry::delete(&mut self.memory_entry_pool, id);
        proof {
            let rest = sized.remove(sized.index_of(id));
            assert(chain_ok(middle, old(self).first_entry, chain)) by {
                assert forall|i: int| 0 <= i < chain.len() implies (#[trigger] middle[chain[i] as int]).next
                    == at(chain, i + 1) && middle[chain[i] as int].previous == at(chain, i - 1) by {
                    assert(pool[chain[i] as int].next == at(chain, i + 1));
                }
            }
            assert(Self::named(middle, chain)) by {
                assert forall|i: int| 0 <= i < chain.len() implies middle[#[trigger] chain[i] as int].is_range()
                    && middle[chain[i] as int].id == chain[i] by {
                    assert(sized.contains(chain[i]));
                    assert(sized[sized.index_of(chain[i])] == chain[i]);
                    assert(pool[chain[i] as int].is_range());
                }
            }
            lemma_chain_remove(middle, old(self).first_entry, chain, k);
            self.chain@ = chain.remove(k);
            let last = self.memory_entry_pool@;
            assert(sizes_of(last) =~= sizes_of(middle));
            lemma_lists_frame(middle, self.free_list@, self.sized@, sizes_of(middle), last);
            assert(Self::named(last, self.sized@));
            lemma_remove_contains(chain, k);
            lemma_remove_contains(sized, sized.index_of(id));
            assert(self@.by_address =~= old(self)@.by_address.remove(k));
            assert(self@.by_size =~= old(self)@.by_size.remove(sized.index_of(id)));
        }
    }

    /// The free range of entry `id` becomes `[start, end]`, which has another size.
    fn resize_entry(&mut self, id: u32, start: usize, end: usize)
        requires
            old(self).linked(),
            old(self)@.separated(),
            old(self).chain@.contains(id),
            start <= end < usize::MAX,
            end - start != old(self).memory_entry_pool@[id as int].end
                - old(self).memory_entry_pool@[id as int].start,
        ensures
            final(self).linked(),
            final(self)@ == old(self)@.resized(
                old(self).chain@.index_of(id),
                (Range { start: start as int, end: end as int }),
            ),
            final(self).chain@ == old(self).chain@,
            final(self).free_size == old(self).free_size,
            forall|i: int|
                0 <= i < 64 ==> (#[trigger] final(self).memory_entry_pool@[i]).enabled == old(
                    self,
                ).memory_entry_pool@[i].enabled,
            forall|i: int|
                0 <= i < 64 && !old(self).chain@.contains(i as u32) ==> (
                #[trigger] final(self).memory_entry_pool@[i]) == old(self).memory_entry_pool@[i],
    {
        let ghost chain = self.chain@;
        let ghost sized = self.sized@;
        let ghost pool = self.memory_entry_pool@;
        let ghost k = chain.index_of(id);
        let ghost sk = sized.index_of(id);
        let ghost rest = sized.remove(sk);
        proof {
            assert(sized.contains(id));
            lemma_lists_basics(pool, self.free_list@, sized, sizes_of(pool));
            lemma_index_of_range(pool, chain, sized, id);
        }
        let old_size: usize = self.memory_entry_pool[id as usize].get_size();
        self.memory_entry_pool[id as usize].set_range(start, end);
        let ghost middle = self.memory_entry_pool@;
        proof {
            assert(sizes_of(middle).update(id as int, old_size as int) =~= sizes_of(pool));
            lemma_lists_frame(pool, self.free_list@, sized, sizes_of(pool), middle);
        }
        self.chain_entry_to_free_list(id, Some(old_size));
        proof {
            lemma_remove_contains(sized, sk);
            lemma_distinct_remove(sized, sk);
            assert(ranges_of(middle, rest) =~= ranges_of(pool, sized).remove(sk)) by {
                assert forall|i: int| 0 <= i < rest.len() implies #[trigger] rest[i] != id by {
                    assert(rest.contains(rest[i]));
                }
            }
            let j = crate::free_memory::slot_from(
                ranges_of(middle, rest),
                end - start + 1,
                0,
            );
            crate::free_memory::lemma_slot_from(ranges_of(middle, rest), end - start + 1, 0);
            lemma_insert_contains(rest, j, id);
            self.lemma_relinked(*old(self));
            assert(self@.by_address =~= old(self)@.by_address.update(
                k,
                Range { start: start as int, end: end as int },
            ));
            assert(self@.by_size =~= ranges_of(middle, rest).insert(
                j,
                Range { start: start as int, end: end as int },
            )) by {
                lemma_ranges_insert(self.memory_entry_pool@, middle, rest, j, id);
            }
        }
    }

    /// The index in the chain behind entry `prev`, or the first index.
    pub open spec fn index_behind(self, prev: Option<u32>) -> int {
        match prev {
            Some(p) => self.chain@.index_of(p) + 1,
            None => 0,
        }
    }

    /// The range of entry `id`, which is in use but in no list, becomes free: behind entry
    /// `prev`, or as the first range.
    fn link_entry(&mut self, prev: Option<u32>, id: u32)
        requires
            old(self).linked(),
            !old(self).chain@.contains(id),
            id < 64,
            old(self).memory_entry_pool@[id as int].is_range(),
            old(self).memory_entry_pool@[id as int].id == id,
            old(self).memory_entry_pool@[id as int].previous is None,
            old(self).memory_entry_pool@[id as int].next is None,
            old(self).memory_entry_pool@[id as int].list_prev is None,
            old(self).memory_entry_pool@[id as int].list_next is None,
            prev is Some ==> old(self).chain@.contains(prev->0),
        ensures
            final(self).linked(),
            final(self)@ == old(self)@.with_range(
                old(self).index_behind(prev),
                range_of(old(self).memory_entry_pool@[id as int]),
            ),
            final(self).chain@ == old(self).chain@.insert(old(self).index_behind(prev), id),
            final(self).free_size == old(self).free_size,
            forall|i: int|
                0 <= i < 64 ==> (#[trigger] final(self).memory_entry_pool@[i]).enabled == old(
                    self,
                ).memory_entry_pool@[i].enabled,
    {
        let ghost chain = self.chain@;
        let ghost sized = self.sized@;
        let ghost pool = self.memory_entry_pool@;
        let ghost k = self.index_behind(prev);
        let next: Option<u32> = match prev {
            Some(p) => {
                let before: MemoryEntry = self.memory_entry_pool[p as usize];
                assert(pool[chain[k - 1] as int].next == at(chain, k));
                Self::get_next_entry(&self.memory_entry_pool, &before)
            },
            None => self.first_entry,
        };
        assert(next == at(chain, k));
        assert(prev == at(chain, k - 1));
        if let Some(n) = next {
            MemoryEntry::chain_after_me(&mut self.memory_entry_pool, id, n);
        }
        match prev {
            Some(p) => {
                MemoryEntry::chain_after_me(&mut self.memory_entry_pool, p, id);
            },
            None => {
                self.first_entry = Some(id);
            },
        }
        let ghost middle = self.memory_entry_pool@;
        proof {
            lemma_lists_basics(pool, self.free_list@, sized, sizes_of(pool));
            assert(Self::named(pool, chain)) by {
                assert forall|i: int| 0 <= i < chain.len() implies pool[#[trigger] chain[i] as int].is_range()
                    && pool[chain[i] as int].id == chain[i] by {
                    assert(sized.contains(chain[i]));
                    assert(sized[sized.index_of(chain[i])] == chain[i]);
                }
            }
            assert forall|i: int| 0 <= i < chain.len() implies #[trigger] chain[i] != id by {}
            lemma_chain_insert(pool, old(self).first_entry, chain, k, id);
            assert(middle =~= chained_in(pool, id as int, prev, next));
            self.chain@ = chain.insert(k, id);
            assert(sizes_of(middle) =~= sizes_of(pool));
            lemma_lists_frame(pool, self.free_list@, sized, sizes_of(pool), middle);
            assert(!sized.contains(id));
        }
        let ghost before = *self;
        self.chain_entry_to_free_list(id, None);
        proof {
            let j = crate::free_memory::slot_from(
                ranges_of(middle, sized),
                range_of(middle[id as int]).size(),
                0,
            );
            crate::free_memory::lemma_slot_from(
                ranges_of(middle, sized),
                range_of(middle[id as int]).size(),
                0,
            );
            assert(ranges_of(middle, sized) =~= ranges_of(pool, sized));
            lemma_insert_contains(sized, j, id);
            lemma_insert_contains(chain, k, id);
            self.lemma_relinked(before);
            lemma_ranges_insert(self.memory_entry_pool@, middle, sized, j, id);
            assert(ranges_of(middle, chain) =~= ranges_of(pool, chain));
            lemma_ranges_insert(self.memory_entry_pool@, middle, chain, k, id);
        }
    }

    pub fn new() -> (allocator: Self)
        ensures
            allocator.wf(),
            allocator@ == FreeMemory::empty(),
    {
        let allocator = Self {
            free_size: 0,
            first_entry: None,
            free_list: [None; 12],
            memory_entry_pool: [MemoryEntry::new(); 64],
            chain: Ghost(Seq::empty()),
            sized: Ghost(Seq::empty()),
        };
        proof {
            reveal(lists_ok);
        }
        allocator
    }

    /// The entry whose range contains `address`.
    pub fn search_entry_containing_address_mut(&self, address: usize) -> (found: Option<u32>)
        requires
            self.linked(),
            self@.separated(),
        ensures
            match found {
                Some(id) => {
                    &&& self.chain@.contains(id)
                    &&& self@.by_address[self.chain@.index_of(id)].contains(address as int)
                },
                None => !self@.is_free(address as int),
            },
    {
        let ghost chain = self.chain@;
        let ghost pool = self.memory_entry_pool@;
        let mut entry: u32 = match self.first_entry {
            Some(first) => first,
            None => {
                return None;
            },
        };
        let ghost mut c: int = 0;
        while self.memory_entry_pool[entry as usize].get_start_address() < address
            && self.memory_entry_pool[entry as usize].get_end_address() < address
            invariant
                self.linked(),
                self@.separated(),
                chain == self.chain@,
                pool == self.memory_entry_pool@,
                0 <= c < chain.len(),
                entry == chain[c],
                entry < 64,
                forall|i: int| 0 <= i < c ==> (#[trigger] self@.by_address[i]).end < address,
            decreases chain.len() - c,
        {
            assert(pool[chain[c] as int].next == at(chain, c + 1));
            assert(self@.by_address[c].end < address);
            match Self::get_next_entry(
                &self.memory_entry_pool,
                &self.memory_entry_pool[entry as usize],
            ) {
                Some(next) => {
                    entry = next;
                    proof {
                        c = c + 1;
                    }
                },
                None => {
                    return None;
                },
            }
        }
        let found: MemoryEntry = self.memory_entry_pool[entry as usize];
        assert(self@.by_address[c] == range_of(found));
        if address >= found.get_start_address() && address <= found.get_end_address() {
            assert(chain[c] == entry);
            assert(chain.contains(entry));
            assert(chain.index_of(entry) == c);
            Some(entry)
        } else {
            None
        }
    }

    /// Where a range at `address` goes in the chain: behind the last entry that starts below
    /// `address`, or behind the one before it where that is the last of all and reaches beyond
    /// `address`.
    pub open spec fn index_before(self, address: int) -> int {
        let i = crate::free_memory::index_from(self@.by_address, address, 0);
        if i == self.chain@.len() && i > 0 && self@.by_address[i - 1].end > address {
            i - 2
        } else {
            i - 1
        }
    }

    pub fn search_entry_previous_address_mut(&self, address: usize) -> (found: Option<u32>)
        requires
            self.linked(),
        ensures
            found == at(self.chain@, self.index_before(address as int)),
    {
        let ghost chain = self.chain@;
        let ghost pool = self.memory_entry_pool@;
        let mut entry: u32 = match self.first_entry {
            Some(first) => first,
            None => {
                return None;
            },
        };
        let ghost mut c: int = 0;
        while self.memory_entry_pool[entry as usize].get_start_address() < address
            invariant
                self.linked(),
                chain == self.chain@,
                pool == self.memory_entry_pool@,
                0 <= c < chain.len(),
                entry == chain[c],
                entry < 64,
                crate::free_memory::index_from(self@.by_address, address as int, 0)
                    == crate::free_memory::index_from(self@.by_address, address as int, c),
            decreases chain.len() - c,
        {
            assert(pool[chain[c] as int].next == at(chain, c + 1));
            assert(pool[chain[c] as int].previous == at(chain, c - 1));
            assert(self@.by_address[c] == range_of(pool[entry as int]));
            match Self::get_next_entry(
                &self.memory_entry_pool,
                &self.memory_entry_pool[entry as usize],
            ) {
                Some(next) => {
                    entry = next;
                    proof {
                        c = c + 1;
                    }
                },
                None => {
                    assert(crate::free_memory::index_from(self@.by_address, address as int, c + 1)
                        == c + 1);
                    return if self.memory_entry_pool[entry as usize].get_end_address() <= address {
                        Some(entry)
                    } else {
                        Self::get_prev_entry(
                            &self.memory_entry_pool,
                            &self.memory_entry_pool[entry as usize],
                        )
                    };
                },
            }
        }
        assert(pool[chain[c] as int].previous == at(chain, c - 1));
        assert(self@.by_address[c] == range_of(pool[entry as int]));
        Self::get_prev_entry(&self.memory_entry_pool, &self.memory_entry_pool[entry as usize])
    }

    pub fn align_address_and_size(
        address: usize,
        size: usize,
        align_order: usize,
    ) -> (aligned: (usize, usize))
        requires
            align_order < usize::BITS,
            size > 0,
            size + (address - crate::bits::align_down(address as int, align_order as nat))
                <= usize::MAX,
            crate::bits::aligned_size(address as int, size as int, align_order as nat)
                <= usize::MAX,
        ensures
            aligned.0 == crate::bits::align_down(address as int, align_order as nat),
            aligned.1 == crate::bits::aligned_size(
                address as int,
                size as int,
                align_order as nat,
            ),
    {
        proof {
            crate::bits::lemma_mask_aligns_down(address, align_order);
            crate::bits::lemma_align_down(address as int, align_order as nat);
        }
        let align_size: usize = 1usize << align_order;
        let mask: usize = !(align_size - 1);
        let aligned_address: usize = address & mask;
        let last: usize = size + (address - aligned_address) - 1;
        proof {
            crate::bits::lemma_mask_aligns_down(last, align_order);
        }
        (aligned_address, (last & mask) + align_size)
    }

    pub fn align_address_and_available_size(
        start: usize,
        size: usize,
        align_order: usize,
    ) -> (aligned: (usize, usize))
        requires
            start != 0 ==> align_order < usize::BITS,
            start != 0 ==> crate::bits::align_up(start as int, align_order as nat) <= usize::MAX,
        ensures
            aligned.0 == crate::bits::align_up(start as int, align_order as nat),
            aligned.1 == (if start + size > aligned.0 {
                start + size - aligned.0
            } else {
                0
            }),
    {
        if start == 0 {
            (0, size)
        } else {
            proof {
                crate::bits::lemma_mask_aligns_down((start - 1) as usize, align_order);
                crate::bits::lemma_align_up(start as int, align_order as nat);
            }
            let align_size: usize = 1usize << align_order;
            let mask: usize = !(align_size - 1);
            let aligned_address: usize = ((start - 1) & mask) + align_size;
            if size > (aligned_address - start) {
                (aligned_address, size - (aligned_address - start))
            } else {
                (aligned_address, 0)
            }
        }
    }

    /// Rounding the request outwards, and its end, stay inside the machine word.
    pub open spec fn can_reserve(self, start: int, size: int, align_order: nat) -> bool {
        let aligned_start = crate::bits::align_down(start, align_order);
        let aligned_size = crate::bits::aligned_size(start, size, align_order);
        0 < size <= self.free_size ==> if align_order == 0 {
            self@.is_free(start) ==> start + size <= usize::MAX
        } else {
            &&& align_order < usize::BITS
            &&& size + (start - aligned_start) <= usize::MAX
            &&& aligned_size <= usize::MAX
            &&& self@.is_free(aligned_start) && aligned_size <= self.free_size ==> aligned_start
                + aligned_size <= usize::MAX
        }
    }

    /// Takes `size` bytes at `start` into use, both rounded outwards to `2^align_order`, out of
    /// the range of entry `target_entry`, where it is given.
    pub fn define_used_memory(
        &mut self,
        start: usize,
        size: usize,
        align_order: usize,
        target_entry: Option<u32>,
    ) -> (result: Result<(), MemoryError>)
        requires
            old(self).wf(),
            old(self).can_reserve(start as int, size as int, align_order as nat),
            target_entry is Some ==> {
                &&& old(self).chain@.contains(target_entry->0)
                &&& range_of(old(self).memory_entry_pool@[target_entry->0 as int]).contains(
                    if align_order == 0 {
                        start as int
                    } else {
                        crate::bits::align_down(start as int, align_order as nat)
                    },
                )
            },
        ensures
            final(self).wf(),
            match old(self)@.reserved(start as int, size as int, align_order as nat) {
                Ok(memory) => result is Ok && final(self)@ == memory,
                Err(error) => result == Err::<(), MemoryError>(error) && final(self)@ == old(
                    self,
                )@,
            },
        decreases align_order,
    {
        if size == 0 {
            return Err(MemoryError::InvalidRequest);
        } else if self.free_size < size {
            return Err(MemoryError::NoMemory);
        }
        if align_order != 0 {
            proof {
                crate::bits::lemma_align_down(start as int, align_order as nat);
                crate::bits::lemma_align_down(
                    size + (start - crate::bits::align_down(start as int, align_order as nat)) - 1,
                    align_order as nat,
                );
            }
            let (aligned_start, aligned_size) = Self::align_address_and_size(
                start,
                size,
                align_order,
            );
            return self.define_used_memory(aligned_start, aligned_size, 0, target_entry);
        }
        let id: u32 = match target_entry {
            Some(t) => t,
            None => match self.search_entry_containing_address_mut(start) {
                Some(t) => t,
                None => {
                    return Err(MemoryError::InvalidRequest);
                },
            },
        };
        let ghost k = self.chain@.index_of(id);
        proof {
            assert(self@.by_address[k] == range_of(self.memory_entry_pool@[id as int]));
            lemma_index_of_address(self@, k, start as int);
            assert(id < 64);
        }
        let entry: MemoryEntry = self.memory_entry_pool[id as usize];
        let end: usize = if entry.get_end_address() < get_end_address(start, size) {
            entry.get_end_address()
        } else {
            get_end_address(start, size)
        };
        self.carve(id, start, end)
    }

    /// Takes `[start, end]`, a part of the range of entry `id`, into use.
    #[verifier::rlimit(60)]
    fn carve(&mut self, id: u32, start: usize, end: usize) -> (result: Result<(), MemoryError>)
        requires
            old(self).wf(),
            old(self).chain@.contains(id),
            old(self).memory_entry_pool@[id as int].start <= start <= end
                <= old(self).memory_entry_pool@[id as int].end,
        ensures
            final(self).wf(),
            ({
                let k = old(self).chain@.index_of(id);
                if old(self)@.splits(k, start as int, end as int) && old(self)@.is_full() {
                    &&& result == Err::<(), MemoryError>(MemoryError::NoEntry)
                    &&& final(self)@ == old(self)@
                } else {
                    &&& result is Ok
                    &&& final(self)@ == old(self)@.carved(k, start as int, end as int)
                }
            }),
    {
        let ghost before = *self;
        let ghost k = self.chain@.index_of(id);
        proof {
            assert(self@.by_address[k] == range_of(self.memory_entry_pool@[id as int]));
            crate::free_memory::lemma_total_bounds(self@);
            crate::free_memory::lemma_carved(self@, k, start as int, end as int);
            lemma_pool_full(before);
        }
        let entry: MemoryEntry = self.memory_entry_pool[id as usize];
        if entry.get_start_address() == start {
            if entry.get_end_address() == end {
                self.remove_entry(id);
            } else {
                self.resize_entry(id, end + 1, entry.get_end_address());
                proof {
                    self.lemma_same_enabled(before);
                }
            }
        } else if entry.get_end_address() == end {
            self.resize_entry(id, entry.get_start_address(), start - 1);
            proof {
                self.lemma_same_enabled(before);
            }
        } else {
            let new_id: u32 = match Self::create_memory_entry(&mut self.memory_entry_pool) {
                Ok(new_id) => new_id,
                Err(error) => {
                    assert(self.memory_entry_pool@ == before.memory_entry_pool@);
                    return Err(error);
                },
            };
            self.memory_entry_pool[new_id as usize].set_range(end + 1, entry.get_end_address());
            proof {
                assert(self.memory_entry_pool@ =~= before.memory_entry_pool@.update(
                    new_id as int,
                    self.memory_entry_pool@[new_id as int],
                ));
                self.lemma_created(before, new_id);
            }
            self.resize_entry(id, entry.get_start_address(), start - 1);
            self.link_entry(Some(id), new_id);
            proof {
                lemma_insert_contains(before.chain@, k + 1, new_id);
            }
        }
        self.free_size = self.free_size - (end - start + 1);
        Ok(())
    }

    /// Makes `size` bytes at `start` free where some memory is free already.
    #[verifier::rlimit(60)]
    pub fn define_free_memory(&mut self, start: usize, size: usize) -> (result: Result<
        (),
        MemoryError,
    >)
        requires
            old(self).wf(),
            old(self).chain@.len() > 0,
            size > 0 ==> start + size <= usize::MAX,
            size > 0 ==> !(old(self)@.free_effect(
                (Range { start: start as int, end: start + size - 1 }),
            ) is Unsupported),
        ensures
            final(self).wf(),
            match old(self)@.freed(start as int, size as int) {
                Ok(memory) => result is Ok && final(self)@ == memory,
                Err(error) => result == Err::<(), MemoryError>(error) && final(self)@ == old(
                    self,
                )@,
            },
        decreases
                if old(self)@.is_disjoint((Range { start: start as int, end: start + size - 1 })) {
                    0int
                } else {
                    1int
                },
    {
        if size == 0 {
            return Err(MemoryError::InvalidRequest);
        }
        let ghost before = self@;
        let ghost ranges = self@.by_address;
        let ghost chain = self.chain@;
        let ghost request = Range { start: start as int, end: start + size - 1 };
        let ghost i = crate::free_memory::index_from(ranges, start as int, 0);
        proof {
            crate::free_memory::lemma_index_from(ranges, start as int, 0);
            if before.free_effect(request) is Added {
                crate::free_memory::lemma_added_is_disjoint(before, request);
                crate::free_memory::lemma_disjoint_is_added(
                    before,
                    before.free_effect(request)->Added_0,
                );
            }
        }
        let id: u32 = match self.search_entry_previous_address_mut(start) {
            Some(found) => found,
            None => match self.first_entry {
                Some(first) => first,
                None => {
                    return Err(MemoryError::InvalidEntry);
                },
            },
        };
        let ghost k = if self.index_before(start as int) >= 0 {
            self.index_before(start as int)
        } else {
            0
        };
        let end: usize = get_end_address(start, size);
        proof {
            assert(chain[k] == id);
            assert(chain.contains(id));
            assert(chain.index_of(id) == k);
            assert(ranges[k] == range_of(self.memory_entry_pool@[id as int]));
            assert(self.memory_entry_pool@[chain[k] as int].next == at(chain, k + 1));
            assert(self.memory_entry_pool@[chain[k] as int].previous == at(chain, k - 1));
        }
        let entry: MemoryEntry = self.memory_entry_pool[id as usize];
        if entry.get_start_address() <= start && entry.get_end_address() >= end {
            return Err(MemoryError::InvalidRequest);
        } else if entry.get_end_address() >= start && !entry.is_first_entry() {
            return self.define_free_memory(
                entry.get_end_address() + 1,
                end - entry.get_end_address(),
            );
        } else if entry.get_end_address() == end {
            return self.define_free_memory(start, size - entry.get_size());
        }
        let next: Option<u32> = Self::get_next_entry(&self.memory_entry_pool, &entry);
        if let Some(n) = next {
            assert(ranges[k + 1] == range_of(self.memory_entry_pool@[n as int]));
            let next_entry: MemoryEntry = self.memory_entry_pool[n as usize];
            if next_entry.get_start_address() <= start {
                return if next_entry.get_end_address() >= end {
                    Err(MemoryError::InvalidRequest)
                } else {
                    self.define_free_memory(
                        next_entry.get_end_address() + 1,
                        end - next_entry.get_end_address(),
                    )
                };
            }
        }
        assert(before.free_effect(request) == FreeEffect::Added(request));
        assert(before.is_disjoint(request));
        self.add_range(id, start, end)
    }

    /// Makes `[start, end]`, none of which is free, free. Entry `id` is the one before it, or
    /// the first one where there is none before it.
    #[verifier::rlimit(60)]
    fn add_range(&mut self, id: u32, start: usize, end: usize) -> (result: Result<
        (),
        MemoryError,
    >)
        requires
            old(self).wf(),
            old(self).chain@.contains(id),
            start <= end < usize::MAX,
            old(self)@.is_disjoint((Range { start: start as int, end: end as int })),
            ({
                let i = crate::free_memory::index_from(old(self)@.by_address, start as int, 0);
                old(self).chain@.index_of(id) == if i > 0 {
                    i - 1
                } else {
                    0
                }
            }),
        ensures
            final(self).wf(),
            ({
                let range = Range { start: start as int, end: end as int };
                if old(self)@.is_full() && !old(self)@.joins_left(range) && !old(
                    self,
                )@.joins_right(range) {
                    result == Err::<(), MemoryError>(MemoryError::NoEntry) && final(self)@ == old(
                        self,
                    )@
                } else {
                    result is Ok && final(self)@ == old(self)@.joined(range)
                }
            }),
    {
        let ghost before = *self;
        let ghost range = Range { start: start as int, end: end as int };
        let ghost chain = self.chain@;
        let ghost k = chain.index_of(id);
        let ghost i = crate::free_memory::index_from(self@.by_address, start as int, 0);
        proof {
            crate::free_memory::lemma_disjoint_position(self@, range);
            crate::free_memory::lemma_joined(self@, range);
            crate::free_memory::lemma_total_bounds(self@.joined(range));
            crate::free_memory::lemma_total_bounds(self@);
            assert(self@.by_address[k] == range_of(self.memory_entry_pool@[id as int]));
            assert(self.memory_entry_pool@[chain[k] as int].next == at(chain, k + 1));
            lemma_pool_full(before);
        }
        let entry: MemoryEntry = self.memory_entry_pool[id as usize];
        let next: Option<u32> = Self::get_next_entry(&self.memory_entry_pool, &entry);
        let starts_before: bool = entry.get_start_address() > start;
        let joins_left: bool = !starts_before && entry.get_end_address() + 1 == start;
        let right: Option<u32> = if starts_before {
            Some(id)
        } else {
            next
        };
        assert(right == at(chain, i));
        if let Some(r) = right {
            assert(self@.by_address[i] == range_of(self.memory_entry_pool@[r as int]));
            assert(chain[i] == r);
            assert(chain.contains(r));
            assert(chain.index_of(r) == i);
            assert(self.memory_entry_pool@[r as int].is_range());
        }
        let right_end: Option<usize> = match right {
            Some(r) => {
                let after: MemoryEntry = self.memory_entry_pool[r as usize];
                if after.get_start_address() == end + 1 {
                    Some(after.get_end_address())
                } else {
                    None
                }
            },
            None => None,
        };
        match (joins_left, right, right_end) {
            (true, Some(r), Some(right_end)) => {
                self.remove_entry(r);
                proof {
                    lemma_remove_contains(chain, i);
                    lemma_without_range(before@, i);
                    assert(self.chain@[k] == id);
                    assert(self.chain@.contains(id));
                    lemma_distinct_remove(chain, i);
                    assert(self.chain@.index_of(id) == k);
                    assert(self@.by_address[k] == range_of(self.memory_entry_pool@[id as int]));
                }
                let ghost middle = *self;
                self.resize_entry(id, entry.get_start_address(), right_end);
                proof {
                    self.lemma_same_enabled(middle);
                }
            },
            (true, _, _) => {
                self.resize_entry(id, entry.get_start_address(), end);
                proof {
                    self.lemma_same_enabled(before);
                }
            },
            (false, Some(r), Some(right_end)) => {
                self.resize_entry(r, start, right_end);
                proof {
                    self.lemma_same_enabled(before);
                }
            },
            (false, _, _) => {
                let new_id: u32 = match Self::create_memory_entry(&mut self.memory_entry_pool) {
                    Ok(new_id) => new_id,
                    Err(error) => {
                        assert(self.memory_entry_pool@ == before.memory_entry_pool@);
                        return Err(error);
                    },
                };
                self.memory_entry_pool[new_id as usize].set_range(start, end);
                proof {
                    assert(self.memory_entry_pool@ =~= before.memory_entry_pool@.update(
                        new_id as int,
                        self.memory_entry_pool@[new_id as int],
                    ));
                    self.lemma_created(before, new_id);
                }
                if starts_before {
                    self.link_entry(None, new_id);
                } else {
                    self.link_entry(Some(id), new_id);
                }
                proof {
                    lemma_insert_contains(chain, i, new_id);
                }
            },
        }
        self.free_size = self.free_size + (end - start + 1);
        Ok(())
    }

    /// Rounding up the start of each range that is tried stays inside the machine word.
    pub open spec fn can_allocate(self, size: int, align_order: nat, address_limit: int) -> bool {
        let ranges = self@.by_size;
        let last = crate::free_memory::fit_from(ranges, size, align_order, address_limit, 0);
        0 < size <= self.free_size ==> forall|i: int|
            0 <= i <= last && i < ranges.len() ==> (#[trigger] ranges[i]).can_be_aligned(
                size,
                align_order,
                address_limit,
            )
    }

    pub fn allocate(&mut self, size: usize, align_order: usize) -> (result: Result<
        usize,
        MemoryError,
    >)
        requires
            old(self).wf(),
            old(self).can_allocate(size as int, align_order as nat, usize::MAX as int),
        ensures
            final(self).wf(),
            match old(self)@.allocated(size as int, align_order as nat, usize::MAX as int) {
                Ok((address, memory)) => {
                    &&& result matches Ok(found) && found == address
                    &&& final(self)@ == memory
                },
                Err(error) => result == Err::<usize, MemoryError>(error) && final(self)@ == old(
                    self,
                )@,
            },
    {
        self.allocate_with_address_limit(size, align_order, usize::MAX)
    }

    /// Like [`allocate`](Self::allocate), but the returned region lies entirely below
    /// `address_limit`, for buffers that are handed to DMA engines with a limited reach.
    pub fn allocate_below(
        &mut self,
        size: usize,
        align_order: usize,
        address_limit: usize,
    ) -> (result: Result<usize, MemoryError>)
        requires
            old(self).wf(),
            old(self).can_allocate(size as int, align_order as nat, address_limit as int),
        ensures
            final(self).wf(),
            match old(self)@.allocated(size as int, align_order as nat, address_limit as int) {
                Ok((address, memory)) => {
                    &&& result matches Ok(found) && found == address
                    &&& final(self)@ == memory
                },
                Err(error) => result == Err::<usize, MemoryError>(error) && final(self)@ == old(
                    self,
                )@,
            },
    {
        self.allocate_with_address_limit(size, align_order, address_limit)
    }

    /// Where a block goes in the range of `entry`.
    fn place(
        entry: &MemoryEntry,
        size: usize,
        align_order: usize,
        address_limit: usize,
    ) -> (address: Option<usize>)
        requires
            entry.is_range(),
            size > 0,
            range_of(*entry).can_be_aligned(
                size as int,
                align_order as nat,
                address_limit as int,
            ),
        ensures
            match range_of(*entry).placement(
                size as int,
                align_order as nat,
                address_limit as int,
            ) {
                Some(found) => address matches Some(a) && a == found,
                None => address is None,
            },
    {
        let start: usize = entry.get_start_address();
        let available_size: usize = if address_limit <= start {
            0
        } else if entry.get_end_address() < address_limit {
            entry.get_end_address() - start + 1
        } else {
            address_limit - start
        };
        proof {
            crate::bits::lemma_align_up(start as int, align_order as nat);
        }
        if available_size >= size {
            if align_order != 0 {
                let (aligned_address, aligned_available_size) =
                    Self::align_address_and_available_size(start, available_size, align_order);
                if aligned_available_size < size {
                    None
                } else {
                    Some(aligned_address)
                }
            } else {
                Some(start)
            }
        } else {
            None
        }
    }

    /// The first entry, in the order in which the free lists are walked, that takes a block,
    /// and where the block goes in it.
    fn find_entry(&self, size: usize, align_order: usize, address_limit: usize) -> (found: Option<
        (u32, usize),
    >)
        requires
            self.wf(),
            0 < size <= self.free_size,
            self.can_allocate(size as int, align_order as nat, address_limit as int),
        ensures
            ({
                let ranges = self@.by_size;
                let i = crate::free_memory::fit_from(
                    ranges,
                    size as int,
                    align_order as nat,
                    address_limit as int,
                    0,
                );
                if i < ranges.len() {
                    &&& found matches Some((id, address))
                    &&& id == self.sized@[i]
                    &&& ranges[i].placement(
                        size as int,
                        align_order as nat,
                        address_limit as int,
                    ) == Some(address as int)
                } else {
                    found is None
                }
            }),
    {
        let ghost pool = self.memory_entry_pool@;
        let ghost sized = self.sized@;
        let ghost sizes = sizes_of(pool);
        let ghost ranges = self@.by_size;
        let ghost al = align_order as nat;
        let ghost fit = crate::free_memory::fit_from(
            ranges,
            size as int,
            al,
            address_limit as int,
            0,
        );
        let first_order: usize = Self::size_to_page_order(size);
        proof {
            crate::free_memory::lemma_fit_from(ranges, size as int, al, address_limit as int, 0);
            lemma_lists_basics(pool, self.free_list@, sized, sizes);
            lemma_list_start(sized, sizes, first_order as int, 0);
            lemma_page_order(size as int, 0);
            assert forall|i: int| 0 <= i < list_start_from(sized, sizes, first_order as int, 0)
                implies (#[trigger] ranges[i]).placement(size as int, al, address_limit as int)
                is None by {
                assert(ranges[i].size() == sizes[sized[i] as int]);
                lemma_page_order(size as int, sizes[sized[i] as int]);
            }
        }
        let mut order: usize = first_order;
        while order < Self::NUM_OF_FREE_LIST
            invariant
                self.wf(),
                pool == self.memory_entry_pool@,
                sized == self.sized@,
                sizes == sizes_of(pool),
                ranges == self@.by_size,
                al == align_order as nat,
                0 < size <= self.free_size,
                self.can_allocate(size as int, al, address_limit as int),
                fit == crate::free_memory::fit_from(
                    ranges,
                    size as int,
                    al,
                    address_limit as int,
                    0,
                ),
                0 <= fit <= ranges.len(),
                fit < ranges.len() ==> ranges[fit].placement(
                    size as int,
                    al,
                    address_limit as int,
                ) is Some,
                0 <= order <= 12,
                list_start_from(sized, sizes, order as int, 0) <= fit,
            decreases 12 - order,
        {
            let ghost b = list_start_from(sized, sizes, order as int, 0);
            let ghost mut c: int = b;
            proof {
                lemma_lists_basics(pool, self.free_list@, sized, sizes);
                lemma_head(sized, sizes, order as int);
                lemma_lists_at(pool, self.free_list@, sized, sizes, b, order as int);
                assert(self.free_list@[order as int] == list_head(sized, sizes, order as int));
            }
            let mut entry: Option<u32> = self.free_list[order];
            while entry.is_some()
                invariant
                    self.wf(),
                    pool == self.memory_entry_pool@,
                    sized == self.sized@,
                    sizes == sizes_of(pool),
                    ranges == self@.by_size,
                    al == align_order as nat,
                    0 < size <= self.free_size,
                    self.can_allocate(size as int, al, address_limit as int),
                    fit == crate::free_memory::fit_from(
                        ranges,
                        size as int,
                        al,
                        address_limit as int,
                        0,
                    ),
                    0 <= fit <= ranges.len(),
                    fit < ranges.len() ==> ranges[fit].placement(
                        size as int,
                        al,
                        address_limit as int,
                    ) is Some,
                    0 <= order < 12,
                    0 <= b <= c <= sized.len(),
                    c <= fit,
                    forall|i: int|
                        0 <= i < c ==> page_order(sizes[#[trigger] sized[i] as int]) <= order,
                    entry == (if c < sized.len() && page_order(sizes[sized[c] as int]) == order {
                        Some(sized[c])
                    } else {
                        None::<u32>
                    }),
                    c < sized.len() ==> page_order(sizes[sized[c] as int]) >= order,
                decreases sized.len() - c,
            {
                let id: u32 = match entry {
                    Some(id) => id,
                    None => {
                        return None;
                    },
                };
                proof {
                    lemma_lists_basics(pool, self.free_list@, sized, sizes);
                    lemma_lists_at(pool, self.free_list@, sized, sizes, c, order as int);
                    assert(ranges[c] == range_of(pool[id as int]));
                    assert(ranges[c].can_be_aligned(size as int, al, address_limit as int));
                    assert(pool[sized[c] as int].is_range());
                }
                let e: MemoryEntry = self.memory_entry_pool[id as usize];
                if let Some(address) = Self::place(&e, size, align_order, address_limit) {
                    proof {
                        lemma_fit_is(ranges, size as int, al, address_limit as int, c);
                    }
                    return Some((id, address));
                }
                entry = e.list_next;
                proof {
                    if c + 1 < sized.len() {
                        assert(sizes[sized[c] as int] <= sizes[sized[c + 1] as int]);
                        lemma_page_order(sizes[sized[c] as int], sizes[sized[c + 1] as int]);
                    }
                    c = c + 1;
                }
            }
            proof {
                lemma_list_start_is(sized, sizes, order as int + 1, c);
            }
            order = order + 1;
        }
        proof {
            lemma_list_start(sized, sizes, 12, 0);
            let b = list_start_from(sized, sizes, 12, 0);
            if b < sized.len() {
                lemma_page_order(sizes[sized[b] as int], 0);
            }
        }
        None
    }

    pub fn allocate_with_address_limit(
        &mut self,
        size: usize,
        align_order: usize,
        address_limit: usize,
    ) -> (result: Result<usize, MemoryError>)
        requires
            old(self).wf(),
            old(self).can_allocate(size as int, align_order as nat, address_limit as int),
        ensures
            final(self).wf(),
            match old(self)@.allocated(size as int, align_order as nat, address_limit as int) {
                Ok((address, memory)) => {
                    &&& result matches Ok(found) && found == address
                    &&& final(self)@ == memory
                },
                Err(error) => result == Err::<usize, MemoryError>(error) && final(self)@ == old(
                    self,
                )@,
            },
    {
        if size == 0 {
            return Err(MemoryError::InvalidRequest);
        } else if self.free_size < size {
            return Err(MemoryError::NoMemory);
        }
        match self.find_entry(size, align_order, address_limit) {
            Some((id, address)) => {
                proof {
                    let i = crate::free_memory::fit_from(
                        self@.by_size,
                        size as int,
                        align_order as nat,
                        address_limit as int,
                        0,
                    );
                    crate::free_memory::lemma_fit_from(
                        self@.by_size,
                        size as int,
                        align_order as nat,
                        address_limit as int,
                        0,
                    );
                    assert(self@.by_size[i] == range_of(self.memory_entry_pool@[id as int]));
                    assert(self.sized@.contains(id));
                    lemma_lists_basics(
                        self.memory_entry_pool@,
                        self.free_list@,
                        self.sized@,
                        sizes_of(self.memory_entry_pool@),
                    );
                    crate::bits::lemma_align_up(
                        self@.by_size[i].start,
                        align_order as nat,
                    );
                }
                match self.define_used_memory(address, size, 0, Some(id)) {
                    Ok(()) => Ok(address),
                    Err(error) => Err(error),
                }
            },
            None => Err(MemoryError::NoMemory),
        }
    }

    /// Takes `size` bytes at `start_address` into use. What lies beyond the free range that
    /// holds the start is in use already.
    pub fn reserve_memory(
        &mut self,
        start_address: usize,
        size: usize,
        align_order: usize,
    ) -> (result: Result<(), MemoryError>)
        requires
            old(self).wf(),
            old(self).can_reserve(start_address as int, size as int, align_order as nat),
        ensures
            final(self).wf(),
            match old(self)@.reserved(start_address as int, size as int, align_order as nat) {
                Ok(memory) => result is Ok && final(self)@ == memory,
                Err(error) => result == Err::<(), MemoryError>(error) && final(self)@ == old(
                    self,
                )@,
            },
    {
        self.define_used_memory(start_address, size, align_order, None)
    }

    /// The request ends inside the machine word, and the bookkeeping survives it.
    pub open spec fn can_free(self, start: int, size: int) -> bool {
        &&& start + size <= usize::MAX
        &&& self.free_size == 0 ==> size > 0
        &&& self.free_size > 0 && size > 0 ==> !(self@.free_effect(
            (Range { start, end: start + size - 1 }),
        ) is Unsupported)
    }

    /// Makes `size` bytes at `start` free.
    pub fn free(&mut self, start: usize, size: usize) -> (result: Result<(), MemoryError>)
        requires
            old(self).wf(),
            old(self).can_free(start as int, size as int),
        ensures
            final(self).wf(),
            match old(self)@.freed(start as int, size as int) {
                Ok(memory) => result is Ok && final(self)@ == memory,
                Err(error) => result == Err::<(), MemoryError>(error) && final(self)@ == old(
                    self,
                )@,
            },
    {
        proof {
            crate::free_memory::lemma_total_bounds(self@);
        }
        if self.free_size == 0 {
            let ghost before = *self;
            let ghost range = Range { start: start as int, end: start + size - 1 };
            proof {
                lemma_pool_full(before);
                crate::free_memory::lemma_joined(before@, range);
                assert(before@.by_address.len() == 0);
            }
            let first: u32 = match Self::create_memory_entry(&mut self.memory_entry_pool) {
                Ok(first) => first,
                Err(error) => {
                    return Err(error);
                },
            };
            self.memory_entry_pool[first as usize].set_range(start, get_end_address(start, size));
            proof {
                assert(self.memory_entry_pool@ =~= before.memory_entry_pool@.update(
                    first as int,
                    self.memory_entry_pool@[first as int],
                ));
                self.lemma_created(before, first);
            }
            self.link_entry(None, first);
            proof {
                lemma_insert_contains(before.chain@, 0, first);
            }
            self.free_size = size;
            Ok(())
        } else {
            self.define_free_memory(start, size)
        }
    }

    /// The enabled flags still match the chain.
    proof fn lemma_same_enabled(self, other: Self)
        requires
            other.enabled_in_chain(),
            self.chain@ == other.chain@,
            forall|i: int|
                0 <= i < 64 ==> (#[trigger] self.memory_entry_pool@[i]).enabled
                    == other.memory_entry_pool@[i].enabled,
        ensures
            self.enabled_in_chain(),
    {
    }

    /// Taking an unused entry into use leaves the lists and the free memory as they were.
    proof fn lemma_created(self, other: Self, id: u32)
        requires
            other.linked(),
            other.enabled_in_chain(),
            id < 64,
            !other.memory_entry_pool@[id as int].enabled,
            self.memory_entry_pool@ == other.memory_entry_pool@.update(
                id as int,
                self.memory_entry_pool@[id as int],
            ),
            self.memory_entry_pool@[id as int].enabled,
            self.chain@ == other.chain@,
            self.sized@ == other.sized@,
            self.free_list@ == other.free_list@,
            self.first_entry == other.first_entry,
        ensures
            self.linked(),
            self@ == other@,
            !self.chain@.contains(id),
            forall|i: int|
                0 <= i < 64 ==> (#[trigger] self.memory_entry_pool@[i]).enabled == (
                other.chain@.contains(i as u32) || i == id),
    {
        let pool = other.memory_entry_pool@;
        let new_pool = self.memory_entry_pool@;
        let chain = self.chain@;
        let sized = self.sized@;
        assert(!chain.contains(id));
        assert(!sized.contains(id));
        lemma_lists_basics(pool, self.free_list@, sized, sizes_of(pool));
        assert forall|i: int| 0 <= i < sized.len() implies #[trigger] sized[i] != id by {}
        lemma_lists_frame(pool, self.free_list@, sized, sizes_of(pool), new_pool);
        lemma_lists_sizes(new_pool, self.free_list@, sized, sizes_of(pool), sizes_of(new_pool));
        assert forall|i: int| 0 <= i < chain.len() implies (#[trigger] new_pool[chain[i] as int])
            == pool[chain[i] as int] by {
            assert(chain.contains(chain[i]));
        }
        assert forall|i: int| 0 <= i < chain.len() implies (#[trigger] new_pool[chain[i] as int]).next
            == at(chain, i + 1) && new_pool[chain[i] as int].previous == at(chain, i - 1) by {
            assert(pool[chain[i] as int].next == at(chain, i + 1));
        }
        assert(self@.by_address =~= other@.by_address);
        assert(self@.by_size =~= other@.by_size);
    }

    /// New free-list links and new ranges leave the chain as it was.
    proof fn lemma_relinked(self, other: Self)
        requires
            chain_ok(other.memory_entry_pool@, other.first_entry, other.chain@),
            self.chain@ == other.chain@,
            self.first_entry == other.first_entry,
            self.memory_entry_pool@.len() == 64,
            forall|i: int|
                0 <= i < 64 ==> {
                    &&& (#[trigger] self.memory_entry_pool@[i]).next
                        == other.memory_entry_pool@[i].next
                    &&& self.memory_entry_pool@[i].previous == other.memory_entry_pool@[i].previous
                },
        ensures
            chain_ok(self.memory_entry_pool@, self.first_entry, self.chain@),
    {
        let chain = self.chain@;
        let pool = self.memory_entry_pool@;
        assert forall|i: int| 0 <= i < chain.len() implies (#[trigger] pool[chain[i] as int]).next
            == at(chain, i + 1) && pool[chain[i] as int].previous == at(chain, i - 1) by {
            assert(other.memory_entry_pool@[chain[i] as int].next == at(chain, i + 1));
        }
    }
}

/// Inserting an id inserts its range.
proof fn lemma_ranges_insert(
    new_pool: Seq<MemoryEntry>,
    pool: Seq<MemoryEntry>,
    ids: Seq<u32>,
    j: int,
    id: u32,
)
    requires
        pool.len() == 64,
        distinct(ids),
        id < 64,
        same_but_lists(new_pool, pool),
        0 <= j <= ids.len(),
    ensures
        ranges_of(new_pool, ids.insert(j, id)) == ranges_of(pool, ids).insert(
            j,
            range_of(pool[id as int]),
        ),
{
    let grown = ids.insert(j, id);
    let left = ranges_of(new_pool, grown);
    let right = ranges_of(pool, ids).insert(j, range_of(pool[id as int]));
    assert forall|i: int| 0 <= i < grown.len() implies left[i] == right[i] by {
        if i != j {
            assert(grown[i] == ids[if i < j {
                i
            } else {
                i - 1
            }]);
        }
    }
    assert(left =~= right);
}

/// Removing an id removes that id only.
proof fn lemma_remove_contains(ids: Seq<u32>, k: int)
    requires
        distinct(ids),
        0 <= k < ids.len(),
    ensures
        forall|x: u32|
            #[trigger] ids.remove(k).contains(x) <==> ids.contains(x) && x != ids[k],
{
    let rest = ids.remove(k);
    assert forall|x: u32| #[trigger] rest.contains(x) <==> ids.contains(x) && x != ids[k] by {
        if rest.contains(x) {
            let i = rest.index_of(x);
            assert(rest[i] == ids[if i < k {
                i
            } else {
                i + 1
            }]);
        }
        if ids.contains(x) && x != ids[k] {
            let i = ids.index_of(x);
            assert(rest[if i < k {
                i
            } else {
                i - 1
            }] == x);
        }
    }
}

/// Inserting an id adds that id only.
proof fn lemma_insert_contains(ids: Seq<u32>, k: int, id: u32)
    requires
        0 <= k <= ids.len(),
    ensures
        forall|x: u32| #[trigger] ids.insert(k, id).contains(x) <==> ids.contains(x) || x == id,
{
    let grown = ids.insert(k, id);
    assert forall|x: u32| #[trigger] grown.contains(x) <==> ids.contains(x) || x == id by {
        if grown.contains(x) {
            let i = grown.index_of(x);
            if i != k {
                assert(grown[i] == ids[if i < k {
                    i
                } else {
                    i - 1
                }]);
            }
        }
        if ids.contains(x) {
            let i = ids.index_of(x);
            assert(grown[if i < k {
                i
            } else {
                i + 1
            }] == x);
        }
        assert(grown[k] == id);
    }
}

/// Without one range the others are still separated.
proof fn lemma_without_range(memory: FreeMemory, i: int)
    requires
        memory.separated(),
        0 <= i < memory.by_address.len(),
    ensures
        memory.without_range(i).separated(),
{
    let range = memory.by_address[i];
    crate::free_memory::lemma_carved(memory, i, range.start, range.end);
}

/// The first range that takes the block is the fit.
proof fn lemma_fit_is(
    ranges: Seq<Range>,
    size: int,
    align_order: nat,
    address_limit: int,
    c: int,
)
    requires
        0 <= c < ranges.len(),
        c <= crate::free_memory::fit_from(ranges, size, align_order, address_limit, 0),
        ranges[c].placement(size, align_order, address_limit) is Some,
    ensures
        crate::free_memory::fit_from(ranges, size, align_order, address_limit, 0) == c,
{
    crate::free_memory::lemma_fit_from(ranges, size, align_order, address_limit, 0);
    if c < crate::free_memory::fit_from(ranges, size, align_order, address_limit, 0) {
        assert(ranges[c].placement(size, align_order, address_limit) is None);
    }
}

/// What the free lists say of one entry and of one list.
proof fn lemma_lists_at(
    pool: Seq<MemoryEntry>,
    heads: Seq<Option<u32>>,
    sized: Seq<u32>,
    sizes: Seq<int>,
    c: int,
    order: int,
)
    requires
        lists_ok(pool, heads, sized, sizes),
        0 <= order < 12,
    ensures
        heads[order] == list_head(sized, sizes, order),
        0 <= c < sized.len() ==> pool[sized[c] as int].list_next == peer(sized, sizes, c, c + 1),
{
    reveal(lists_ok);
}

/// In separated ranges at most one contains an address.
pub proof fn lemma_index_of_address(memory: FreeMemory, i: int, address: int)
    requires
        memory.separated(),
        0 <= i < memory.by_address.len(),
        memory.by_address[i].contains(address),
    ensures
        memory.is_free(address),
        memory.index_of_address(address) == i,
{
    let j = memory.index_of_address(address);
    assert(0 <= j < memory.by_address.len() && memory.by_address[j].contains(address));
}

/// Two sequences of the same distinct ids are of one length.
pub proof fn lemma_same_length(a: Seq<u32>, b: Seq<u32>)
    requires
        distinct(a),
        distinct(b),
        forall|id: u32| #[trigger] b.contains(id) <==> a.contains(id),
    ensures
        a.len() == b.len(),
{
    assert(a.no_duplicates());
    assert(b.no_duplicates());
    a.unique_seq_to_set();
    b.unique_seq_to_set();
    assert forall|id: u32| a.to_set().contains(id) <==> b.to_set().contains(id) by {
        assert(b.contains(id) <==> a.contains(id));
    }
    assert(a.to_set() =~= b.to_set());
}

/// All the entries are in use where as many as there are entries are in the chain.
pub proof fn lemma_pool_full(allocator: MemoryAllocator)
    requires
        allocator.linked(),
        allocator.enabled_in_chain(),
    ensures
        allocator.chain@.len() <= 64,
        (forall|i: int| 0 <= i < 64 ==> (#[trigger] allocator.memory_entry_pool@[i]).enabled)
            <==> allocator.chain@.len() == 64,
{
    let chain = allocator.chain@;
    let ids = Seq::new(chain.len(), |i: int| chain[i] as int);
    let range = vstd::set_lib::set_int_range(0, 64);
    vstd::set_lib::lemma_int_range(0, 64);
    assert(ids.no_duplicates());
    ids.unique_seq_to_set();
    vstd::set_lib::lemma_len_subset(ids.to_set(), range);
    if forall|i: int| 0 <= i < 64 ==> (#[trigger] allocator.memory_entry_pool@[i]).enabled {
        assert forall|i: int| range.contains(i) implies ids.to_set().contains(i) by {
            assert(allocator.memory_entry_pool@[i].enabled);
            let k = chain.index_of(i as u32);
            assert(ids[k] == i);
        }
        assert(ids.to_set() =~= range);
    }
    if chain.len() == 64 {
        vstd::set_lib::lemma_subset_equality(ids.to_set(), range);
        assert forall|i: int| 0 <= i < 64 implies (
        #[trigger] allocator.memory_entry_pool@[i]).enabled by {
            assert(ids.to_set().contains(i));
            let k = ids.index_of(i);
            assert(chain[k] == i as u32);
            assert(chain.contains(i as u32));
        }
    }
}

/// The last address of `size` bytes at `address`.
pub fn get_end_address(address: usize, size: usize) -> (end: usize)
    requires
        0 < address + size <= usize::MAX,
    ensures
        end == address + size - 1,
{
    address + size - 1
}

} // verus!
