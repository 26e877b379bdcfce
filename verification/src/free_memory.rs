//! What the page allocator's state means: which address ranges are free, and in which order
//! they are tried.

use crate::memory_allocator::MemoryError;
use vstd::prelude::*;

verus! {

/// A run of addresses, both ends included.
pub struct Range {
    pub start: int,
    pub end: int,
}

impl Range {
    pub open spec fn size(self) -> int {
        self.end - self.start + 1
    }

    pub open spec fn contains(self, address: int) -> bool {
        self.start <= address <= self.end
    }

    /// The last address of the range that lies below `address_limit`.
    pub open spec fn end_below(self, address_limit: int) -> int {
        if self.end < address_limit - 1 {
            self.end
        } else {
            address_limit - 1
        }
    }

    /// How many bytes of the range lie below `address_limit`.
    pub open spec fn available(self, address_limit: int) -> int {
        if self.end_below(address_limit) >= self.start {
            self.end_below(address_limit) - self.start + 1
        } else {
            0
        }
    }

    /// Where a block of `size` bytes, aligned to `2^align_order` and below `address_limit`,
    /// goes in this range: at the first aligned address, provided the block ends in the range.
    pub open spec fn placement(self, size: int, align_order: nat, address_limit: int) -> Option<
        int,
    > {
        let address = crate::bits::align_up(self.start, align_order);
        if size <= self.available(address_limit) && address + size <= self.start + self.available(
            address_limit,
        ) {
            Some(address)
        } else {
            None
        }
    }

    /// Rounding the start of this range up stays inside the machine word, where it is needed.
    pub open spec fn can_be_aligned(
        self,
        size: int,
        align_order: nat,
        address_limit: int,
    ) -> bool {
        size <= self.available(address_limit) && align_order != 0 && self.start != 0 ==> {
            &&& align_order < usize::BITS
            &&& crate::bits::align_up(self.start, align_order) <= usize::MAX
        }
    }
}

/// The first index from `from` on whose range starts at or after `address`.
pub open spec fn index_from(ranges: Seq<Range>, address: int, from: int) -> int
    decreases ranges.len() - from,
{
    if from < 0 || from >= ranges.len() || ranges[from].start >= address {
        from
    } else {
        index_from(ranges, address, from + 1)
    }
}

/// The first index from `from` on whose range has at least `size` bytes.
pub open spec fn slot_from(ranges: Seq<Range>, size: int, from: int) -> int
    decreases ranges.len() - from,
{
    if from < 0 || from >= ranges.len() || ranges[from].size() >= size {
        from
    } else {
        slot_from(ranges, size, from + 1)
    }
}

/// The first index from `from` on whose range takes the block.
pub open spec fn fit_from(
    ranges: Seq<Range>,
    size: int,
    align_order: nat,
    address_limit: int,
    from: int,
) -> int
    decreases ranges.len() - from,
{
    if from < 0 || from >= ranges.len() || ranges[from].placement(
        size,
        align_order,
        address_limit,
    ) is Some {
        from
    } else {
        fit_from(ranges, size, align_order, address_limit, from + 1)
    }
}

/// The number of bytes in all the ranges.
pub open spec fn total_of(ranges: Seq<Range>) -> int
    decreases ranges.len(),
{
    if ranges.len() == 0 {
        0
    } else {
        total_of(ranges.drop_last()) + ranges.last().size()
    }
}

/// What a request to free a range amounts to.
pub enum FreeEffect {
    /// The whole range is free already.
    Rejected,
    /// This range becomes free.
    Added(Range),
    /// The range straddles free memory in a way that the bookkeeping does not survive.
    Unsupported,
}

/// The free memory: the free ranges by ascending address, and the same ranges by ascending
/// size, which is the order in which an allocation tries them.
#[verifier::ext_equal]
pub struct FreeMemory {
    pub by_address: Seq<Range>,
    pub by_size: Seq<Range>,
}

impl FreeMemory {
    pub open spec fn empty() -> FreeMemory {
        FreeMemory { by_address: Seq::empty(), by_size: Seq::empty() }
    }

    /// The number of free bytes.
    pub open spec fn total(self) -> int {
        total_of(self.by_address)
    }

    /// `address` is free.
    pub open spec fn is_free(self, address: int) -> bool {
        exists|i: int|
            0 <= i < self.by_address.len() && (#[trigger] self.by_address[i]).contains(address)
    }

    /// The ranges are non-empty, inside the address space, in ascending order, and never
    /// touch: two neighbouring free ranges are one range.
    pub open spec fn separated(self) -> bool {
        &&& forall|i: int|
            0 <= i < self.by_address.len() ==> 0 <= (#[trigger] self.by_address[i]).start
                <= self.by_address[i].end < usize::MAX
        &&& forall|i: int, j: int|
            0 <= i < j < self.by_address.len() ==> (#[trigger] self.by_address[i]).end + 1 < (
            #[trigger] self.by_address[j]).start
    }

    /// The two sequences hold the same ranges, and the second ascends by size.
    pub open spec fn consistent(self) -> bool {
        &&& self.by_size.len() == self.by_address.len()
        &&& forall|i: int|
            0 <= i < self.by_size.len() ==> self.by_address.contains(#[trigger] self.by_size[i])
        &&& forall|i: int|
            0 <= i < self.by_address.len() ==> self.by_size.contains(#[trigger] self.by_address[i])
        &&& forall|i: int, j: int|
            0 <= i < j < self.by_size.len() ==> (#[trigger] self.by_size[i]).size() <= (
            #[trigger] self.by_size[j]).size()
        &&& forall|i: int, j: int|
            0 <= i < j < self.by_size.len() ==> #[trigger] self.by_size[i]
                != #[trigger] self.by_size[j]
    }

    pub open spec fn valid(self) -> bool {
        self.separated() && self.consistent()
    }

    /// The free ranges by size, with `range` put in front of the first that is at least as large.
    pub open spec fn sized_with(by_size: Seq<Range>, range: Range) -> Seq<Range> {
        by_size.insert(slot_from(by_size, range.size(), 0), range)
    }

    pub open spec fn sized_without(by_size: Seq<Range>, range: Range) -> Seq<Range> {
        by_size.remove(by_size.index_of(range))
    }

    /// The range at index `i` becomes `range`.
    pub open spec fn resized(self, i: int, range: Range) -> FreeMemory {
        FreeMemory {
            by_address: self.by_address.update(i, range),
            by_size: Self::sized_with(
                Self::sized_without(self.by_size, self.by_address[i]),
                range,
            ),
        }
    }

    /// `range` is a new free range, at index `i`.
    pub open spec fn with_range(self, i: int, range: Range) -> FreeMemory {
        FreeMemory {
            by_address: self.by_address.insert(i, range),
            by_size: Self::sized_with(self.by_size, range),
        }
    }

    /// The range at index `i` is gone.
    pub open spec fn without_range(self, i: int) -> FreeMemory {
        FreeMemory {
            by_address: self.by_address.remove(i),
            by_size: Self::sized_without(self.by_size, self.by_address[i]),
        }
    }

    /// Taking `[start, end]` out of the middle of the range at index `i` leaves two ranges.
    pub open spec fn splits(self, i: int, start: int, end: int) -> bool {
        self.by_address[i].start < start && end < self.by_address[i].end
    }

    /// The free memory once `[start, end]`, a part of the range at index `i`, is in use.
    pub open spec fn carved(self, i: int, start: int, end: int) -> FreeMemory {
        let range = self.by_address[i];
        if start == range.start && end == range.end {
            self.without_range(i)
        } else if start == range.start {
            self.resized(i, Range { start: end + 1, end: range.end })
        } else if end == range.end {
            self.resized(i, Range { start: range.start, end: start - 1 })
        } else {
            self.resized(i, Range { start: range.start, end: start - 1 }).with_range(
                i + 1,
                Range { start: end + 1, end: range.end },
            )
        }
    }

    /// The index of the range that contains `address`; meaningful where there is one.
    pub open spec fn index_of_address(self, address: int) -> int {
        choose|i: int|
            0 <= i < self.by_address.len() && (#[trigger] self.by_address[i]).contains(address)
    }

    /// The free range just before `range` touches it.
    pub open spec fn joins_left(self, range: Range) -> bool {
        let i = index_from(self.by_address, range.start, 0);
        i > 0 && self.by_address[i - 1].end + 1 == range.start
    }

    /// The free range just after `range` touches it.
    pub open spec fn joins_right(self, range: Range) -> bool {
        let i = index_from(self.by_address, range.start, 0);
        i < self.by_address.len() && self.by_address[i].start == range.end + 1
    }

    /// The free memory once `range`, none of which was free, is free: it grows together with
    /// the free ranges that it touches.
    pub open spec fn joined(self, range: Range) -> FreeMemory {
        let i = index_from(self.by_address, range.start, 0);
        if self.joins_left(range) && self.joins_right(range) {
            self.without_range(i).resized(
                i - 1,
                Range { start: self.by_address[i - 1].start, end: self.by_address[i].end },
            )
        } else if self.joins_left(range) {
            self.resized(i - 1, Range { start: self.by_address[i - 1].start, end: range.end })
        } else if self.joins_right(range) {
            self.resized(i, Range { start: range.start, end: self.by_address[i].end })
        } else {
            self.with_range(i, range)
        }
    }

    /// No address of `range` is free.
    pub open spec fn is_disjoint(self, range: Range) -> bool {
        forall|i: int|
            0 <= i < self.by_address.len() ==> (#[trigger] self.by_address[i]).end < range.start
                || range.end < self.by_address[i].start
    }

    /// One free range contains all of `range`.
    pub open spec fn covers(self, range: Range) -> bool {
        exists|i: int|
            0 <= i < self.by_address.len() && (#[trigger] self.by_address[i]).start <= range.start
                && range.end <= self.by_address[i].end
    }

    /// What freeing `range` does where the free memory is not empty.
    ///
    /// A range that is disjoint from the free memory is added, one that is free as a whole is
    /// rejected. Of a range that is free in part, the other part is added where the part that
    /// is free is the first free range and ends the request, or is the tail of a free range
    /// other than the first, or is a free range that the request starts with. Every other
    /// overlap is unsupported.
    pub open spec fn free_effect(self, range: Range) -> FreeEffect {
        let n = self.by_address.len() as int;
        let i = index_from(self.by_address, range.start, 0);
        if i == 0 {
            let first = self.by_address[0];
            if first.start == range.start && first.end >= range.end {
                FreeEffect::Rejected
            } else if first.end == range.end {
                FreeEffect::Added(Range { start: range.start, end: first.start - 1 })
            } else if range.end < first.start {
                FreeEffect::Added(range)
            } else {
                FreeEffect::Unsupported
            }
        } else {
            let before = self.by_address[i - 1];
            if before.end >= range.end {
                FreeEffect::Rejected
            } else if before.end >= range.start {
                if i == 1 {
                    FreeEffect::Unsupported
                } else if i == n || self.by_address[i].start > range.end {
                    FreeEffect::Added(Range { start: before.end + 1, end: range.end })
                } else {
                    FreeEffect::Unsupported
                }
            } else if i == n || self.by_address[i].start > range.end {
                FreeEffect::Added(range)
            } else if self.by_address[i].start == range.start {
                if self.by_address[i].end >= range.end {
                    FreeEffect::Rejected
                } else if i + 1 == n || self.by_address[i + 1].start > range.end {
                    FreeEffect::Added(Range { start: self.by_address[i].end + 1, end: range.end })
                } else {
                    FreeEffect::Unsupported
                }
            } else {
                FreeEffect::Unsupported
            }
        }
    }

    /// Every entry of the pool holds a free range.
    pub open spec fn is_full(self) -> bool {
        self.by_address.len() >= 64
    }

    /// The last address that is taken where `size` bytes at `start` are: a request that
    /// reaches beyond the free range that holds its start takes that range to its end.
    pub open spec fn end_of_request(self, start: int, size: int) -> int {
        let range = self.by_address[self.index_of_address(start)];
        if range.end < start + size - 1 {
            range.end
        } else {
            start + size - 1
        }
    }

    /// Taking `size` bytes at `start` into use.
    pub open spec fn taken(self, start: int, size: int) -> Result<FreeMemory, MemoryError> {
        let i = self.index_of_address(start);
        let end = self.end_of_request(start, size);
        if !self.is_free(start) {
            Err(MemoryError::InvalidRequest)
        } else if self.splits(i, start, end) && self.is_full() {
            Err(MemoryError::NoEntry)
        } else {
            Ok(self.carved(i, start, end))
        }
    }

    /// Taking `size` bytes at `start` into use, both rounded outwards to `2^align_order`.
    pub open spec fn reserved(self, start: int, size: int, align_order: nat) -> Result<
        FreeMemory,
        MemoryError,
    > {
        let aligned_size = crate::bits::aligned_size(start, size, align_order);
        if size == 0 {
            Err(MemoryError::InvalidRequest)
        } else if self.total() < size {
            Err(MemoryError::NoMemory)
        } else if align_order == 0 {
            self.taken(start, size)
        } else if self.total() < aligned_size {
            Err(MemoryError::NoMemory)
        } else {
            self.taken(crate::bits::align_down(start, align_order), aligned_size)
        }
    }

    /// Taking a block of `size` bytes into use, aligned to `2^align_order` and below
    /// `address_limit`: in the smallest free range that takes it, at its first aligned address.
    pub open spec fn allocated(self, size: int, align_order: nat, address_limit: int) -> Result<
        (int, FreeMemory),
        MemoryError,
    > {
        let i = fit_from(self.by_size, size, align_order, address_limit, 0);
        let address = crate::bits::align_up(self.by_size[i].start, align_order);
        if size == 0 {
            Err(MemoryError::InvalidRequest)
        } else if self.total() < size || i >= self.by_size.len() {
            Err(MemoryError::NoMemory)
        } else {
            match self.taken(address, size) {
                Ok(memory) => Ok((address, memory)),
                Err(error) => Err(error),
            }
        }
    }

    /// Freeing `size` bytes at `start`.
    pub open spec fn freed(self, start: int, size: int) -> Result<FreeMemory, MemoryError> {
        let range = Range { start, end: start + size - 1 };
        if self.by_address.len() == 0 {
            Ok(self.joined(range))
        } else if size == 0 {
            Err(MemoryError::InvalidRequest)
        } else {
            match self.free_effect(range) {
                FreeEffect::Added(added) => if self.is_full() && !self.joins_left(added)
                    && !self.joins_right(added) {
                    Err(MemoryError::NoEntry)
                } else {
                    Ok(self.joined(added))
                },
                _ => Err(MemoryError::InvalidRequest),
            }
        }
    }
}

/// `index_from` finds the boundary between the ranges below `address` and the others.
pub proof fn lemma_index_from(ranges: Seq<Range>, address: int, from: int)
    requires
        0 <= from <= ranges.len(),
    ensures
        from <= index_from(ranges, address, from) <= ranges.len(),
        forall|i: int|
            from <= i < index_from(ranges, address, from) ==> (#[trigger] ranges[i]).start
                < address,
        index_from(ranges, address, from) < ranges.len() ==> ranges[index_from(
            ranges,
            address,
            from,
        )].start >= address,
    decreases ranges.len() - from,
{
    if from < ranges.len() && ranges[from].start < address {
        lemma_index_from(ranges, address, from + 1);
    }
}

/// `slot_from` finds the boundary between the smaller ranges and the others.
pub proof fn lemma_slot_from(ranges: Seq<Range>, size: int, from: int)
    requires
        0 <= from <= ranges.len(),
    ensures
        from <= slot_from(ranges, size, from) <= ranges.len(),
        forall|i: int|
            from <= i < slot_from(ranges, size, from) ==> (#[trigger] ranges[i]).size() < size,
        slot_from(ranges, size, from) < ranges.len() ==> ranges[slot_from(
            ranges,
            size,
            from,
        )].size() >= size,
    decreases ranges.len() - from,
{
    if from < ranges.len() && ranges[from].size() < size {
        lemma_slot_from(ranges, size, from + 1);
    }
}

/// `fit_from` finds the first range that takes the block.
pub proof fn lemma_fit_from(
    ranges: Seq<Range>,
    size: int,
    align_order: nat,
    address_limit: int,
    from: int,
)
    requires
        0 <= from <= ranges.len(),
    ensures
        from <= fit_from(ranges, size, align_order, address_limit, from) <= ranges.len(),
        forall|i: int|
            from <= i < fit_from(ranges, size, align_order, address_limit, from) ==> (
            #[trigger] ranges[i]).placement(size, align_order, address_limit) is None,
        fit_from(ranges, size, align_order, address_limit, from) < ranges.len() ==> ranges[fit_from(
            ranges,
            size,
            align_order,
            address_limit,
            from,
        )].placement(size, align_order, address_limit) is Some,
    decreases ranges.len() - from,
{
    if from < ranges.len() && ranges[from].placement(size, align_order, address_limit) is None {
        lemma_fit_from(ranges, size, align_order, address_limit, from + 1);
    }
}

/// Inserting a range adds its size to the total.
pub proof fn lemma_total_insert(ranges: Seq<Range>, i: int, range: Range)
    requires
        0 <= i <= ranges.len(),
    ensures
        total_of(ranges.insert(i, range)) == total_of(ranges) + range.size(),
    decreases ranges.len(),
{
    let grown = ranges.insert(i, range);
    if i == ranges.len() {
        assert(grown.drop_last() =~= ranges);
    } else {
        lemma_total_insert(ranges.drop_last(), i, range);
        assert(grown.drop_last() =~= ranges.drop_last().insert(i, range));
        assert(grown.last() == ranges.last());
    }
}

/// Removing a range subtracts its size from the total.
pub proof fn lemma_total_remove(ranges: Seq<Range>, i: int)
    requires
        0 <= i < ranges.len(),
    ensures
        total_of(ranges.remove(i)) == total_of(ranges) - ranges[i].size(),
{
    lemma_total_insert(ranges.remove(i), i, ranges[i]);
    assert(ranges.remove(i).insert(i, ranges[i]) =~= ranges);
}

/// Replacing a range changes the total by the difference of the sizes.
pub proof fn lemma_total_update(ranges: Seq<Range>, i: int, range: Range)
    requires
        0 <= i < ranges.len(),
    ensures
        total_of(ranges.update(i, range)) == total_of(ranges) - ranges[i].size() + range.size(),
{
    lemma_total_remove(ranges, i);
    lemma_total_insert(ranges.remove(i), i, range);
    assert(ranges.remove(i).insert(i, range) =~= ranges.update(i, range));
}

/// The total is at most the last free address plus one, and at least each single size.
pub proof fn lemma_total_bounds(memory: FreeMemory)
    requires
        memory.separated(),
    ensures
        0 <= memory.total() < usize::MAX + 1,
        memory.by_address.len() > 0 ==> memory.total() <= memory.by_address.last().end + 1,
        memory.by_address.len() > 0 ==> memory.total() > 0,
        forall|i: int|
            0 <= i < memory.by_address.len() ==> (#[trigger] memory.by_address[i]).size()
                <= memory.total(),
    decreases memory.by_address.len(),
{
    let ranges = memory.by_address;
    if ranges.len() > 0 {
        let shorter = FreeMemory { by_address: ranges.drop_last(), by_size: memory.by_size };
        lemma_total_bounds(shorter);
        assert forall|i: int| 0 <= i < ranges.len() implies (#[trigger] ranges[i]).size()
            <= memory.total() by {
            if i < ranges.len() - 1 {
                assert(shorter.by_address[i] == ranges[i]);
            }
        }
        if ranges.len() > 1 {
            assert(shorter.by_address.last() == ranges[ranges.len() - 2]);
        }
    }
}

/// Taking a part of a free range leaves the ranges separated, and takes its size off the total.
pub proof fn lemma_carved(memory: FreeMemory, i: int, start: int, end: int)
    requires
        memory.separated(),
        0 <= i < memory.by_address.len(),
        memory.by_address[i].start <= start <= end <= memory.by_address[i].end,
    ensures
        memory.carved(i, start, end).separated(),
        memory.carved(i, start, end).total() == memory.total() - (end - start + 1),
{
    let range = memory.by_address[i];
    let result = memory.carved(i, start, end);
    if start == range.start && end == range.end {
        lemma_total_remove(memory.by_address, i);
    } else if start == range.start {
        lemma_total_update(memory.by_address, i, Range { start: end + 1, end: range.end });
    } else if end == range.end {
        lemma_total_update(memory.by_address, i, Range { start: range.start, end: start - 1 });
    } else {
        let low = Range { start: range.start, end: start - 1 };
        let high = Range { start: end + 1, end: range.end };
        lemma_total_update(memory.by_address, i, low);
        lemma_total_insert(memory.by_address.update(i, low), i + 1, high);
        let ranges = result.by_address;
        assert forall|a: int, b: int| 0 <= a < b < ranges.len() implies (#[trigger] ranges[a]).end
            + 1 < (#[trigger] ranges[b]).start by {
            if a != i && a != i + 1 {
                assert(ranges[a] == memory.by_address[if a < i {
                    a
                } else {
                    a - 1
                }]);
            }
            if b != i && b != i + 1 {
                assert(ranges[b] == memory.by_address[if b < i {
                    b
                } else {
                    b - 1
                }]);
            }
        }
        assert forall|a: int| 0 <= a < ranges.len() implies 0 <= (#[trigger] ranges[a]).start
            <= ranges[a].end < usize::MAX by {
            if a != i && a != i + 1 {
                assert(ranges[a] == memory.by_address[if a < i {
                    a
                } else {
                    a - 1
                }]);
            }
        }
    }
}

/// A range that is disjoint from the free memory lies between two neighbouring free ranges.
pub proof fn lemma_disjoint_position(memory: FreeMemory, range: Range)
    requires
        memory.separated(),
        memory.is_disjoint(range),
        range.start <= range.end,
    ensures
        ({
            let i = index_from(memory.by_address, range.start, 0);
            &&& 0 <= i <= memory.by_address.len()
            &&& forall|a: int| 0 <= a < i ==> (#[trigger] memory.by_address[a]).end < range.start
            &&& forall|a: int|
                i <= a < memory.by_address.len() ==> range.end < (
                #[trigger] memory.by_address[a]).start
        }),
{
    lemma_index_from(memory.by_address, range.start, 0);
    let i = index_from(memory.by_address, range.start, 0);
    assert forall|a: int| i <= a < memory.by_address.len() implies range.end < (
    #[trigger] memory.by_address[a]).start by {
        assert(memory.by_address[i].start >= range.start);
    }
}

/// Freeing a range that is disjoint from the free memory leaves the ranges separated, and adds
/// its size to the total.
pub proof fn lemma_joined(memory: FreeMemory, range: Range)
    requires
        memory.separated(),
        memory.is_disjoint(range),
        0 <= range.start <= range.end < usize::MAX,
    ensures
        memory.joined(range).separated(),
        memory.joined(range).total() == memory.total() + range.size(),
{
    let i = index_from(memory.by_address, range.start, 0);
    lemma_disjoint_position(memory, range);
    let ranges = memory.by_address;
    let result = memory.joined(range).by_address;
    if memory.joins_left(range) && memory.joins_right(range) {
        let wide = Range { start: ranges[i - 1].start, end: ranges[i].end };
        lemma_total_remove(ranges, i);
        lemma_total_update(ranges.remove(i), i - 1, wide);
        assert forall|a: int| 0 <= a < result.len() implies #[trigger] result[a] == if a == i - 1 {
            wide
        } else if a < i {
            ranges[a]
        } else {
            ranges[a + 1]
        } by {}
    } else if memory.joins_left(range) {
        lemma_total_update(ranges, i - 1, Range { start: ranges[i - 1].start, end: range.end });
    } else if memory.joins_right(range) {
        lemma_total_update(ranges, i, Range { start: range.start, end: ranges[i].end });
    } else {
        lemma_total_insert(ranges, i, range);
        assert forall|a: int| 0 <= a < result.len() implies #[trigger] result[a] == if a == i {
            range
        } else if a < i {
            ranges[a]
        } else {
            ranges[a - 1]
        } by {}
    }
}

/// Of a range that is disjoint from the free memory, all of it becomes free.
pub proof fn lemma_disjoint_is_added(memory: FreeMemory, range: Range)
    requires
        memory.separated(),
        memory.by_address.len() > 0,
        memory.is_disjoint(range),
        range.start <= range.end,
    ensures
        memory.free_effect(range) == FreeEffect::Added(range),
{
    lemma_disjoint_position(memory, range);
}

/// A range that is free as a whole cannot be freed.
pub proof fn lemma_covered_is_rejected(memory: FreeMemory, range: Range)
    requires
        memory.separated(),
        memory.covers(range),
        range.start <= range.end,
    ensures
        memory.free_effect(range) == FreeEffect::Rejected,
{
    let k = choose|k: int|
        0 <= k < memory.by_address.len() && (#[trigger] memory.by_address[k]).start <= range.start
            && range.end <= memory.by_address[k].end;
    lemma_index_from(memory.by_address, range.start, 0);
    let i = index_from(memory.by_address, range.start, 0);
    if memory.by_address[k].start < range.start {
        assert(k < i) by {
            if i <= k {
                assert(memory.by_address[i].start >= range.start);
            }
        }
        assert(k == i - 1) by {
            if k < i - 1 {
                assert(memory.by_address[i - 1].start < range.start);
                assert(memory.by_address[k].end + 1 < memory.by_address[i - 1].start);
            }
        }
    } else {
        assert(i <= k) by {
            if k < i {
                assert(memory.by_address[k].start < range.start);
            }
        }
        if i < k {
            assert(memory.by_address[i].start >= range.start);
            assert(memory.by_address[i].end + 1 < memory.by_address[k].start);
        }
        if i > 0 {
            assert(memory.by_address[i - 1].end + 1 < memory.by_address[i].start);
        }
    }
}

/// The part of a request that becomes free was not free.
pub proof fn lemma_added_is_disjoint(memory: FreeMemory, range: Range)
    requires
        memory.separated(),
        memory.by_address.len() > 0,
        0 <= range.start <= range.end,
        range.end < usize::MAX,
        memory.free_effect(range) is Added,
    ensures
        memory.is_disjoint(memory.free_effect(range)->Added_0),
        0 <= memory.free_effect(range)->Added_0.start <= memory.free_effect(range)->Added_0.end
            < usize::MAX,
{
    lemma_index_from(memory.by_address, range.start, 0);
    let ranges = memory.by_address;
    let i = index_from(ranges, range.start, 0);
    let added = memory.free_effect(range)->Added_0;
    assert forall|a: int| 0 <= a < ranges.len() implies (#[trigger] ranges[a]).end < added.start
        || added.end < ranges[a].start by {
        if i > 0 {
            if a < i - 1 {
                assert(ranges[a].end + 1 < ranges[i - 1].start);
            }
            if a >= i && i < ranges.len() {
                assert(ranges[i - 1].end + 1 < ranges[i].start);
            }
        }
        if i < ranges.len() && a > i {
            assert(ranges[i].end + 1 < ranges[a].start);
        }
        if i + 1 < ranges.len() && a > i + 1 {
            assert(ranges[i + 1].end + 1 < ranges[a].start);
        }
        if i == 0 && a > 0 {
            assert(ranges[0].end + 1 < ranges[a].start);
        }
    }
}

/// Without one range, the two sequences still hold the same ranges.
pub proof fn lemma_consistent_without(memory: FreeMemory, i: int)
    requires
        memory.valid(),
        0 <= i < memory.by_address.len(),
    ensures
        memory.without_range(i).valid(),
{
    let range = memory.by_address[i];
    lemma_carved(memory, i, range.start, range.end);
    let result = memory.without_range(i);
    let k = memory.by_size.index_of(range);
    assert(memory.by_size.contains(range));
    assert(memory.by_size[k] == range);
    assert forall|a: int| 0 <= a < result.by_size.len() implies result.by_address.contains(
        #[trigger] result.by_size[a],
    ) by {
        let b = if a < k {
            a
        } else {
            a + 1
        };
        assert(result.by_size[a] == memory.by_size[b]);
        let c = memory.by_address.index_of(memory.by_size[b]);
        assert(memory.by_address[c] == memory.by_size[b]);
        assert(c != i);
        assert(result.by_address[if c < i {
            c
        } else {
            c - 1
        }] == memory.by_address[c]);
    }
    assert forall|a: int| 0 <= a < result.by_address.len() implies result.by_size.contains(
        #[trigger] result.by_address[a],
    ) by {
        let b = if a < i {
            a
        } else {
            a + 1
        };
        assert(result.by_address[a] == memory.by_address[b]);
        let c = memory.by_size.index_of(memory.by_address[b]);
        assert(memory.by_size.contains(memory.by_address[b]));
        assert(memory.by_size[c] == memory.by_address[b]);
        assert(c != k);
        assert(result.by_size[if c < k {
            c
        } else {
            c - 1
        }] == memory.by_size[c]);
    }
}

/// With one range more, the two sequences still hold the same ranges.
pub proof fn lemma_consistent_with(memory: FreeMemory, i: int, range: Range)
    requires
        memory.valid(),
        0 <= i <= memory.by_address.len(),
        memory.with_range(i, range).separated(),
    ensures
        memory.with_range(i, range).valid(),
{
    let result = memory.with_range(i, range);
    let k = slot_from(memory.by_size, range.size(), 0);
    lemma_slot_from(memory.by_size, range.size(), 0);
    assert(result.by_address[i] == range);
    assert(result.by_size[k] == range);
    assert forall|a: int| 0 <= a < memory.by_address.len() implies #[trigger] memory.by_address[a]
        == result.by_address[if a < i {
        a
    } else {
        a + 1
    }] by {}
    assert forall|a: int| 0 <= a < memory.by_size.len() implies #[trigger] memory.by_size[a]
        == result.by_size[if a < k {
        a
    } else {
        a + 1
    }] by {}
    assert forall|a: int| 0 <= a < result.by_size.len() implies result.by_address.contains(
        #[trigger] result.by_size[a],
    ) by {
        if a != k {
            let b = if a < k {
                a
            } else {
                a - 1
            };
            assert(result.by_size[a] == memory.by_size[b]);
            let c = memory.by_address.index_of(memory.by_size[b]);
            assert(memory.by_address[c] == memory.by_size[b]);
        }
    }
    assert forall|a: int| 0 <= a < result.by_address.len() implies result.by_size.contains(
        #[trigger] result.by_address[a],
    ) by {
        if a != i {
            let b = if a < i {
                a
            } else {
                a - 1
            };
            assert(result.by_address[a] == memory.by_address[b]);
            let c = memory.by_size.index_of(memory.by_address[b]);
            assert(memory.by_size.contains(memory.by_address[b]));
            assert(memory.by_size[c] == memory.by_address[b]);
        }
    }
    assert forall|a: int| 0 <= a < memory.by_size.len() implies #[trigger] memory.by_size[a]
        != range by {
        let c = memory.by_address.index_of(memory.by_size[a]);
        assert(memory.by_address[c] == memory.by_size[a]);
        let d = if c < i {
            c
        } else {
            c + 1
        };
        assert(result.by_address[d] == memory.by_address[c]);
    }
    assert forall|a: int, b: int| 0 <= a < b < result.by_size.len() implies (
    #[trigger] result.by_size[a]).size() <= (#[trigger] result.by_size[b]).size()
        && result.by_size[a] != result.by_size[b] by {
        if a != k {
            assert(result.by_size[a] == memory.by_size[if a < k {
                a
            } else {
                a - 1
            }]);
        }
        if b != k {
            assert(result.by_size[b] == memory.by_size[if b < k {
                b
            } else {
                b - 1
            }]);
        }
        if a == k {
            assert(memory.by_size[k].size() <= memory.by_size[b - 1].size());
        }
    }
}

/// With one range resized, the two sequences still hold the same ranges.
pub proof fn lemma_consistent_resized(memory: FreeMemory, i: int, range: Range)
    requires
        memory.valid(),
        0 <= i < memory.by_address.len(),
        memory.resized(i, range).separated(),
    ensures
        memory.resized(i, range).valid(),
{
    lemma_consistent_without(memory, i);
    assert(memory.by_address.remove(i).insert(i, range) =~= memory.by_address.update(i, range));
    assert(memory.without_range(i).with_range(i, range) == memory.resized(i, range));
    lemma_consistent_with(memory.without_range(i), i, range);
}

/// Taking a part of a free range into use makes exactly that part not free.
pub proof fn lemma_carved_addresses(memory: FreeMemory, i: int, start: int, end: int)
    requires
        memory.valid(),
        0 <= i < memory.by_address.len(),
        memory.by_address[i].start <= start <= end <= memory.by_address[i].end,
    ensures
        memory.carved(i, start, end).valid(),
        forall|a: int|
            #[trigger] memory.carved(i, start, end).is_free(a) <==> memory.is_free(a) && !(start
                <= a <= end),
{
    let range = memory.by_address[i];
    let low = Range { start: range.start, end: start - 1 };
    let high = Range { start: end + 1, end: range.end };
    let result = memory.carved(i, start, end);
    lemma_carved(memory, i, start, end);
    if start == range.start && end == range.end {
        lemma_consistent_without(memory, i);
    } else if start == range.start {
        lemma_consistent_resized(memory, i, high);
    } else if end == range.end {
        lemma_consistent_resized(memory, i, low);
    } else {
        lemma_carved(memory, i, start, range.end);
        lemma_consistent_resized(memory, i, low);
        lemma_consistent_with(memory.resized(i, low), i + 1, high);
    }
    assert forall|a: int| #[trigger] result.is_free(a) <==> memory.is_free(a) && !(start <= a
        <= end) by {
        lemma_carved_address(memory, i, start, end, a);
    }
}

/// Whether one address is free once `[start, end]` is in use.
proof fn lemma_carved_address(memory: FreeMemory, i: int, start: int, end: int, a: int)
    requires
        memory.separated(),
        0 <= i < memory.by_address.len(),
        memory.by_address[i].start <= start <= end <= memory.by_address[i].end,
    ensures
        memory.carved(i, start, end).is_free(a) <==> memory.is_free(a) && !(start <= a <= end),
{
    let range = memory.by_address[i];
    let result = memory.carved(i, start, end);
    let ranges = memory.by_address;
    // Where the range at index `j` of the old sequence stands in the new one.
    let shift = if start == range.start && end == range.end {
        -1
    } else if start == range.start || end == range.end {
        0
    } else {
        1int
    };
    assert(result.by_address.len() == ranges.len() + shift);
    assert forall|j: int| 0 <= j < ranges.len() && j != i implies #[trigger] ranges[j]
        == result.by_address[if j < i {
        j
    } else {
        j + shift
    }] by {}
    if memory.is_free(a) && !(start <= a <= end) {
        let j = memory.index_of_address(a);
        assert(ranges[j].contains(a));
        if j != i {
            assert(result.by_address[if j < i {
                j
            } else {
                j + shift
            }].contains(a));
        } else if a < start {
            assert(result.by_address[i].contains(a));
        } else if start == range.start {
            assert(result.by_address[i].contains(a));
        } else {
            assert(result.by_address[i + 1].contains(a));
        }
    }
    if result.is_free(a) {
        let j = result.index_of_address(a);
        assert(result.by_address[j].contains(a));
        if j < i {
            assert(ranges[j] == result.by_address[j]);
        } else if j > i + shift {
            assert(ranges[j - shift] == result.by_address[j]);
        } else {
            assert(ranges[i].contains(a));
        }
        let k = memory.index_of_address(a);
        assert(memory.is_free(a));
        if start <= a <= end {
            assert(ranges[i].contains(a));
            if j < i {
                assert(ranges[j].contains(a));
            } else if j > i + shift {
                assert(ranges[j - shift].contains(a));
            }
        }
    }
}

/// Whether one address is free once `range` is.
#[verifier::rlimit(40)]
proof fn lemma_joined_address(memory: FreeMemory, range: Range, a: int)
    requires
        memory.separated(),
        memory.is_disjoint(range),
        range.start <= range.end,
    ensures
        memory.joined(range).is_free(a) <==> memory.is_free(a) || range.contains(a),
{
    lemma_disjoint_position(memory, range);
    let i = index_from(memory.by_address, range.start, 0);
    let ranges = memory.by_address;
    let result = memory.joined(range);
    let new = result.by_address;
    let left = memory.joins_left(range);
    let right = memory.joins_right(range);
    // The first index of the old ranges that the new range absorbs, and how far those behind
    // it move.
    let first = if left {
        i - 1
    } else {
        i
    };
    let last = if right {
        i + 1
    } else {
        i
    };
    let shift = 1 - (last - first);
    assert(new.len() == ranges.len() + shift);
    assert forall|j: int| 0 <= j < first implies #[trigger] ranges[j] == new[j] by {}
    assert forall|j: int| last <= j < ranges.len() implies #[trigger] ranges[j] == new[j
        + shift] by {}
    assert(new[first].start == if left {
        ranges[i - 1].start
    } else {
        range.start
    });
    assert(new[first].end == if right {
        ranges[i].end
    } else {
        range.end
    });
    if memory.is_free(a) {
        let j = memory.index_of_address(a);
        assert(ranges[j].contains(a));
        if j < first {
            assert(new[j].contains(a));
        } else if j >= last {
            assert(new[j + shift].contains(a));
        } else {
            assert(new[first].contains(a));
        }
    }
    if range.contains(a) {
        assert(new[first].contains(a));
    }
    if result.is_free(a) {
        let j = result.index_of_address(a);
        assert(new[j].contains(a));
        if j < first {
            assert(ranges[j].contains(a));
        } else if j > first {
            assert(ranges[j - shift] == new[j]);
            assert(ranges[j - shift].contains(a));
        } else if !range.contains(a) {
            if a < range.start {
                assert(ranges[i - 1].contains(a));
            } else {
                assert(ranges[i].contains(a));
            }
        }
    }
}

/// Freeing a range makes exactly that range free besides what was free.
pub proof fn lemma_joined_addresses(memory: FreeMemory, range: Range)
    requires
        memory.valid(),
        memory.is_disjoint(range),
        0 <= range.start <= range.end < usize::MAX,
    ensures
        memory.joined(range).valid(),
        forall|a: int|
            #[trigger] memory.joined(range).is_free(a) <==> memory.is_free(a) || range.contains(a),
{
    let i = index_from(memory.by_address, range.start, 0);
    lemma_disjoint_position(memory, range);
    lemma_joined(memory, range);
    if memory.joins_left(range) && memory.joins_right(range) {
        lemma_consistent_without(memory, i);
        lemma_consistent_resized(
            memory.without_range(i),
            i - 1,
            Range { start: memory.by_address[i - 1].start, end: memory.by_address[i].end },
        );
    } else if memory.joins_left(range) {
        lemma_consistent_resized(
            memory,
            i - 1,
            Range { start: memory.by_address[i - 1].start, end: range.end },
        );
    } else if memory.joins_right(range) {
        lemma_consistent_resized(
            memory,
            i,
            Range { start: range.start, end: memory.by_address[i].end },
        );
    } else {
        lemma_consistent_with(memory, i, range);
    }
    assert forall|a: int| #[trigger] memory.joined(range).is_free(a) <==> memory.is_free(a)
        || range.contains(a) by {
        lemma_joined_address(memory, range, a);
    }
}

} // verus!
