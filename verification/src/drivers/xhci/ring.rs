//! The rings on which the driver and the controller exchange Transfer Request Blocks (TRBs).

use crate::dma::{DmaRegion, IoOp};
use vstd::prelude::*;

verus! {

pub const TRBS_PER_SEGMENT: usize = 64;

/// The last TRB of a ring leads back to its first.
pub const LINK_TRB_INDEX: usize = 63;

pub const TRB_ISP: u32 = 0x4;

pub const TRB_CHAIN: u32 = 0x10;

pub const TRB_IOC: u32 = 0x20;

pub const TRB_IDT: u32 = 0x40;

pub const TRB_DIR_IN: u32 = 0x1_0000;

pub const LINK_TOGGLE: u32 = 0x2;

pub const TRB_NORMAL: u32 = 1;

pub const TRB_SETUP: u32 = 2;

pub const TRB_DATA: u32 = 3;

pub const TRB_STATUS: u32 = 4;

pub const TRB_LINK: u32 = 6;

pub const TRB_ENABLE_SLOT: u32 = 9;

pub const TRB_ADDR_DEV: u32 = 11;

pub const TRB_CONFIG_EP: u32 = 12;

pub const TRB_TRANSFER_EVENT: u32 = 32;

pub const TRB_COMPLETION_EVENT: u32 = 33;

pub const COMP_SUCCESS: u32 = 1;

pub const COMP_SHORT_TX: u32 = 13;

/// A Transfer Request Block.
#[derive(Clone, Copy, PartialEq, Eq, Debug, Structural)]
pub struct Trb {
    pub parameter: u64,
    pub status: u32,
    pub control: u32,
}

/// The control word with its cycle bit equal to `cycle`.
pub open spec fn with_cycle(control: u32, cycle: int) -> u32 {
    (control - control % 2 + cycle) as u32
}

impl Trb {
    /// The type of the TRB.
    pub open spec fn kind(self) -> int {
        (self.control as int / 0x400) % 64
    }

    pub open spec fn slot_id(self) -> int {
        self.control as int / 0x100_0000
    }

    /// The endpoint that a transfer event belongs to, as an index among the endpoint contexts.
    pub open spec fn endpoint(self) -> int {
        let id = (self.control as int / 0x1_0000) % 32;
        if id == 0 {
            0
        } else {
            id - 1
        }
    }

    pub open spec fn completion(self) -> int {
        self.status as int / 0x100_0000
    }

    /// How many bytes were not transferred.
    pub open spec fn residue(self) -> int {
        self.status as int % 0x100_0000
    }

    /// The TRB that the four words of an event make up.
    pub fn of_words(words: [u32; 4]) -> (trb: Self)
        ensures
            trb == (Trb {
                parameter: (words[0] + 0x1_0000_0000 * words[1]) as u64,
                status: words[2],
                control: words[3],
            }),
    {
        Self {
            parameter: words[0] as u64 + 0x1_0000_0000 * (words[1] as u64),
            status: words[2],
            control: words[3],
        }
    }

    pub fn trb_field_to_type(&self) -> (kind: u32)
        ensures
            kind == self.kind(),
    {
        (self.control / 0x400) % 64
    }

    pub fn event_slot(&self) -> (slot: u8)
        ensures
            slot == self.slot_id(),
    {
        (self.control / 0x100_0000) as u8
    }

    pub fn event_endpoint(&self) -> (endpoint: usize)
        ensures
            endpoint == self.endpoint(),
    {
        (((self.control / 0x1_0000) % 32) as usize).saturating_sub(1)
    }

    pub fn completion_code(&self) -> (code: u32)
        ensures
            code == self.completion(),
    {
        self.status / 0x100_0000
    }

    pub fn event_residue(&self) -> (residue: u32)
        ensures
            residue == self.residue(),
    {
        self.status % 0x100_0000
    }
}

/// A ring that the driver fills.
pub struct TrbRing {
    pub region: DmaRegion,
    pub enqueue_index: usize,
    pub cycle_state: u32,
    /// The control words of the TRBs in memory.
    pub control: [u32; 64],
}

/// A ring that the driver fills: where it is, where the next TRB goes, which cycle bit makes a TRB
/// the controller's, and the control words of the TRBs in memory.
#[verifier::ext_equal]
pub struct Ring {
    pub region: DmaRegion,
    pub index: int,
    pub cycle: int,
    pub control: Seq<u32>,
}

impl Ring {
    pub open spec fn valid(self) -> bool {
        &&& 0 <= self.index < 63
        &&& 0 <= self.cycle < 2
        &&& self.control.len() == 64
        &&& self.region.address + 1024 <= u64::MAX
    }

    pub open spec fn address_of(self, i: int) -> int {
        self.region.address + 16 * i
    }

    /// The TRB at index `i` is written.
    pub open spec fn store_ops(self, i: int, trb: Trb) -> Seq<IoOp> {
        crate::dma::write64_ops(self.address_of(i), trb.parameter) + seq![
            IoOp::Write { address: (self.address_of(i) + 8) as u64, value: trb.status },
            IoOp::Write { address: (self.address_of(i) + 12) as u64, value: trb.control },
            IoOp::Clean { address: self.address_of(i) as u64, size: 16 },
        ]
    }

    /// The control word of the TRB at index `i` is written.
    pub open spec fn control_ops(self, i: int, value: u32) -> Seq<IoOp> {
        seq![
            IoOp::Write { address: (self.address_of(i) + 12) as u64, value },
            IoOp::Clean { address: self.address_of(i) as u64, size: 16 },
        ]
    }

    /// The link TRB with its cycle bit turned over.
    pub open spec fn turned_link(self) -> u32 {
        with_cycle(self.control[63], 1 - self.control[63] as int % 2)
    }

    /// The ring with one more TRB. Where that is the last before the link TRB, the link TRB becomes
    /// the controller's too, and the ring starts over with the other cycle bit.
    pub open spec fn pushed(self, trb: Trb) -> Ring {
        let control = self.control.update(self.index, trb.control);
        if self.index + 1 == 63 {
            Ring {
                index: 0,
                cycle: 1 - self.cycle,
                control: control.update(63, self.turned_link()),
                ..self
            }
        } else {
            Ring { index: self.index + 1, control, ..self }
        }
    }

    pub open spec fn push_ops(self, trb: Trb) -> Seq<IoOp> {
        if self.index + 1 == 63 {
            self.store_ops(self.index, trb) + self.control_ops(63, self.turned_link())
        } else {
            self.store_ops(self.index, trb)
        }
    }

    /// The ring once the TRB at index `start`, which was held back, is the controller's.
    pub open spec fn committed(self, start: int, cycle: int) -> Ring {
        Ring { control: self.control.update(start, with_cycle(self.control[start], cycle)), ..self }
    }

    pub open spec fn commit_ops(self, start: int, cycle: int) -> Seq<IoOp> {
        self.control_ops(start, with_cycle(self.control[start], cycle)).push(IoOp::Barrier)
    }

    /// The ring with all of `trbs`.
    pub open spec fn pushed_all(self, trbs: Seq<Trb>) -> Ring
        decreases trbs.len(),
    {
        if trbs.len() == 0 {
            self
        } else {
            self.pushed_all(trbs.drop_last()).pushed(trbs.last())
        }
    }

    /// The index that the TRB number `n` from now on goes to.
    pub open spec fn slot_of(self, n: int) -> int {
        (self.index + n) % 63
    }
}

impl TrbRing {
    pub open spec fn view(&self) -> Ring {
        Ring {
            region: self.region,
            index: self.enqueue_index as int,
            cycle: self.cycle_state as int,
            control: self.control@,
        }
    }

    pub open spec fn wf(&self) -> bool {
        self@.valid()
    }

    /// A new ring in `region`, which is zero. The link TRB leads back to where the controller has the
    /// ring, and toggles the cycle bit.
    pub open spec fn fresh(region: DmaRegion) -> Ring {
        Ring {
            region,
            index: 0,
            cycle: 1,
            control: Seq::new(64, |i: int| 0u32).update(63, 0x1802),
        }
    }

    pub open spec fn link_trb(region: DmaRegion, dma_offset: u64) -> Trb {
        Trb { parameter: region.bus_address(dma_offset), status: 0, control: 0x1802 }
    }

    pub fn new(region: DmaRegion, dma_offset: u64, ops: &mut Vec<IoOp>) -> (ring: Self)
        requires
            region.address + 1024 <= u64::MAX,
            region.address + dma_offset <= u64::MAX,
        ensures
            ring.wf(),
            ring@ == Self::fresh(region),
            final(ops)@ == old(ops)@ + ring@.store_ops(63, Self::link_trb(region, dma_offset)),
    {
        let mut control: [u32; 64] = [0; 64];
        control[LINK_TRB_INDEX] = TRB_LINK * 0x400 + LINK_TOGGLE;
        let ring = Self { region, enqueue_index: 0, cycle_state: 1, control };
        assert(ring@ =~= Self::fresh(region));
        let link = Trb {
            parameter: region.to_bus(dma_offset),
            status: 0,
            control: TRB_LINK * 0x400 + LINK_TOGGLE,
        };
        ring.store(LINK_TRB_INDEX, link, ops);
        ring
    }

    /// Writes the TRB at index `i`.
    fn store(&self, i: usize, trb: Trb, ops: &mut Vec<IoOp>)
        requires
            self.wf(),
            i < 64,
        ensures
            final(ops)@ == old(ops)@ + self@.store_ops(i as int, trb),
    {
        let address: u64 = self.region.address + 16 * (i as u64);
        crate::dma::write64(ops, address, trb.parameter);
        ops.push(IoOp::Write { address: address + 8, value: trb.status });
        ops.push(IoOp::Write { address: address + 12, value: trb.control });
        ops.push(IoOp::Clean { address, size: 16 });
        assert(ops@ =~= old(ops)@ + self@.store_ops(i as int, trb));
    }

    /// Appends a TRB to the ring.
    pub fn push_trb_raw(&mut self, trb: Trb, ops: &mut Vec<IoOp>)
        requires
            old(self).wf(),
        ensures
            final(self).wf(),
            final(self)@ == old(self)@.pushed(trb),
            final(ops)@ == old(ops)@ + old(self)@.push_ops(trb),
    {
        let ghost before = self@;
        self.store(self.enqueue_index, trb, ops);
        self.control[self.enqueue_index] = trb.control;
        self.enqueue_index = self.enqueue_index + 1;
        if self.enqueue_index == LINK_TRB_INDEX {
            let current: u32 = self.control[LINK_TRB_INDEX];
            let link: u32 = if current % 2 == 0 {
                current + 1
            } else {
                current - 1
            };
            self.control[LINK_TRB_INDEX] = link;
            let address: u64 = self.region.address + 16 * (LINK_TRB_INDEX as u64);
            ops.push(IoOp::Write { address: address + 12, value: link });
            ops.push(IoOp::Clean { address, size: 16 });
            self.enqueue_index = 0;
            self.cycle_state = 1 - self.cycle_state;
        }
        assert(self@ =~= before.pushed(trb));
        assert(ops@ =~= old(ops)@ + before.push_ops(trb));
    }

    /// Makes the first TRB of a transfer the controller's, once all of them are written.
    pub fn commit_first_trb(&mut self, start_index: usize, start_cycle: u32, ops: &mut Vec<IoOp>)
        requires
            old(self).wf(),
            start_index < 63,
            start_cycle < 2,
        ensures
            final(self).wf(),
            final(self)@ == old(self)@.committed(start_index as int, start_cycle as int),
            final(ops)@ == old(ops)@ + old(self)@.commit_ops(
                start_index as int,
                start_cycle as int,
            ),
    {
        let ghost before = self@;
        let current: u32 = self.control[start_index];
        let updated: u32 = current - current % 2 + start_cycle;
        self.control[start_index] = updated;
        let address: u64 = self.region.address + 16 * (start_index as u64);
        ops.push(IoOp::Write { address: address + 12, value: updated });
        ops.push(IoOp::Clean { address, size: 16 });
        ops.push(IoOp::Barrier);
        assert(self@ =~= before.committed(start_index as int, start_cycle as int));
        assert(ops@ =~= old(ops)@ + before.commit_ops(start_index as int, start_cycle as int));
    }
}

/// Pushing keeps a ring valid, and moves it on by one slot per TRB.
pub proof fn lemma_pushed_all(ring: Ring, trbs: Seq<Trb>)
    requires
        ring.valid(),
    ensures
        ring.pushed_all(trbs).valid(),
        ring.pushed_all(trbs).index == ring.slot_of(trbs.len() as int),
        ring.pushed_all(trbs).region == ring.region,
    decreases trbs.len(),
{
    if trbs.len() > 0 {
        lemma_pushed_all(ring, trbs.drop_last());
    }
}

/// The TRBs of one transfer never overwrite each other, as long as there are no more of them than
/// the ring has room for.
pub proof fn transfer_does_not_overwrite_itself(ring: Ring, i: int, j: int)
    requires
        ring.valid(),
        0 <= i < j < 63,
    ensures
        ring.slot_of(i) != ring.slot_of(j),
        0 <= ring.slot_of(i) < 63,
{
}

/// After as many TRBs as the ring has room for, the next goes to where the first went, and belongs
/// to the controller under the other cycle bit.
pub proof fn full_turn_toggles_the_cycle(ring: Ring, trbs: Seq<Trb>)
    requires
        ring.valid(),
        trbs.len() == 63,
    ensures
        ring.pushed_all(trbs).index == ring.index,
        ring.pushed_all(trbs).cycle == 1 - ring.cycle,
{
    lemma_pushed_all(ring, trbs);
    lemma_cycle(ring, trbs);
}

/// The cycle bit turns over where the ring starts over.
proof fn lemma_cycle(ring: Ring, trbs: Seq<Trb>)
    requires
        ring.valid(),
        trbs.len() <= 63,
    ensures
        ring.pushed_all(trbs).cycle == if ring.index + trbs.len() >= 63 {
            1 - ring.cycle
        } else {
            ring.cycle
        },
    decreases trbs.len(),
{
    if trbs.len() > 0 {
        lemma_cycle(ring, trbs.drop_last());
        lemma_pushed_all(ring, trbs.drop_last());
    }
}

/// A ring that the controller fills.
#[derive(Clone, Copy, PartialEq, Eq, Debug, Structural)]
pub struct EventRing {
    pub region: DmaRegion,
    pub dequeue_index: usize,
    pub cycle_state: u32,
}

impl EventRing {
    pub open spec fn wf(self) -> bool {
        &&& self.dequeue_index < 64
        &&& self.cycle_state < 2
        &&& self.region.address + 1024 <= u64::MAX
    }

    /// Where the next event is.
    pub open spec fn event_address(self) -> int {
        self.region.address + 16 * self.dequeue_index
    }

    /// The ring once the next event is taken.
    pub open spec fn advanced(self) -> EventRing {
        if self.dequeue_index + 1 == 64 {
            EventRing {
                dequeue_index: 0,
                cycle_state: (1 - self.cycle_state) as u32,
                ..self
            }
        } else {
            EventRing { dequeue_index: (self.dequeue_index + 1) as usize, ..self }
        }
    }

    pub fn new(region: DmaRegion) -> (ring: Self)
        ensures
            ring == (EventRing { region, dequeue_index: 0, cycle_state: 1 }),
    {
        Self { region, dequeue_index: 0, cycle_state: 1 }
    }

    /// The address of the next event, and what makes the CPU see it.
    pub fn peek_address(&self) -> (place: (u64, IoOp))
        requires
            self.wf(),
        ensures
            place.0 == self.event_address(),
            place.1 == (IoOp::Invalidate { address: self.event_address() as u64, size: 16 }),
    {
        let address: u64 = self.region.address + 16 * (self.dequeue_index as u64);
        (address, IoOp::Invalidate { address, size: 16 })
    }

    /// The event is the controller's answer, and not what is left of an earlier turn.
    pub open spec fn holds(self, event: Trb) -> bool {
        event.control as int % 2 == self.cycle_state
    }

    pub fn is_new(&self, event: &Trb) -> (new: bool)
        ensures
            new == self.holds(*event),
    {
        event.control % 2 == self.cycle_state
    }

    pub fn advance(&mut self)
        requires
            old(self).wf(),
        ensures
            final(self).wf(),
            *final(self) == old(self).advanced(),
    {
        self.dequeue_index = self.dequeue_index + 1;
        if self.dequeue_index == TRBS_PER_SEGMENT {
            self.dequeue_index = 0;
            self.cycle_state = 1 - self.cycle_state;
        }
    }
}

} // verus!
