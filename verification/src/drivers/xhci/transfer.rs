//! The TRBs of control and bulk transfers.

use crate::dma::IoOp;
use crate::drivers::xhci::descriptor::SetupPacket;
use crate::drivers::xhci::ring::{
    Ring, Trb, TrbRing, TRB_CHAIN, TRB_DATA, TRB_DIR_IN, TRB_IDT, TRB_IOC, TRB_ISP, TRB_NORMAL,
    TRB_SETUP, TRB_STATUS,
};
use vstd::prelude::*;

verus! {

/// How many TRBs one transfer descriptor has at most. A ring has room for that many besides its link
/// TRB, and the controller does not start before all of them are written.
pub const MAX_TRBS_PER_WAVE: u64 = 63;

/// How many bytes from `address` on one TRB covers: it never crosses a 64 KiB boundary.
pub open spec fn chunk_length(address: int, remaining: int) -> int {
    let limit = 0x1_0000 - address % 0x1_0000;
    if remaining < limit {
        remaining
    } else {
        limit
    }
}

/// How many TRBs cover `length` bytes from `address` on.
pub open spec fn chunk_count(address: int, length: int) -> int
    decreases length,
{
    if length <= 0 {
        0
    } else {
        let chunk = chunk_length(address, length);
        1 + chunk_count(address + chunk, length - chunk)
    }
}

/// How many bytes from `address` on one transfer descriptor covers.
pub open spec fn wave_length(address: int, remaining: int) -> int {
    let limit = 0x3F_0000 - address % 0x1_0000;
    if remaining < limit {
        remaining
    } else {
        limit
    }
}

/// How many bytes from `address` on one transfer descriptor covers.
pub fn max_wave_length(address: u64, remaining: u64) -> (length: u64)
    requires
        address + remaining <= u64::MAX,
    ensures
        length == wave_length(address as int, remaining as int),
        remaining > 0 ==> length > 0,
        length <= remaining,
{
    let mut current: u64 = address;
    let mut total: u64 = 0;
    let mut count: u64 = 0;
    while count < MAX_TRBS_PER_WAVE && total < remaining
        invariant
            count <= 63,
            address + remaining <= u64::MAX,
            total <= remaining,
            current == address + total,
            count == 0 ==> total == 0,
            count > 0 ==> total == if remaining < 0x1_0000 * count - address % 0x1_0000 {
                remaining as int
            } else {
                0x1_0000 * count - address % 0x1_0000
            },
        decreases 63 - count,
    {
        let boundary_limit: u64 = 0x1_0000 - current % 0x1_0000;
        let chunk: u64 = if remaining - total < boundary_limit {
            remaining - total
        } else {
            boundary_limit
        };
        proof {
            if count > 0 && total < remaining {
                assert(total == 0x1_0000 * count - address % 0x1_0000);
                assert(current % 0x1_0000 == 0);
            }
        }
        total = total + chunk;
        current = current + chunk;
        count = count + 1;
    }
    total
}

/// The bytes that one transfer descriptor covers need no more TRBs than a ring has room for.
pub proof fn wave_fits_the_ring(address: int, remaining: int)
    requires
        0 <= address,
        0 <= remaining,
    ensures
        chunk_count(address, wave_length(address, remaining)) <= 63,
        0 <= wave_length(address, remaining) <= remaining,
        remaining > 0 ==> wave_length(address, remaining) > 0,
{
    let length = wave_length(address, remaining);
    lemma_chunk_count(address, length);
}

/// Every TRB but the first starts on a 64 KiB boundary.
proof fn lemma_chunk_count(address: int, length: int)
    requires
        0 <= address,
        0 <= length,
    ensures
        chunk_count(address, length) == if length == 0 {
            0
        } else {
            (length + address % 0x1_0000 + 0xFFFF) / 0x1_0000
        },
    decreases length,
{
    if length > 0 {
        let chunk = chunk_length(address, length);
        lemma_chunk_count(address + chunk, length - chunk);
    }
}

/// How many packets are still to come behind a TRB of `current` bytes.
pub open spec fn packets_left(before: int, current: int, total: int, max_packet: int) -> int {
    if current == total || max_packet == 0 || before + current >= total {
        0
    } else {
        let left = (total + max_packet - 1) / max_packet - (before + current) / max_packet;
        if left < 0 {
            0
        } else {
            left
        }
    }
}

/// How many packets are still to come behind a TRB of `current` bytes.
pub fn transfer_trb_remainder(
    transferred_before: u64,
    current_trb_len: u64,
    total_len: u64,
    max_packet: u64,
) -> (remainder: u64)
    requires
        transferred_before + current_trb_len <= u64::MAX,
        total_len + max_packet <= u64::MAX,
    ensures
        remainder == packets_left(
            transferred_before as int,
            current_trb_len as int,
            total_len as int,
            max_packet as int,
        ),
{
    if current_trb_len == total_len || max_packet == 0 || transferred_before + current_trb_len
        >= total_len {
        return 0;
    }
    let total_packets: u64 = (total_len + max_packet - 1) / max_packet;
    total_packets.saturating_sub((transferred_before + current_trb_len) / max_packet)
}

/// The length and TD size of a TRB.
pub open spec fn length_field(length: int, remainder: int) -> u32 {
    (length % 0x2_0000 + 0x2_0000 * if remainder < 31 {
        remainder
    } else {
        31
    }) as u32
}

fn trb_length(length: u64, remainder: u64) -> (field: u32)
    ensures
        field == length_field(length as int, remainder as int),
{
    let size: u64 = if remainder < 31 {
        remainder
    } else {
        31
    };
    (length % 0x2_0000 + 0x2_0000 * size) as u32
}

/// One transfer descriptor of a bulk transfer.
#[derive(Clone, Copy, PartialEq, Eq, Debug, Structural)]
pub struct Wave {
    pub address: u64,
    pub length: u64,
    pub max_packet: u16,
    pub is_in: bool,
    pub dma_offset: u64,
}

impl Wave {
    pub open spec fn wf(self) -> bool {
        &&& self.address + self.length + self.dma_offset <= u64::MAX
        &&& self.length <= 0x3F_0000
    }

    pub open spec fn chunk(self, transferred: int) -> int {
        chunk_length(self.address + transferred, self.length - transferred)
    }

    /// The TRB behind the first `transferred` bytes. The first TRB is held back from the controller
    /// by the wrong cycle bit; the last asks for an event.
    pub open spec fn trb(self, start_cycle: int, cycle: int, transferred: int) -> Trb {
        let chunk = self.chunk(transferred);
        Trb {
            parameter: (self.address + transferred + self.dma_offset) as u64,
            status: length_field(
                chunk,
                packets_left(transferred, chunk, self.length as int, self.max_packet as int),
            ),
            control: (0x400 + (if transferred == 0 {
                1 - start_cycle
            } else {
                cycle
            }) + (if self.is_in {
                4int
            } else {
                0
            }) + (if self.length - transferred > chunk {
                0x10int
            } else {
                0x20
            })) as u32,
        }
    }

    /// The ring and the accesses once the TRBs behind the first `transferred` bytes are written.
    pub open spec fn written_from(self, ring: Ring, start_cycle: int, transferred: int) -> (
        Ring,
        Seq<IoOp>,
    )
        decreases self.length - transferred,
    {
        if transferred >= self.length {
            (ring, Seq::empty())
        } else {
            let trb = self.trb(start_cycle, ring.cycle, transferred);
            let (after, ops) = self.written_from(
                ring.pushed(trb),
                start_cycle,
                transferred + self.chunk(transferred),
            );
            (after, ring.push_ops(trb) + ops)
        }
    }

    /// The ring and the accesses of the whole transfer descriptor.
    pub open spec fn submitted(self, ring: Ring) -> (Ring, Seq<IoOp>) {
        let (after, ops) = self.written_from(ring, ring.cycle, 0);
        (after.committed(ring.index, ring.cycle), ops + after.commit_ops(ring.index, ring.cycle))
    }

    /// Writes the transfer descriptor to the ring.
    pub fn submit(&self, ring: &mut TrbRing, ops: &mut Vec<IoOp>)
        requires
            self.wf(),
            old(ring).wf(),
        ensures
            final(ring).wf(),
            final(ring)@ == self.submitted(old(ring)@).0,
            final(ops)@ == old(ops)@ + self.submitted(old(ring)@).1,
    {
        let start_index: usize = ring.enqueue_index;
        let start_cycle: u32 = ring.cycle_state;
        let ghost start = ring@;
        let ghost first = ops@;
        let ghost whole = self.written_from(start, start.cycle, 0);
        let mut transferred: u64 = 0;
        assert(first + whole.1 =~= ops@ + whole.1);
        while transferred < self.length
            invariant
                self.wf(),
                ring.wf(),
                transferred <= self.length,
                start_cycle == start.cycle,
                start_index == start.index,
                start.valid(),
                start == old(ring)@,
                first == old(ops)@,
                whole == self.written_from(start, start.cycle, 0),
                whole.0 == self.written_from(ring@, start.cycle, transferred as int).0,
                first + whole.1 == ops@ + self.written_from(
                    ring@,
                    start.cycle,
                    transferred as int,
                ).1,
            decreases self.length - transferred,
        {
            let ghost now = ring@;
            let ghost done = ops@;
            let remaining: u64 = self.length - transferred;
            let current: u64 = self.address + transferred;
            let boundary_limit: u64 = 0x1_0000 - current % 0x1_0000;
            let chunk: u64 = if remaining < boundary_limit {
                remaining
            } else {
                boundary_limit
            };
            assert(chunk == self.chunk(transferred as int));
            let cycle: u32 = if transferred == 0 {
                1 - start_cycle
            } else {
                ring.cycle_state
            };
            let mut control: u32 = TRB_NORMAL * 0x400 + cycle;
            if self.is_in {
                control = control + TRB_ISP;
            }
            if remaining > chunk {
                control = control + TRB_CHAIN;
            } else {
                control = control + TRB_IOC;
            }
            let remainder: u64 = transfer_trb_remainder(
                transferred,
                chunk,
                self.length,
                self.max_packet as u64,
            );
            let trb = Trb {
                parameter: current + self.dma_offset,
                status: trb_length(chunk, remainder),
                control,
            };
            assert(trb == self.trb(start.cycle, now.cycle, transferred as int));
            ring.push_trb_raw(trb, ops);
            transferred = transferred + chunk;
            assert(done + (now.push_ops(trb) + self.written_from(
                ring@,
                start.cycle,
                transferred as int,
            ).1) =~= ops@ + self.written_from(ring@, start.cycle, transferred as int).1);
        }
        assert(ops@ + Seq::<IoOp>::empty() =~= ops@);
        ring.commit_first_trb(start_index, start_cycle, ops);
        assert(ops@ =~= first + self.submitted(start).1);
    }
}

/// The setup stage, held back from the controller by the wrong cycle bit. From version 1.0 on the
/// controller is told what kind of data stage follows.
pub open spec fn setup_trb(setup: SetupPacket, hci_version: u16, length: int, cycle: int) -> Trb {
    Trb {
        parameter: (setup.request_type + 0x100 * setup.request + 0x1_0000 * setup.value
            + 0x1_0000_0000 * setup.index + 0x1_0000_0000_0000 * setup.length) as u64,
        status: 8,
        control: (0x840 + (if hci_version >= 0x100 && length > 0 {
            if setup.reads() {
                0x3_0000int
            } else {
                0x2_0000
            }
        } else {
            0
        }) + 1 - cycle) as u32,
    }
}

/// The data stage.
pub open spec fn data_trb(setup: SetupPacket, bus_address: int, length: int, cycle: int) -> Trb {
    Trb {
        parameter: bus_address as u64,
        status: length_field(length, 0),
        control: (0xC00 + (if setup.reads() {
            0x1_0004int
        } else {
            0
        }) + cycle) as u32,
    }
}

/// The status stage, in the direction opposite to that of the data. It asks for an event.
pub open spec fn status_trb(setup: SetupPacket, length: int, cycle: int) -> Trb {
    Trb {
        parameter: 0,
        status: 0,
        control: (0x1020 + (if length == 0 || !setup.reads() {
            0x1_0000int
        } else {
            0
        }) + cycle) as u32,
    }
}

/// Writes the setup stage of a control transfer.
pub fn push_setup(
    ring: &mut TrbRing,
    setup: &SetupPacket,
    hci_version: u16,
    length: u64,
    ops: &mut Vec<IoOp>,
)
    requires
        old(ring).wf(),
    ensures
        final(ring).wf(),
        ({
            let trb = setup_trb(*setup, hci_version, length as int, old(ring)@.cycle);
            &&& final(ring)@ == old(ring)@.pushed(trb)
            &&& final(ops)@ == old(ops)@ + old(ring)@.push_ops(trb)
        }),
{
    let mut control: u32 = TRB_SETUP * 0x400 + TRB_IDT + (1 - ring.cycle_state);
    if hci_version >= 0x100 && length > 0 {
        control = control + if setup.is_in() {
            0x3_0000
        } else {
            0x2_0000
        };
    }
    let trb = Trb {
        parameter: setup.request_type as u64 + 0x100 * (setup.request as u64) + 0x1_0000 * (
        setup.value as u64) + 0x1_0000_0000 * (setup.index as u64) + 0x1_0000_0000_0000 * (
        setup.length as u64),
        status: 8,
        control,
    };
    ring.push_trb_raw(trb, ops);
}

/// The ring and the accesses of the data and status stages. The data is cleaned out of the CPU's
/// cache in any direction: a line that is evicted later would overwrite what the controller wrote.
pub open spec fn stages_pushed(
    ring: Ring,
    setup: SetupPacket,
    dma_address: int,
    dma_offset: int,
    length: int,
) -> (Ring, Seq<IoOp>) {
    if length > 0 {
        let data = data_trb(setup, dma_address + dma_offset, length, ring.cycle);
        let middle = ring.pushed(data);
        let status = status_trb(setup, length, middle.cycle);
        (
            middle.pushed(status),
            seq![IoOp::Clean { address: dma_address as u64, size: length as u64 }] + ring.push_ops(
                data,
            ) + middle.push_ops(status),
        )
    } else {
        let status = status_trb(setup, length, ring.cycle);
        (ring.pushed(status), ring.push_ops(status))
    }
}

/// Writes the data and status stages of a control transfer.
pub fn push_stages(
    ring: &mut TrbRing,
    setup: &SetupPacket,
    dma_address: u64,
    dma_offset: u64,
    length: u64,
    ops: &mut Vec<IoOp>,
)
    requires
        old(ring).wf(),
        length > 0 ==> dma_address + dma_offset <= u64::MAX,
    ensures
        final(ring).wf(),
        ({
            let stages = stages_pushed(
                old(ring)@,
                *setup,
                dma_address as int,
                dma_offset as int,
                length as int,
            );
            &&& final(ring)@ == stages.0
            &&& final(ops)@ == old(ops)@ + stages.1
        }),
{
    let is_in: bool = setup.is_in();
    if length > 0 {
        ops.push(IoOp::Clean { address: dma_address, size: length });
        let mut control: u32 = TRB_DATA * 0x400 + ring.cycle_state;
        if is_in {
            control = control + TRB_DIR_IN + TRB_ISP;
        }
        let data = Trb {
            parameter: dma_address + dma_offset,
            status: trb_length(length, 0),
            control,
        };
        ring.push_trb_raw(data, ops);
    }
    let mut control: u32 = TRB_STATUS * 0x400 + TRB_IOC + ring.cycle_state;
    if length == 0 || !is_in {
        control = control + TRB_DIR_IN;
    }
    let status = Trb { parameter: 0, status: 0, control };
    ring.push_trb_raw(status, ops);
    assert(ops@ =~= old(ops)@ + stages_pushed(
        old(ring)@,
        *setup,
        dma_address as int,
        dma_offset as int,
        length as int,
    ).1);
}

/// How many of `length` bytes a transfer has moved.
pub open spec fn moved(length: int, event: Trb) -> int {
    if length < event.residue() {
        0
    } else {
        length - event.residue()
    }
}

/// The transfer went through, all of it or a part.
pub open spec fn succeeded(event: Trb) -> bool {
    event.completion() == 1 || event.completion() == 13
}

pub fn bytes_moved(length: u64, event: &Trb) -> (bytes: u64)
    ensures
        bytes == moved(length as int, *event),
{
    length.saturating_sub(event.event_residue() as u64)
}

pub fn has_succeeded(event: &Trb) -> (success: bool)
    ensures
        success == succeeded(*event),
{
    let completion: u32 = event.completion_code();
    completion == crate::drivers::xhci::ring::COMP_SUCCESS || completion
        == crate::drivers::xhci::ring::COMP_SHORT_TX
}

} // verus!
