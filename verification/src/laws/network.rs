//! The network controllers of the machine, and the memory that they share.

use crate::dma::{write64, DmaRegion, IoOp};
use crate::drivers::genet::{Genet, LinkStatus, LinkWait, Poll};
use crate::drivers::pcie_brcm::{
    read_mmio_window, ConfigAccess, FindStage, PcieBrcm, XhciPciDevice,
};
use crate::drivers::virtio_net::{lemma_first_free, NetSetup, NetStage, Sending, VirtioNet};
use crate::memory_allocator::MemoryAllocator;
use crate::net::{
    get_guest_net_mac, init_physical_net, needs_net_polling_on_wfx, NetRx, PhysicalNet,
};
use vstd::prelude::*;

verus! {

/// The 32 bits at `address` become `value`.
pub open spec fn store(address: int, value: int) -> IoOp {
    IoOp::Write { address: address as u64, value: value as u32 }
}

/// The 16 bits at `address` become `value`.
pub open spec fn store16(address: int, value: int) -> IoOp {
    IoOp::Write16 { address: address as u64, value: value as u16 }
}

/// A 64-bit number is written in two halves, the lower one at the lower address.
pub proof fn halves_make_the_number(ops: &mut Vec<IoOp>, address: u64, value: u64)
    requires
        address + 4 <= u64::MAX,
        call_ensures(write64, (ops, address, value), ()),
    ensures
        ({
            let n = old(ops)@.len() as int;
            &&& final(ops)@.len() == n + 2
            &&& forall|i: int| 0 <= i < n ==> #[trigger] final(ops)@[i] == old(ops)@[i]
            &&& exists|low: u32, high: u32|
                final(ops)@[n] == #[trigger] store(address as int, low as int) && final(ops)@[n + 1]
                    == #[trigger] store(address + 4, high as int) && value == low + 0x1_0000_0000
                    * high
        }),
{
    let n = old(ops)@.len() as int;
    let low = (value % 0x1_0000_0000) as u32;
    let high = (value / 0x1_0000_0000) as u32;
    assert(final(ops)@[n] == store(address as int, low as int));
    assert(final(ops)@[n + 1] == store(address + 4, high as int));
}

/// Memory for a device is whole pages below 4 GiB, as many as its size takes and one at least, which are zero
/// and cleaned before the device sees them.
pub proof fn device_memory_is_prepared(
    allocator: &mut MemoryAllocator,
    size: u64,
    align_order: usize,
    ops: &mut Vec<IoOp>,
    result: Result<DmaRegion, ()>,
    offset: u64,
    bus: u64,
    clean: IoOp,
    invalidate: IoOp,
)
    requires
        old(allocator).wf(),
        call_ensures(DmaRegion::new, (allocator, size, align_order, ops), result),
        result matches Ok(region) ==> {
            &&& region.address + offset <= u64::MAX
            &&& call_ensures(DmaRegion::to_bus, (&region, offset), bus)
            &&& call_ensures(DmaRegion::clean, (&region,), clean)
            &&& call_ensures(DmaRegion::invalidate, (&region,), invalidate)
        },
    ensures
        result is Err ==> final(ops)@ == old(ops)@ && final(allocator)@ == old(allocator)@,
        result matches Ok(region) ==> {
            &&& region.size == size
            &&& region.pages >= 1
            &&& region.pages * 4096 >= size
            &&& region.pages > 1 ==> (region.pages - 1) * 4096 < size
            &&& region.address + region.pages * 4096 <= 0x1_0000_0000
            &&& bus == region.address + offset
            &&& clean == (IoOp::Clean {
                address: region.address,
                size: (region.pages * 4096) as u64,
            })
            &&& invalidate == (IoOp::Invalidate {
                address: region.address,
                size: (region.pages * 4096) as u64,
            })
            &&& final(ops)@ == old(ops)@.push(
                IoOp::Zero { address: region.address, size: (region.pages * 4096) as u64 },
            ).push(clean)
        },
{
    crate::allocator_laws::allocator_is_consistent(*old(allocator));
    if result is Ok {
        let region = result->Ok_0;
        crate::dma::lemma_region_fits(
            old(allocator)@,
            crate::dma::pages_for(size as int),
            align_order as nat,
        );
        assert(final(ops)@ =~= old(ops)@.push(
            IoOp::Zero { address: region.address, size: (region.pages * 4096) as u64 },
        ).push(clean));
    }
}

/// The MAC address is in two registers, its first byte in the highest byte of the first one. A controller
/// without one gets 52:54:00:12:34:56.
pub proof fn mac_is_taken_from_its_registers(
    base_address: u64,
    range: u64,
    phy: Option<(u8, u16, u16)>,
    mac0: u32,
    mac1: u32,
    allocator: &mut MemoryAllocator,
    result: Result<Genet, ()>,
)
    requires
        base_address + 0x1_0000 <= u64::MAX,
        old(allocator).wf(),
        call_ensures(Genet::new, (base_address, range, phy, mac0, mac1, allocator), result),
    ensures
        range < 0x1_0000 ==> result is Err,
        phy is None ==> result is Err,
        result matches Ok(net) ==> {
            let mac = net.mac@;
            &&& net.base_address == base_address
            &&& phy == Some((net.phy_addr, net.phy_id1, net.phy_id2))
            &&& !net.data_path_ready
            &&& net.tx_index == 0 && net.rx_index == 0 && net.c_index == 0
            &&& if mac0 == 0 && mac1 % 0x1_0000 == 0 {
                mac == seq![0x52u8, 0x54, 0x00, 0x12, 0x34, 0x56]
            } else {
                &&& mac0 == mac[0] * 0x100_0000 + mac[1] * 0x1_0000 + mac[2] * 0x100 + mac[3]
                &&& mac1 % 0x1_0000 == mac[4] * 0x100 + mac[5]
            }
        },
{
    if result is Ok {
        let read = crate::drivers::genet::mac_of(mac0, mac1);
        let zeros = seq![0u8, 0, 0, 0, 0, 0];
        if mac0 == 0 && mac1 % 0x1_0000 == 0 {
            assert(read =~= zeros);
        } else {
            if read == zeros {
                assert(read[0] == 0 && read[1] == 0 && read[2] == 0 && read[3] == 0 && read[4] == 0
                    && read[5] == 0);
                assert(false);
            }
        }
    }
}

/// The first accesses of the data path: the MAC is reset with no frames on their way, told the address of the
/// machine, and the rings are stopped.
pub proof fn controller_is_told_its_address(net: &Genet, ops: &mut Vec<IoOp>)
    requires
        net.wf(),
        call_ensures(Genet::umac_reset, (net, ops), ()),
    ensures
        ({
            let base = net.base_address as int;
            final(ops)@ == old(ops)@ + seq![
                store(base + 0x4, 3),
                store(base + 0x8, 0),
                store(base + 0x808, 0),
                store(base + 0x808, 0xA000),
                store(base + 0x808, 0),
                store(base + 0xD80, 7),
                store(base + 0xD80, 0),
                store(base + 0x814, 1536),
                IoOp::Modify { address: (base + 0x300) as u64, clear: 0, set: 2 },
                store(base + 0x3B4, 1),
                store(
                    base + 0x80C,
                    net.mac[0] * 0x100_0000 + net.mac[1] * 0x1_0000 + net.mac[2] * 0x100
                        + net.mac[3],
                ),
                store(base + 0x810, net.mac[4] * 0x100 + net.mac[5]),
                IoOp::Modify { address: (base + 0x8C) as u64, clear: 0x20, set: 0x1_0050 },
                IoOp::Modify { address: (base + 0x5044) as u64, clear: 1, set: 0 },
                IoOp::Modify { address: (base + 0x3044) as u64, clear: 1, set: 0 },
                store(base + 0xB34, 1),
                store(base + 0xB34, 0),
                store(base + 0x304C, 8),
                store(base + 0x3014, 0),
                store(base + 0x302C, 0),
                store(base + 0x3000, 0),
                store(base + 0x301C, 767),
            ]
        }),
{
    let base = net.base_address as int;
    let expected = seq![
        store(base + 0x4, 3),
        store(base + 0x8, 0),
        store(base + 0x808, 0),
        store(base + 0x808, 0xA000),
        store(base + 0x808, 0),
        store(base + 0xD80, 7),
        store(base + 0xD80, 0),
        store(base + 0x814, 1536),
        IoOp::Modify { address: (base + 0x300) as u64, clear: 0, set: 2 },
        store(base + 0x3B4, 1),
        store(
            base + 0x80C,
            net.mac[0] * 0x100_0000 + net.mac[1] * 0x1_0000 + net.mac[2] * 0x100 + net.mac[3],
        ),
        store(base + 0x810, net.mac[4] * 0x100 + net.mac[5]),
        IoOp::Modify { address: (base + 0x8C) as u64, clear: 0x20, set: 0x1_0050 },
        IoOp::Modify { address: (base + 0x5044) as u64, clear: 1, set: 0 },
        IoOp::Modify { address: (base + 0x3044) as u64, clear: 1, set: 0 },
        store(base + 0xB34, 1),
        store(base + 0xB34, 0),
        store(base + 0x304C, 8),
        store(base + 0x3014, 0),
        store(base + 0x302C, 0),
        store(base + 0x3000, 0),
        store(base + 0x301C, 767),
    ];
    assert(net.reset_ops() =~= expected);
}

/// Where the accesses for an RX descriptor are.
proof fn lemma_rx_descriptors(net: &Genet, n: nat, i: int)
    requires
        0 <= i < n <= 256,
    ensures
        ({
            let ops = net.rx_descriptor_ops(n);
            let base = net.base_address + 0x2000 + 12 * i;
            let buffer = net.rx_buffers + 2048 * i;
            &&& ops.len() == 4 * n
            &&& ops[4 * i] == store(base + 4, (buffer as u64 % 0x1_0000_0000) as int)
            &&& ops[4 * i + 1] == store(base + 8, (buffer as u64 / 0x1_0000_0000) as int)
            &&& ops[4 * i + 2] == store(base, 0x0800_8000)
            &&& ops[4 * i + 3] == (IoOp::Clean { address: buffer as u64, size: 2048 })
        }),
    decreases n,
{
    lemma_rx_length(net, (n - 1) as nat);
    if i < n - 1 {
        lemma_rx_descriptors(net, (n - 1) as nat, i);
    }
}

proof fn lemma_rx_length(net: &Genet, n: nat)
    ensures
        net.rx_descriptor_ops(n).len() == 4 * n,
    decreases n,
{
    if n > 0 {
        lemma_rx_length(net, (n - 1) as nat);
    }
}

/// Each of the 256 RX descriptors is 12 bytes long, belongs to the controller and names its own buffer of 2 KiB.
/// The driver goes on from the controller's own index.
pub proof fn rx_descriptors_name_their_buffers(
    net: &mut Genet,
    producer_index: u32,
    ops: &mut Vec<IoOp>,
    i: int,
)
    requires
        old(net).wf(),
        call_ensures(Genet::rx_ring_init, (net, producer_index, ops), ()),
        0 <= i < 256,
    ensures
        ({
            let from = old(ops)@.len() as int;
            let base = old(net).base_address as int;
            let at = base + 0x2000 + 12 * i;
            let buffer = old(net).rx_buffers + 2048 * i;
            let after = final(ops)@;
            &&& final(net).c_index == producer_index % 0x1_0000
            &&& final(net).rx_index == producer_index % 256
            &&& final(net).rx_buffers == old(net).rx_buffers
            &&& after.len() == from + 4 + 1024 + 5
            &&& after[from] == store(base + 0x300C, producer_index as int % 0x1_0000)
            &&& after[from + 1] == store(base + 0x3010, 0x100_0800)
            &&& after[from + 2] == store(base + 0x3028, 0x5_0010)
            &&& after[from + 3] == store(base + 0x3040, 0x1_0000)
            &&& after[from + 4 + 4 * i] == store(
                at + 4,
                (buffer as u64 % 0x1_0000_0000) as int,
            )
            &&& after[from + 4 + 4 * i + 1] == store(
                at + 8,
                (buffer as u64 / 0x1_0000_0000) as int,
            )
            &&& after[from + 4 + 4 * i + 2] == store(at, 0x0800_8000)
            &&& after[from + 4 + 4 * i + 3] == (IoOp::Clean { address: buffer as u64, size: 2048 })
            &&& after[from + 1028] == store(base + 0x504C, 8)
            &&& after[from + 1029] == store(base + 0x5014, 0)
            &&& after[from + 1030] == store(base + 0x5000, 0)
            &&& after[from + 1031] == store(base + 0x502C, 0)
            &&& after[from + 1032] == store(base + 0x501C, 767)
        }),
{
    lemma_rx_descriptors(old(net), 256, i);
}

/// The TX ring goes on from the controller's own index. Then the DMA of both rings is on, and the MAC is on in
/// the mode that was negotiated.
pub proof fn rings_are_started(
    net: &mut Genet,
    consumer_index: u32,
    ops: &mut Vec<IoOp>,
    enabled: &mut Genet,
    speed: u32,
    half_duplex: bool,
    enable: &mut Vec<IoOp>,
)
    requires
        old(net).wf(),
        old(enabled).wf(),
        speed < 3,
        call_ensures(Genet::tx_ring_init, (net, consumer_index, ops), ()),
        call_ensures(Genet::enable_rx_tx, (enabled, speed, half_duplex, enable), ()),
    ensures
        ({
            let base = old(net).base_address as int;
            let command = 4 * speed + if half_duplex {
                0x400int
            } else {
                0
            };
            &&& final(net).tx_index == consumer_index % 256
            &&& final(ops)@ == old(ops)@ + seq![
                store(base + 0x500C, consumer_index as int % 0x1_0000),
                store(base + 0x5024, 1),
                store(base + 0x5028, 0),
                store(base + 0x5010, 0x100_0800),
                store(base + 0x5040, 0x1_0000),
                store(base + 0x5044, 0x2_0001),
                store(base + 0x3044, 0x2_0001),
            ]
            &&& final(enabled).data_path_ready
            &&& final(enable)@ == old(enable)@ + seq![
                store(old(enabled).base_address + 0x808, command),
                store(old(enabled).base_address + 0x808, command + 3),
            ]
        }),
{
    let base = old(net).base_address as int;
    assert(old(net).tx_ring_ops(consumer_index) =~= seq![
        store(base + 0x500C, consumer_index as int % 0x1_0000),
        store(base + 0x5024, 1),
        store(base + 0x5028, 0),
        store(base + 0x5010, 0x100_0800),
        store(base + 0x5040, 0x1_0000),
        store(base + 0x5044, 0x2_0001),
        store(base + 0x3044, 0x2_0001),
    ]);
}

/// The mode is the best one that both sides have: 1000 Mbit/s before 100 before 10, and both directions at once
/// before one at a time. Before the negotiation is over it is the slowest.
pub proof fn best_common_mode_is_taken(
    bmsr: u16,
    gtctl: u16,
    gtsr: u16,
    advertise: u16,
    lpa: u16,
    mode: (u32, bool),
)
    requires
        call_ensures(
            Genet::resolve_negotiated_speed,
            (bmsr, gtctl, gtsr, advertise, lpa),
            mode,
        ),
    ensures
        ({
            let over = bmsr & 0x20 != 0;
            let common = advertise & lpa;
            let full_1000 = gtctl & 0x200 != 0 && gtsr & 0x800 != 0;
            let half_1000 = gtctl & 0x100 != 0 && gtsr & 0x400 != 0;
            &&& !over ==> mode == (0u32, true)
            &&& over && full_1000 ==> mode == (2u32, false)
            &&& over && !full_1000 && half_1000 ==> mode == (2u32, true)
            &&& over && !full_1000 && !half_1000 ==> mode.0 < 2
            &&& over && !full_1000 && !half_1000 && common & 0x100 != 0 ==> mode == (1u32, false)
            &&& over && !full_1000 && !half_1000 && common & 0x100 == 0 && common & 0x80 != 0 ==> mode
                == (1u32, true)
            &&& over && !full_1000 && !half_1000 && common & 0x100 == 0 && common & 0x80 == 0 ==> mode.0
                == 0 && mode.1 == (common & 0x40 == 0)
        }),
{
}

/// A PHY register is read with its address in bits 21 to 25 and its number in bits 16 to 20. The access is over
/// once bit 29 is clear; bit 28 says that it failed, and the lowest 16 bits are what was read.
pub proof fn phy_register_is_read(
    phy: u8,
    reg: u8,
    commands: (u32, u32),
    status: u32,
    frequency: u64,
    start: u64,
    now: u64,
    tries: u32,
    poll: Poll<u16>,
)
    requires
        phy < 32,
        reg < 32,
        call_ensures(Genet::mdio_read, (phy, reg), commands),
        call_ensures(
            Genet::wait_mdio_complete,
            (status, frequency, start, now, tries),
            poll,
        ),
    ensures
        commands.0 as int / 0x400_0000 == 2,
        commands.0 as int / 0x20_0000 % 32 == phy,
        commands.0 as int / 0x1_0000 % 32 == reg,
        commands.0 as int % 0x1_0000 == 0,
        commands.1 == commands.0 + 0x2000_0000,
        ({
            let busy = status as int / 0x2000_0000 % 2 == 1;
            let failed = status as int / 0x1000_0000 % 2 == 1;
            let limit = if frequency < 400 {
                1int
            } else {
                frequency as int / 200
            };
            &&& !busy && failed ==> poll is Failed
            &&& !busy && !failed ==> poll == Poll::Ready((status as int % 0x1_0000) as u16)
            &&& busy ==> poll is Again || poll is Failed
            &&& busy && frequency > 0 && start <= now ==> (poll is Failed <==> now - start >= limit)
            &&& busy && frequency == 0 ==> (poll is Failed <==> tries >= 9999)
        }),
{
}

/// There is a PHY where both of its identifiers are neither all zeros nor all ones, and addresses 1 and 0 are
/// tried first.
pub proof fn phy_is_found_by_its_identifiers(
    address: u8,
    id1: Option<u16>,
    id2: Option<u16>,
    phy: Option<(u8, u16, u16)>,
    n: u8,
    candidate: Option<u8>,
)
    requires
        call_ensures(Genet::try_probe_phy, (address, id1, id2), phy),
        call_ensures(Genet::detect_phy, (n,), candidate),
    ensures
        phy is Some <==> (id1 matches Some(a) && a != 0 && a != 0xFFFF) && (id2 matches Some(b) && b != 0
            && b != 0xFFFF),
        phy matches Some((at, a, b)) ==> at == address && id1 == Some(a) && id2 == Some(b),
        candidate is Some <==> n < 32,
        n == 0 ==> candidate == Some(1u8),
        n == 1 ==> candidate == Some(0u8),
        2 <= n < 32 ==> candidate == Some(n),
{
}

/// The link is up where the PHY said so in one of two readings, or the MAC does.
pub proof fn link_is_up_where_seen(
    first: Option<u16>,
    second: Option<u16>,
    mode: u32,
    result: Result<LinkStatus, ()>,
    up: bool,
)
    requires
        call_ensures(Genet::read_link_status, (first, second, mode), result),
        result matches Ok(status) ==> call_ensures(LinkStatus::is_up, (&status,), up),
    ensures
        result is Ok <==> first is Some && second is Some,
        result matches Ok(status) ==> {
            &&& status.phy_link <==> (first->0 | second->0) & 4 != 0
            &&& status.mac_link <==> mode as int / 32 % 2 == 1
            &&& up <==> status.phy_link || status.mac_link
        },
{
}

/// A wait for the link goes on while it is down and the time is not over, and looks a hundred times a second.
pub proof fn link_is_awaited(
    frequency: u64,
    timeout_ms: u64,
    start: u64,
    last: u64,
    link: LinkStatus,
    now: u64,
    wait: LinkWait,
)
    requires
        call_ensures(
            Genet::wait_link_up,
            (frequency, timeout_ms, start, Some(last), Ok(link), now),
            wait,
        ),
        100 <= frequency,
        frequency * timeout_ms <= u64::MAX,
        start <= last <= now,
    ensures
        ({
            let up = link.phy_link || link.mac_link;
            let over = now - start >= frequency * timeout_ms / 1000;
            &&& wait is Done <==> up || over
            &&& wait matches LinkWait::Done(status) ==> status == Ok::<LinkStatus, ()>(link)
            &&& !up && !over ==> (wait is Look <==> now - last >= frequency as int / 100)
        }),
{
}

/// A frame that is sent is cleaned from the cache, and the next TX descriptor names it with its length. The
/// index goes round the 256 descriptors.
pub proof fn sent_frame_is_named(
    net: &mut Genet,
    buffer: u64,
    length: u64,
    ops: &mut Vec<IoOp>,
    producer: u32,
    submit: &mut Vec<IoOp>,
    target: u32,
)
    requires
        old(net).wf(),
        call_ensures(Genet::send, (net, buffer, length, ops), ()),
        call_ensures(Genet::submit_frame, (&*old(net), producer, submit), target),
    ensures
        ({
            let at = old(net).base_address + 0x4000 + 12 * old(net).tx_index;
            &&& final(ops)@ == old(ops)@ + seq![
                IoOp::Clean { address: buffer, size: length },
                store(at + 4, buffer as int % 0x1_0000_0000),
                store(at + 8, buffer as int / 0x1_0000_0000),
                store(at, (length as int % 0x1_0000) * 0x1_0000 + 0x7FC0),
            ]
            &&& final(net).tx_index == (old(net).tx_index + 1) % 256
            &&& target == producer as int % 0x1_0000 + 1
            &&& final(submit)@ == old(submit)@.push(
                store(old(net).base_address + 0x500C, target as int),
            )
        }),
{
    let at = old(net).base_address + 0x4000 + 12 * old(net).tx_index;
    assert(final(ops)@ =~= old(ops)@ + seq![
        IoOp::Clean { address: buffer, size: length },
        store(at + 4, buffer as int % 0x1_0000_0000),
        store(at + 8, buffer as int / 0x1_0000_0000),
        store(at, (length as int % 0x1_0000) * 0x1_0000 + 0x7FC0),
    ]);
}

/// A frame is sent once the controller's index has reached it. It is looked for a million times.
pub proof fn sent_frame_is_awaited(consumer: u32, target: u32, tries: u32, poll: Poll<()>)
    requires
        call_ensures(Genet::poll_sent, (consumer, target, tries), poll),
    ensures
        poll is Ready <==> consumer as int % 0x1_0000 >= target,
        (consumer as int % 0x1_0000) < target ==> (poll is Failed <==> tries >= 999_999),
{
}

/// A packet has arrived where the controller's index is ahead by 256 at most. Its descriptor is the next one, its
/// length in bits 16 to 27, unless the descriptor still belongs to the controller.
pub proof fn arrived_packet_is_found(
    net: &Genet,
    producer: u32,
    descriptor: Option<u64>,
    length_status: u32,
    length: Option<u64>,
)
    requires
        net.wf(),
        call_ensures(Genet::next_rx_descriptor, (net, producer), descriptor),
        call_ensures(Genet::rx_length, (length_status,), length),
    ensures
        !net.data_path_ready ==> descriptor is None,
        net.data_path_ready && net.c_index <= producer % 0x1_0000 ==> (descriptor is Some <==> 0
            < producer % 0x1_0000 - net.c_index <= 256),
        descriptor matches Some(address) ==> address == net.base_address + 0x2000 + 12
            * net.rx_index,
        ({
            let stated = length_status as int / 0x1_0000 % 0x1000;
            &&& length is Some <==> length_status as int / 0x8000 % 2 == 0 && 0 < stated <= 2048
            &&& length matches Some(l) ==> l == stated
        }),
{
}

/// A packet is taken without the two bytes in front of it, as far as it fits. Its descriptor goes back to the
/// controller, and both indices go on by one.
pub proof fn packet_is_taken_once(
    net: &mut Genet,
    packet_address: u64,
    total_length: u64,
    capacity: u64,
    ops: &mut Vec<IoOp>,
    packet: (IoOp, u64, u64),
)
    requires
        old(net).wf(),
        packet_address + 2 <= u64::MAX,
        call_ensures(Genet::poll_rx, (net, packet_address, total_length, capacity, ops), packet),
    ensures
        ({
            let base = old(net).base_address as int;
            let next = (old(net).c_index + 1) % 0x1_0000;
            &&& packet.0 == (IoOp::Invalidate { address: packet_address, size: total_length })
            &&& packet.1 == packet_address + 2
            &&& packet.2 <= capacity
            &&& total_length >= 2 ==> packet.2 <= total_length - 2
            &&& total_length < 2 ==> packet.2 == 0
            &&& packet.2 == capacity || packet.2 == 0 || packet.2 == total_length - 2
            &&& total_length > 2 && capacity > 0 ==> packet.2 > 0
            &&& final(net).c_index == next
            &&& final(net).rx_index == (old(net).rx_index + 1) % 256
            &&& final(net).tx_index == old(net).tx_index
            &&& final(ops)@ == old(ops)@ + seq![
                store(base + 0x2000 + 12 * old(net).rx_index, 0x0800_8000),
                store(base + 0x300C, next),
            ]
        }),
{
    let base = old(net).base_address as int;
    let next = (old(net).c_index + 1) % 0x1_0000;
    assert(old(net).c_index.wrapping_add(1) == next);
    assert(final(ops)@ =~= old(ops)@ + seq![
        store(base + 0x2000 + 12 * old(net).rx_index, 0x0800_8000),
        store(base + 0x300C, next),
    ]);
}

/// A window of memory space is an entry of `ranges` whose first cell has 2 in bits 24 and 25: behind that cell
/// come the address on the bus, that of the CPU, and the size, each of two cells. The first such entry counts.
pub proof fn memory_window_is_read(
    cells: &[u32],
    window: Option<(u64, u64, u64)>,
)
    requires
        cells@.len() == 14,
        call_ensures(read_mmio_window, (cells, 3usize, 2usize, 2usize), window),
    ensures
        cells@[0] / 0x100_0000 % 4 == 2 ==> window == Some(
            (
                (cells@[1] * 0x1_0000_0000 + cells@[2]) as u64,
                (cells@[3] * 0x1_0000_0000 + cells@[4]) as u64,
                (cells@[5] * 0x1_0000_0000 + cells@[6]) as u64,
            ),
        ),
        cells@[0] / 0x100_0000 % 4 != 2 && cells@[7] / 0x100_0000 % 4 == 2 ==> window == Some(
            (
                (cells@[8] * 0x1_0000_0000 + cells@[9]) as u64,
                (cells@[10] * 0x1_0000_0000 + cells@[11]) as u64,
                (cells@[12] * 0x1_0000_0000 + cells@[13]) as u64,
            ),
        ),
        cells@[0] / 0x100_0000 % 4 != 2 && cells@[7] / 0x100_0000 % 4 != 2 ==> window is None,
{
    reveal_with_fuel(crate::drivers::pcie_brcm::window_from, 4);
    lemma_pair(cells@, 1);
    lemma_pair(cells@, 3);
    lemma_pair(cells@, 5);
    lemma_pair(cells@, 8);
    lemma_pair(cells@, 10);
    lemma_pair(cells@, 12);
}

proof fn lemma_pair(cells: Seq<u32>, i: int)
    requires
        0 <= i,
        i + 2 <= cells.len(),
    ensures
        crate::drivers::pcie_brcm::number_of(cells.subrange(i, i + 2)) == cells[i] * 0x1_0000_0000
            + cells[i + 1],
{
    reveal_with_fuel(crate::drivers::pcie_brcm::number_of, 3);
    let pair = cells.subrange(i, i + 2);
    assert(pair.drop_last().drop_last() =~= Seq::empty());
    assert(pair.last() == cells[i + 1]);
    assert(pair.drop_last().last() == cells[i]);
}

/// A register of the device on the first bus is reached through the window at 0x8000, once the index at 0x9000
/// names bus 1; one of the root complex directly. The link is up where bits 4 and 5 of the status are set.
pub proof fn configuration_is_reached(
    pcie: &PcieBrcm,
    bus: u8,
    dev: u8,
    func: u8,
    offset: u64,
    access: Option<ConfigAccess>,
    status: u32,
    up: bool,
    status_address: u64,
)
    requires
        pcie.wf(),
        offset < 0x1000,
        call_ensures(PcieBrcm::config_access, (pcie, bus, dev, func, offset), access),
        call_ensures(PcieBrcm::is_link_up, (status,), up),
        call_ensures(PcieBrcm::status_address, (pcie,), status_address),
    ensures
        access is Some <==> offset % 4 == 0 && (bus == 0 || bus == 1 && dev == 0 && func == 0),
        access is Some && bus == 0 ==> access == Some(
            ConfigAccess::Direct { address: (pcie.base_address + offset) as u64 },
        ),
        access is Some && bus == 1 ==> access == Some(
            ConfigAccess::Indexed {
                index_address: (pcie.base_address + 0x9000) as u64,
                index: 0x10_0000,
                address: (pcie.base_address + 0x8000 + offset) as u64,
            },
        ),
        up <==> status as int / 16 % 2 == 1 && status as int / 32 % 2 == 1,
        status_address == pcie.base_address + 0x4068,
{
    lemma_two_bits(status as int);
}

proof fn lemma_two_bits(status: int)
    requires
        0 <= status,
    ensures
        status / 16 % 4 == 3 <==> status / 16 % 2 == 1 && status / 32 % 2 == 1,
{
    let q = status / 16;
    assert(status / 32 == q / 2);
    assert(q % 4 == q % 2 + 2 * (q / 2 % 2));
}

/// What is in the window on the bus is as far into the CPU's window, and nothing else is reached.
pub proof fn bus_address_is_translated(
    base_address: u64,
    window: Option<(u64, u64, u64)>,
    pcie: PcieBrcm,
    bar: u64,
    address: Option<usize>,
)
    requires
        call_ensures(PcieBrcm::new, (base_address, window), pcie),
        call_ensures(PcieBrcm::translate_bar_to_cpu, (&pcie, bar), address),
    ensures
        pcie.base_address == base_address,
        ({
            let (child, parent, size) = match window {
                Some(stated) => stated,
                None => (0xF800_0000u64, 0x6_0000_0000u64, 0x0400_0000u64),
            };
            &&& address matches Some(a) ==> child <= bar < child + size && a - parent == bar - child
            &&& child <= bar < child + size && parent + size <= usize::MAX && parent + size <= u64::MAX
                ==> address is Some
        }),
{
}

/// The xHCI controller is a device of class 0x0C0330. It may access memory once bits 1 and 2 of its command
/// register are set, and its registers are where its first base address says, which may have 64 bits.
pub proof fn xhci_controller_is_recognised(
    pcie: &PcieBrcm,
    stage: FindStage,
    value: u32,
    next: (FindStage, Option<u32>),
    offset: u64,
    low_address: Option<usize>,
    high_address: Option<usize>,
)
    requires
        call_ensures(PcieBrcm::find_xhci_device, (pcie, stage, value), next),
        call_ensures(PcieBrcm::awaited_register, (stage,), offset),
        call_ensures(
            PcieBrcm::translate_bar_to_cpu,
            (pcie, (value - value as int % 16) as u64),
            low_address,
        ),
        stage matches FindStage::Bar1 { low, .. } ==> call_ensures(
            PcieBrcm::translate_bar_to_cpu,
            (pcie, (value * 0x1_0000_0000 + low) as u64),
            high_address,
        ),
    ensures
        stage is VendorDevice ==> offset == 0 && next.1 is None && if value as int % 0x1_0000 == 0xFFFF {
            next.0 is NotFound
        } else {
            next.0 == FindStage::Class {
                vendor_id: (value as int % 0x1_0000) as u16,
                device_id: (value as int / 0x1_0000) as u16,
            }
        },
        stage matches FindStage::Class { vendor_id, device_id } ==> offset == 8 && next.1 is None
            && next.0 == if value as int / 256 == 0x0C_0330 {
            FindStage::Command { vendor_id, device_id }
        } else {
            FindStage::NotFound
        },
        stage matches FindStage::Command { vendor_id, device_id } ==> offset == 4 && next == (
            FindStage::Bar0 { vendor_id, device_id },
            Some(value | 6),
        ),
        stage matches FindStage::Bar0 { vendor_id, device_id } ==> offset == 16 && next.1 is None
            && next.0 == if value as int % 2 == 1 {
            FindStage::NotFound
        } else if value as int / 2 % 4 == 2 {
            FindStage::Bar1 { vendor_id, device_id, low: (value - value as int % 16) as u32 }
        } else {
            match low_address {
                Some(cpu_mmio_base) => FindStage::Found(
                    XhciPciDevice { vendor_id, device_id, cpu_mmio_base },
                ),
                None => FindStage::NotFound,
            }
        },
        stage matches FindStage::Bar1 { vendor_id, device_id, .. } ==> offset == 20 && next.1 is None
            && next.0 == match high_address {
            Some(cpu_mmio_base) => FindStage::Found(
                XhciPciDevice { vendor_id, device_id, cpu_mmio_base },
            ),
            None => FindStage::NotFound,
        },
{
}

/// The frame goes out behind a header of ten bytes: one descriptor for each, the first of which leads to the
/// second. The first is put into the available ring, and the device is told of queue 1.
pub proof fn frame_is_handed_to_the_device(
    net: &mut VirtioNet,
    header_address: u64,
    buffer_address: u64,
    length: u64,
    ops: &mut Vec<IoOp>,
    result: Result<Sending, ()>,
)
    requires
        old(net).wf(),
        length < 0x1_0000_0000,
        call_ensures(VirtioNet::send, (net, header_address, buffer_address, length, ops), result),
    ensures
        result is Err ==> forall|i: int, j: int|
            0 <= i < j < 8 ==> !(#[trigger] old(net).tx.free[i] && #[trigger] old(net).tx.free[j]),
        result matches Ok(sending) ==> {
            let base = old(net).tx.base as int;
            let header = sending.header as int;
            let data = sending.data as int;
            let avail = old(net).tx.avail_idx as int;
            &&& header != data
            &&& old(net).tx.free[header] && old(net).tx.free[data]
            &&& !final(net).tx.free[header] && !final(net).tx.free[data]
            &&& sending.target_idx == (old(net).tx.last_used_idx + 1) % 0x1_0000
            &&& final(net).tx.avail_idx == (avail + 1) % 0x1_0000
            &&& final(ops)@ == old(ops)@ + seq![
                store(base + 16 * header, header_address as int % 0x1_0000_0000),
                store(base + 16 * header + 4, header_address as int / 0x1_0000_0000),
                store(base + 16 * header + 8, 10),
                store(base + 16 * header + 12, 1 + 0x1_0000 * data),
                store(base + 16 * data, buffer_address as int % 0x1_0000_0000),
                store(base + 16 * data + 4, buffer_address as int / 0x1_0000_0000),
                store(base + 16 * data + 8, length as int),
                store(base + 16 * data + 12, 0),
                store16(base + 132 + 2 * (avail % 8), header),
                store16(base + 130, (avail + 1) % 0x1_0000),
                store(old(net).base_address + 0x50, 1),
            ]
        },
{
    let queue = old(net).tx@;
    lemma_first_free(queue.free, 0);
    if crate::drivers::virtio_net::first_free(queue.free, 0) is Some {
        let header = crate::drivers::virtio_net::first_free(queue.free, 0)->0;
        lemma_first_free(queue.taken(header).free, 0);
        if result is Ok {
            let sending = result->Ok_0;
            let base = old(net).tx.base as int;
            let data = sending.data as int;
            let avail = old(net).tx.avail_idx as int;
            assert(old(net).tx.avail_idx.wrapping_add(1) == (avail + 1) % 0x1_0000);
            let after = final(net).tx@.free;
            assert(final(net).tx.free[header] == after[header]);
            assert(final(net).tx.free[data] == after[data]);
            assert(final(ops)@ =~= old(ops)@ + seq![
                store(base + 16 * header, header_address as int % 0x1_0000_0000),
                store(base + 16 * header + 4, header_address as int / 0x1_0000_0000),
                store(base + 16 * header + 8, 10),
                store(base + 16 * header + 12, 1 + 0x1_0000 * data),
                store(base + 16 * data, buffer_address as int % 0x1_0000_0000),
                store(base + 16 * data + 4, buffer_address as int / 0x1_0000_0000),
                store(base + 16 * data + 8, length as int),
                store(base + 16 * data + 12, 0),
                store16(base + 132 + 2 * (avail % 8), header),
                store16(base + 130, (avail + 1) % 0x1_0000),
                store(old(net).base_address + 0x50, 1),
            ]);
        } else {
            assert forall|i: int, j: int| 0 <= i < j < 8 implies !(#[trigger] old(net).tx.free[i]
                && #[trigger] old(net).tx.free[j]) by {
                let left = queue.taken(header).free;
                assert(left[i] == (if i == header {
                    false
                } else {
                    queue.free[i]
                }));
                assert(left[j] == (if j == header {
                    false
                } else {
                    queue.free[j]
                }));
            }
        }
    } else {
        assert forall|i: int, j: int| 0 <= i < j < 8 implies !(#[trigger] old(net).tx.free[i]
            && #[trigger] old(net).tx.free[j]) by {
            assert(!queue.free[i]);
        }
    }
}

/// A frame that has arrived is taken from its own buffer, behind the header of ten bytes and as far as it fits.
/// The buffer is posted again, and the device is told of queue 0.
pub proof fn arrived_frame_is_taken(
    net: &mut VirtioNet,
    id: u32,
    total_length: u32,
    capacity: u64,
    ops: &mut Vec<IoOp>,
    frame: (u64, u64),
    used_idx: u16,
    element: Option<u64>,
    status: u32,
    acknowledge: Option<IoOp>,
)
    requires
        old(net).wf(),
        id < 8,
        call_ensures(VirtioNet::poll_rx, (net, id, total_length, capacity, ops), frame),
        call_ensures(VirtioNet::next_rx, (&*old(net), used_idx), element),
        call_ensures(VirtioNet::acknowledge_interrupt, (&*old(net), status), acknowledge),
    ensures
        ({
            let base = old(net).rx.base as int;
            let last = old(net).rx.last_used_idx as int;
            let avail = old(net).rx.avail_idx as int;
            &&& element is Some <==> used_idx != last
            &&& element matches Some(address) ==> address == base + 0x1004 + 8 * (last % 8)
            &&& acknowledge is Some <==> status != 0
            &&& acknowledge matches Some(op) ==> op == store(
                old(net).base_address + 0x64,
                status as int,
            )
            &&& frame.0 == old(net).rx_buffers + 1526 * id + 10
            &&& frame.1 <= capacity
            &&& total_length >= 10 ==> frame.1 <= total_length - 10
            &&& total_length < 10 ==> frame.1 == 0
            &&& frame.1 == capacity || frame.1 == 0 || frame.1 == total_length - 10
            &&& total_length > 10 && capacity > 0 ==> frame.1 > 0
            &&& final(net).rx.last_used_idx == (last + 1) % 0x1_0000
            &&& final(net).rx.avail_idx == (avail + 1) % 0x1_0000
            &&& final(ops)@ == old(ops)@ + seq![
                store(base + 16 * id + 8, 1526),
                store16(base + 16 * id + 12, 2),
                store16(base + 132 + 2 * (avail % 8), id as int),
                store16(base + 130, (avail + 1) % 0x1_0000),
                store(old(net).base_address + 0x50, 0),
            ]
        }),
{
    let base = old(net).rx.base as int;
    let avail = old(net).rx.avail_idx as int;
    assert(old(net).rx.avail_idx.wrapping_add(1) == (avail + 1) % 0x1_0000);
    assert(final(net).rx.last_used_idx == final(net).rx@.last_used_idx);
    assert(final(ops)@ =~= old(ops)@ + seq![
        store(base + 16 * id + 8, 1526),
        store16(base + 16 * id + 12, 2),
        store16(base + 132 + 2 * (avail % 8), id as int),
        store16(base + 130, (avail + 1) % 0x1_0000),
        store(old(net).base_address + 0x50, 0),
    ]);
}

/// A sent frame gives its two descriptors back, and no other.
pub proof fn sent_frame_frees_its_descriptors(net: &mut VirtioNet, sending: &Sending, i: int)
    requires
        old(net).wf(),
        sending.header < 8,
        sending.data < 8,
        0 <= i < 8,
        call_ensures(VirtioNet::finish_send, (net, sending), ()),
    ensures
        final(net).tx.last_used_idx == sending.target_idx,
        final(net).tx.free[i] == (old(net).tx.free[i] || i == sending.header || i == sending.data),
        final(net).tx.avail_idx == old(net).tx.avail_idx,
{
    let after = final(net).tx@.free;
    assert(final(net).tx.free[i] == after[i]);
}

/// The device is recognised by its magic number "virt", version 1, kind 1 and vendor QEMU, in this order. Then it
/// is reset, driver and device agree on the MAC address alone, and the queues are set up.
pub proof fn network_device_is_recognised(
    setup: &mut NetSetup,
    value: u32,
    allocator: &mut MemoryAllocator,
    ops: &mut Vec<IoOp>,
    awaited: u64,
)
    requires
        old(setup).wf(),
        old(allocator).wf(),
        call_ensures(NetSetup::step, (setup, value, allocator, ops), ()),
        call_ensures(NetSetup::awaited_register, (&*old(setup),), awaited),
    ensures
        ({
            let base = old(setup).base_address as int;
            let before = old(ops)@;
            let after = final(ops)@;
            let stage = final(setup).stage;
            &&& old(setup).stage is Magic ==> awaited == base && stage == if value == 0x7472_6976 {
                NetStage::Version
            } else {
                NetStage::Refused
            }
            &&& old(setup).stage is Version ==> awaited == base + 4 && stage == if value == 1 {
                NetStage::DeviceId
            } else {
                NetStage::Refused
            }
            &&& old(setup).stage is DeviceId ==> awaited == base + 8 && stage == if value == 1 {
                NetStage::VendorId
            } else {
                NetStage::Refused
            }
            &&& old(setup).stage is VendorId ==> awaited == base + 12 && stage == if value
                == 0x554D_4551 {
                NetStage::Driver
            } else {
                NetStage::Refused
            }
            &&& old(setup).stage is VendorId && stage is Driver ==> after == before + seq![
                store(base + 0x70, 0),
                store(base + 0x70, 1),
            ]
            &&& old(setup).stage is Driver ==> awaited == base + 0x70 && stage is Features && after
                == before + seq![store(base + 0x70, (value | 2) as int)]
            &&& old(setup).stage is Features ==> awaited == base + 0x10 && stage is FeaturesOk
                && final(setup).has_mac == (value as int / 32 % 2 == 1) && after == before + seq![
                store(
                    base + 0x20,
                    if value as int / 32 % 2 == 1 {
                        32int
                    } else {
                        0
                    },
                ),
            ]
            &&& old(setup).stage is FeaturesOk ==> awaited == base + 0x70 && stage == (
            NetStage::QueueMax { queue: 0 }) && after == before + seq![
                store(base + 0x70, (value | 8) as int),
                store(base + 0x28, 4096),
                store(base + 0x30, 0),
            ]
            &&& old(setup).stage is DriverOk ==> awaited == base + 0x70 && stage == (if old(setup).has_mac {
                NetStage::MacLow
            } else {
                NetStage::Ready
            }) && after == before + seq![store(base + 0x70, (value | 4) as int)]
            &&& old(setup).stage is MacLow ==> awaited == base + 0x100 && stage is MacHigh && final(setup).mac_low == value
            &&& old(setup).stage is MacHigh ==> awaited == base + 0x104 && stage is Ready && final(setup).mac_high == value
            &&& stage is Refused ==> after == before
        }),
{
    assert(old(ops)@ + Seq::<IoOp>::empty() =~= old(ops)@);
}

/// A queue is refused where the device has fewer than eight entries for it. Otherwise it gets two pages of zeros
/// and the device is told their number; the receive queue comes first, the transmit queue behind it.
pub proof fn queue_gets_its_pages(
    setup: &mut NetSetup,
    queue: u32,
    value: u32,
    allocator: &mut MemoryAllocator,
    ops: &mut Vec<IoOp>,
    awaited: u64,
)
    requires
        old(setup).wf(),
        old(allocator).wf(),
        old(setup).stage == (NetStage::QueueMax { queue }),
        call_ensures(NetSetup::step, (setup, value, allocator, ops), ()),
        call_ensures(NetSetup::awaited_register, (&*old(setup),), awaited),
    ensures
        awaited == old(setup).base_address + 0x34,
        value < 8 ==> final(setup).stage is Refused && final(ops)@ == old(ops)@,
        value >= 8 ==> {
            let base = old(setup).base_address as int;
            let page = if queue == 0 {
                final(setup).rx_base as int
            } else {
                final(setup).tx_base as int
            };
            let placed = old(ops)@ + seq![
                store(base + 0x38, 8),
                IoOp::Zero { address: page as u64, size: 0x2000 },
                store(base + 0x40, (page / 0x1000) % 0x1_0000_0000),
            ];
            ||| final(setup).stage is NoMemory && final(ops)@ == old(ops)@.push(store(base + 0x38, 8))
            ||| queue == 0 && final(setup).stage == (NetStage::QueueMax { queue: 1 }) && final(ops)@
                == placed.push(store(base + 0x30, 1)) && final(setup).tx_base == old(setup).tx_base
            ||| queue != 0 && final(setup).stage is DriverOk && final(ops)@ == placed && final(setup).rx_base == old(setup).rx_base
        },
{
    let base = old(setup).base_address as int;
    assert(old(ops)@ + Seq::<IoOp>::empty() =~= old(ops)@);
    if value >= 8 {
        crate::allocator_laws::allocator_is_consistent(*old(allocator));
        match crate::memory::pages_taken(old(allocator)@, 2, 12) {
            Some((address, _)) => {
                crate::memory::lemma_pages_taken(old(allocator)@, 2, 12);
                let placed = old(ops)@ + seq![
                    store(base + 0x38, 8),
                    IoOp::Zero { address: address as u64, size: 0x2000 },
                    store(base + 0x40, (address / 0x1000) % 0x1_0000_0000),
                ];
                if queue == 0 {
                    assert(final(ops)@ =~= placed.push(store(base + 0x30, 1)));
                } else {
                    assert(final(ops)@ =~= placed);
                }
            },
            None => {
                assert(final(ops)@ =~= old(ops)@.push(store(base + 0x38, 8)));
            },
        }
    }
}

/// A guest has the MAC address of the network device, or else 52:54:00:12:34:56, which the first guest also has
/// where the device states none. Only a GENET controller has to be polled.
pub proof fn guest_has_the_mac_of_the_device(
    net: &Option<PhysicalNet>,
    first: [u8; 6],
    further: [u8; 6],
    polled: bool,
)
    requires
        call_ensures(init_physical_net, (net,), first),
        call_ensures(get_guest_net_mac, (net,), further),
        call_ensures(needs_net_polling_on_wfx, (net,), polled),
    ensures
        polled <==> (*net matches Some(n) && n is Genet),
        ({
            let usual = seq![0x52u8, 0x54, 0x00, 0x12, 0x34, 0x56];
            match *net {
                None => first@ == usual && further@ == usual,
                Some(n) => {
                    let mac = match n {
                        PhysicalNet::Virtio(v) => v.mac,
                        PhysicalNet::Genet(g) => g.mac,
                    };
                    &&& further == mac
                    &&& mac@ == seq![0u8, 0, 0, 0, 0, 0] ==> first@ == usual
                    &&& mac@ != seq![0u8, 0, 0, 0, 0, 0] ==> first == mac
                },
            }
        }),
{
    assert(crate::net::DEFAULT_MAC_ADDRESS@ =~= seq![0x52u8, 0x54, 0x00, 0x12, 0x34, 0x56]);
}

/// Frames are taken until there is none, and sixteen at a time.
pub proof fn sixteen_frames_are_taken(rx: &mut NetRx, received: bool, again: bool)
    requires
        old(rx).processed < 16,
        call_ensures(NetRx::handle_net_rx, (rx, received), again),
    ensures
        again <==> received && final(rx).processed < 16,
        received ==> final(rx).processed == old(rx).processed + 1,
        !received ==> final(rx).processed == old(rx).processed,
{
}

} // verus!
