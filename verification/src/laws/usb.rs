//! The USB host controller: its rings, its contexts and its transfers.

use crate::dma::{DmaRegion, IoOp};
use crate::drivers::xhci::context::{Placement, XhciDevice};
use crate::drivers::xhci::controller::{Awaited, CapabilityRegisters, EventPoll, Xhci, XhciError};
use crate::drivers::xhci::descriptor::{
    endpoint_index, parse_mass_storage_configuration, EndpointScan, HubDescriptor, HubPortStatus,
    MassStorageConfiguration, SetupPacket, UsbSpeed,
};
use crate::drivers::xhci::ring::{EventRing, Trb, TrbRing};
use crate::drivers::xhci::transfer::{
    bytes_moved, has_succeeded, max_wave_length, push_setup, push_stages, transfer_trb_remainder,
    Wave,
};
use crate::laws::network::store;
use crate::memory_allocator::MemoryAllocator;
use crate::timer::deadline_passed;
use vstd::prelude::*;

verus! {

/// The accesses that write a block of four words at `address`.
pub open spec fn block_stores(address: int, trb: Trb) -> Seq<IoOp> {
    seq![
        store(address, trb.parameter as int % 0x1_0000_0000),
        store(address + 4, trb.parameter as int / 0x1_0000_0000),
        store(address + 8, trb.status as int),
        store(address + 12, trb.control as int),
        IoOp::Clean { address: address as u64, size: 16 },
    ]
}

/// A new ring is empty, and its block 63 leads back to its start, as the controller sees it, and toggles the
/// cycle.
pub proof fn new_ring_leads_back_to_its_start(
    region: DmaRegion,
    dma_offset: u64,
    ops: &mut Vec<IoOp>,
    ring: TrbRing,
)
    requires
        region.address + 1024 <= u64::MAX,
        region.address + dma_offset <= u64::MAX,
        call_ensures(TrbRing::new, (region, dma_offset, ops), ring),
    ensures
        ring.region == region,
        ring.enqueue_index == 0,
        ring.cycle_state == 1,
        final(ops)@ == old(ops)@ + block_stores(
            region.address + 16 * 63,
            Trb { parameter: (region.address + dma_offset) as u64, status: 0, control: 0x1802 },
        ),
{
    assert(ring@.index == ring.enqueue_index);
    assert(final(ops)@ =~= old(ops)@ + block_stores(
        region.address + 16 * 63,
        Trb { parameter: (region.address + dma_offset) as u64, status: 0, control: 0x1802 },
    ));
}

/// A block goes to the next place of the ring. Behind place 62 the link block gets the other cycle bit, and the
/// ring goes on at its start with the other cycle.
pub proof fn block_goes_to_the_next_place(ring: &mut TrbRing, trb: Trb, ops: &mut Vec<IoOp>)
    requires
        old(ring).wf(),
        call_ensures(TrbRing::push_trb_raw, (ring, trb, ops), ()),
    ensures
        ({
            let at = old(ring).enqueue_index as int;
            let base = old(ring).region.address as int;
            let stored = old(ops)@ + block_stores(base + 16 * at, trb);
            let link = old(ring).control[63];
            let turned = if link % 2 == 0 {
                link + 1
            } else {
                link - 1
            };
            &&& final(ring).region == old(ring).region
            &&& final(ring).control[at] == trb.control
            &&& at < 62 ==> {
                &&& final(ring).enqueue_index == at + 1
                &&& final(ring).cycle_state == old(ring).cycle_state
                &&& final(ops)@ == stored
            }
            &&& at == 62 ==> {
                &&& final(ring).enqueue_index == 0
                &&& final(ring).cycle_state == 1 - old(ring).cycle_state
                &&& final(ring).control[63] == turned
                &&& final(ops)@ == stored + seq![
                    store(base + 1020, turned),
                    IoOp::Clean { address: (base + 1008) as u64, size: 16 },
                ]
            }
        }),
{
    let at = old(ring).enqueue_index as int;
    let base = old(ring).region.address as int;
    let stored = old(ops)@ + block_stores(base + 16 * at, trb);
    assert(final(ring)@.index == final(ring).enqueue_index);
    assert(final(ring)@.cycle == final(ring).cycle_state);
    assert(final(ring)@.region == final(ring).region);
    assert(final(ring)@.control[at] == trb.control);
    if at < 62 {
        assert(final(ops)@ =~= stored);
    } else {
        let link = old(ring).control[63];
        let turned = if link % 2 == 0 {
            link + 1
        } else {
            link - 1
        };
        assert(final(ring)@.control[63] == turned);
        assert(final(ops)@ =~= stored + seq![
            store(base + 1020, turned),
            IoOp::Clean { address: (base + 1008) as u64, size: 16 },
        ]);
    }
}

/// The first block of a transfer becomes the controller's by its cycle bit alone, behind everything else.
pub proof fn first_block_is_handed_over_last(
    ring: &mut TrbRing,
    start: usize,
    cycle: u32,
    ops: &mut Vec<IoOp>,
)
    requires
        old(ring).wf(),
        start < 63,
        cycle < 2,
        call_ensures(TrbRing::commit_first_trb, (ring, start, cycle, ops), ()),
    ensures
        ({
            let before = old(ring).control[start as int];
            let address = old(ring).region.address + 16 * start;
            let after = before - before % 2 + cycle;
            &&& final(ring).control[start as int] == after
            &&& final(ring).enqueue_index == old(ring).enqueue_index
            &&& final(ring).cycle_state == old(ring).cycle_state
            &&& final(ops)@ == old(ops)@ + seq![
                store(address + 12, after),
                IoOp::Clean { address: address as u64, size: 16 },
                IoOp::Barrier,
            ]
        }),
{
    let before = old(ring).control[start as int];
    let address = old(ring).region.address + 16 * start;
    let after = before - before % 2 + cycle;
    assert(final(ring)@.control[start as int] == after);
    assert(final(ring)@.index == final(ring).enqueue_index);
    assert(final(ring)@.cycle == final(ring).cycle_state);
    assert(final(ops)@ =~= old(ops)@ + seq![
        store(address + 12, after),
        IoOp::Clean { address: address as u64, size: 16 },
        IoOp::Barrier,
    ]);
}

/// The events are taken from 64 places in turn, each time round with the other cycle bit. One with the other
/// cycle bit is an old one.
pub proof fn events_are_taken_in_turn(
    region: DmaRegion,
    fresh: EventRing,
    ring: &mut EventRing,
    event: &Trb,
    new: bool,
    place: (u64, IoOp),
)
    requires
        old(ring).wf(),
        call_ensures(EventRing::new, (region,), fresh),
        call_ensures(EventRing::is_new, (&*old(ring), event), new),
        call_ensures(EventRing::peek_address, (&*old(ring),), place),
        call_ensures(EventRing::advance, (ring,), ()),
    ensures
        fresh.region == region && fresh.dequeue_index == 0 && fresh.cycle_state == 1,
        new <==> event.control as int % 2 == old(ring).cycle_state,
        place.0 == old(ring).region.address + 16 * old(ring).dequeue_index,
        place.1 == (IoOp::Invalidate { address: place.0, size: 16 }),
        final(ring).dequeue_index == (old(ring).dequeue_index + 1) % 64,
        old(ring).dequeue_index == 63 <==> final(ring).cycle_state != old(ring).cycle_state,
        final(ring).region == old(ring).region,
{
}

/// An event has its kind in bits 10 to 15 of its last word, its slot in bits 24 to 31 and its endpoint, from one on,
/// in bits 16 to 20. The word before has the outcome in bits 24 to 31 and what is left below.
pub proof fn event_fields_are_read(
    words: [u32; 4],
    event: Trb,
    kind: u32,
    slot: u8,
    endpoint: usize,
    code: u32,
    residue: u32,
)
    requires
        call_ensures(Trb::of_words, (words,), event),
        call_ensures(Trb::trb_field_to_type, (&event,), kind),
        call_ensures(Trb::event_slot, (&event,), slot),
        call_ensures(Trb::event_endpoint, (&event,), endpoint),
        call_ensures(Trb::completion_code, (&event,), code),
        call_ensures(Trb::event_residue, (&event,), residue),
    ensures
        event.parameter as int % 0x1_0000_0000 == words[0],
        event.parameter as int / 0x1_0000_0000 == words[1],
        event.status == words[2],
        event.control == words[3],
        kind == words[3] as int / 0x400 % 64,
        slot == words[3] as int / 0x100_0000,
        words[3] as int / 0x1_0000 % 32 > 0 ==> endpoint == words[3] as int / 0x1_0000 % 32 - 1,
        words[3] as int / 0x1_0000 % 32 == 0 ==> endpoint == 0,
        code == words[2] as int / 0x100_0000,
        residue == words[2] as int % 0x100_0000,
{
}

/// A transfer has gone through with outcome 1 or 13, and has moved what is not left.
pub proof fn transfer_has_moved_its_bytes(length: u64, event: &Trb, moved: u64, success: bool)
    requires
        call_ensures(bytes_moved, (length, event), moved),
        call_ensures(has_succeeded, (event,), success),
    ensures
        success <==> event.status as int / 0x100_0000 == 1 || event.status as int / 0x100_0000 == 13,
        ({
            let left = event.status as int % 0x100_0000;
            &&& left <= length ==> moved == length - left
            &&& left > length ==> moved == 0
        }),
{
}

/// The requests that a device is sent have their bytes.
pub proof fn device_requests_have_their_bytes(
    kind: u8,
    index: u8,
    length: usize,
    value: u8,
    alternate: u8,
    descriptor: SetupPacket,
    configuration: SetupPacket,
    interface: SetupPacket,
    reads: bool,
)
    requires
        length <= 0xFFFF,
        call_ensures(SetupPacket::get_descriptor, (kind, index, length), descriptor),
        call_ensures(SetupPacket::set_configuration, (value,), configuration),
        call_ensures(SetupPacket::set_interface, (value, alternate), interface),
        call_ensures(SetupPacket::is_in, (&descriptor,), reads),
    ensures
        descriptor.request_type == 0x80 && descriptor.request == 6 && descriptor.index == 0,
        descriptor.value as int / 256 == kind && descriptor.value as int % 256 == index,
        descriptor.length == length,
        configuration.request_type == 0 && configuration.request == 9 && configuration.value == value,
        configuration.index == 0 && configuration.length == 0,
        interface.request_type == 1 && interface.request == 11 && interface.value == alternate,
        interface.index == value && interface.length == 0,
        reads,
{
}

/// The requests that a hub is sent have their bytes.
pub proof fn hub_requests_have_their_bytes(
    speed: UsbSpeed,
    length: usize,
    port: u8,
    feature: u16,
    descriptor: SetupPacket,
    status: SetupPacket,
    set: SetupPacket,
    clear: SetupPacket,
)
    requires
        length <= 0xFFFF,
        call_ensures(SetupPacket::get_hub_descriptor, (speed, length), descriptor),
        call_ensures(SetupPacket::hub_get_port_status, (port,), status),
        call_ensures(SetupPacket::hub_set_port_feature, (port, feature), set),
        call_ensures(SetupPacket::hub_clear_port_feature, (port, feature), clear),
    ensures
        descriptor.request_type == 0xA0 && descriptor.request == 6 && descriptor.index == 0,
        descriptor.value == if speed is Super {
            0x2A00u16
        } else {
            0x2900u16
        },
        descriptor.length == length,
        status.request_type == 0xA3 && status.request == 0 && status.value == 0,
        status.index == port && status.length == 4,
        set.request_type == 0x23 && set.request == 3 && set.value == feature,
        set.index == port && set.length == 0,
        clear.request_type == 0x23 && clear.request == 1 && clear.value == feature,
        clear.index == port && clear.length == 0,
{
}

/// A hub states its ports in byte 2, the think time of its translator in bits 5 and 6 of byte 3, and half the
/// milliseconds until power is good in byte 5. A port has its status and its changes in two words.
pub proof fn hub_is_described(
    descriptor: &[u8],
    multi_tt: bool,
    hub: HubDescriptor,
    data: &[u8],
    parsed: Option<HubPortStatus>,
)
    requires
        descriptor@.len() >= 7,
        call_ensures(HubDescriptor::parse, (descriptor, multi_tt), hub),
        call_ensures(HubPortStatus::parse, (data,), parsed),
    ensures
        hub.num_ports == descriptor@[2],
        hub.tt_think_time == descriptor@[3] as int / 32 % 4,
        hub.power_on_to_good_ms == 2 * descriptor@[5],
        hub.multi_tt == multi_tt,
        parsed is Some <==> data@.len() >= 4,
        parsed matches Some(port) ==> port.status == data@[0] + 256 * data@[1] && port.change
            == data@[2] + 256 * data@[3],
{
}

/// A device is at a port with bit 0 of the status, and the port is enabled with bit 1. A reset is over once bit 4 is
/// clear and it was reported in bit 4 of the changes, or the port is enabled. Bits 9 and 10 are the speed.
pub proof fn port_status_is_read(
    port: &HubPortStatus,
    hub_speed: UsbSpeed,
    connected: bool,
    enabled: bool,
    done: bool,
    speed: UsbSpeed,
)
    requires
        call_ensures(HubPortStatus::is_connected, (port,), connected),
        call_ensures(HubPortStatus::is_enabled, (port,), enabled),
        call_ensures(HubPortStatus::is_reset_done, (port,), done),
        call_ensures(HubPortStatus::hub_port_speed, (port, hub_speed), speed),
    ensures
        connected <==> port.status as int % 2 == 1,
        enabled <==> port.status as int / 2 % 2 == 1,
        done <==> !connected || (port.status as int / 16 % 2 == 0 && (port.change as int / 16 % 2 == 1
            || enabled)),
        ({
            let bits = port.status as int / 512 % 4;
            &&& hub_speed is Super || bits == 3 <==> speed is Super
            &&& speed is Low <==> hub_speed !is Super && bits == 1
            &&& speed is High <==> hub_speed !is Super && bits == 2
            &&& speed is Full <==> hub_speed !is Super && bits == 0
        }),
{
}

/// The endpoints of a device follow each other by number, the one to the device before the one from it.
pub proof fn endpoint_has_its_place(address: u8, index: usize)
    requires
        call_ensures(endpoint_index, (address,), index),
        address as int % 16 > 0,
    ensures
        address >= 0x80 ==> index == 2 * (address as int % 16),
        address < 0x80 ==> index == 2 * (address as int % 16) - 1,
{
}

/// The endpoints of a storage device are the bulk endpoints that follow its interface of class 8, subclass 6 and
/// protocol 0x50, where they have one for each direction.
pub proof fn storage_endpoints_are_found(
    descriptor: &[u8],
    speed: UsbSpeed,
    configuration: Option<MassStorageConfiguration>,
)
    requires
        descriptor@.len() == 32,
        descriptor@[0] == 9 && descriptor@[1] == 2,
        descriptor@[9] == 9 && descriptor@[10] == 4,
        descriptor@[18] == 7 && descriptor@[19] == 5,
        descriptor@[25] == 7 && descriptor@[26] == 5,
        speed !is Super,
        call_ensures(parse_mass_storage_configuration, (descriptor, speed), configuration),
    ensures
        ({
            let d = descriptor@;
            let storage = d[14] == 8 && d[15] == 6 && d[16] == 0x50;
            let bulk = d[21] as int % 4 == 2 && d[28] as int % 4 == 2;
            let apart = d[20] < 0x80 <= d[27] || d[27] < 0x80 <= d[20];
            let first = d[22] + 256 * d[23];
            let second = d[29] + 256 * d[30];
            &&& configuration is Some <==> storage && bulk && apart
            &&& configuration matches Some(c) ==> {
                &&& c.bulk_in_ep >= 0x80 && c.bulk_out_ep < 0x80
                &&& d[20] < 0x80 ==> {
                    &&& c.bulk_out_ep == d[20] && c.max_packet_out == first
                    &&& c.bulk_in_ep == d[27] && c.max_packet_in == second
                }
                &&& d[20] >= 0x80 ==> {
                    &&& c.bulk_in_ep == d[20] && c.max_packet_in == first
                    &&& c.bulk_out_ep == d[27] && c.max_packet_out == second
                }
                &&& c.max_burst_in == 0 && c.max_burst_out == 0
            }
        }),
{
    let d = descriptor@;
    let s0 = EndpointScan::start();
    let s1 = s0.with(d, 0, speed);
    let s2 = s1.with(d, 9, speed);
    let s3 = s2.with(d, 18, speed);
    let s4 = s3.with(d, 25, speed);
    assert(crate::drivers::xhci::descriptor::scanned_from(d, 0, speed, s0)
        == crate::drivers::xhci::descriptor::scanned_from(d, 9, speed, s1));
    assert(crate::drivers::xhci::descriptor::scanned_from(d, 9, speed, s1)
        == crate::drivers::xhci::descriptor::scanned_from(d, 18, speed, s2));
    assert(crate::drivers::xhci::descriptor::scanned_from(d, 18, speed, s2)
        == crate::drivers::xhci::descriptor::scanned_from(d, 25, speed, s3));
    assert(crate::drivers::xhci::descriptor::scanned_from(d, 25, speed, s3)
        == crate::drivers::xhci::descriptor::scanned_from(d, 32, speed, s4));
    assert(crate::drivers::xhci::descriptor::scanned_from(d, 32, speed, s4) == s4);
    assert(s2.active == (d[14] == 8 && d[15] == 6 && d[16] == 0x50));
}

/// At super speed the burst of an endpoint is in byte 2 of the companion that follows it.
pub proof fn companion_states_the_burst(
    descriptor: &[u8],
    configuration: Option<MassStorageConfiguration>,
)
    requires
        descriptor@.len() == 44,
        descriptor@[0] == 9 && descriptor@[1] == 2,
        descriptor@[9] == 9 && descriptor@[10] == 4,
        descriptor@[14] == 8 && descriptor@[15] == 6 && descriptor@[16] == 0x50,
        descriptor@[18] == 7 && descriptor@[19] == 5 && descriptor@[21] as int % 4 == 2,
        descriptor@[25] == 6 && descriptor@[26] == 0x30,
        descriptor@[31] == 7 && descriptor@[32] == 5 && descriptor@[34] as int % 4 == 2,
        descriptor@[38] == 6 && descriptor@[39] == 0x30,
        descriptor@[20] < 0x80 <= descriptor@[33],
        call_ensures(
            parse_mass_storage_configuration,
            (descriptor, UsbSpeed::Super),
            configuration,
        ),
    ensures
        configuration matches Some(c) && c.max_burst_out == descriptor@[27] && c.max_burst_in
            == descriptor@[40] && c.bulk_out_ep == descriptor@[20] && c.bulk_in_ep == descriptor@[33],
{
    let d = descriptor@;
    let speed = UsbSpeed::Super;
    let s0 = EndpointScan::start();
    let s1 = s0.with(d, 0, speed);
    let s2 = s1.with(d, 9, speed);
    let s3 = s2.with(d, 18, speed);
    let s4 = s3.with(d, 25, speed);
    let s5 = s4.with(d, 31, speed);
    let s6 = s5.with(d, 38, speed);
    assert(crate::drivers::xhci::descriptor::scanned_from(d, 0, speed, s0)
        == crate::drivers::xhci::descriptor::scanned_from(d, 9, speed, s1));
    assert(crate::drivers::xhci::descriptor::scanned_from(d, 9, speed, s1)
        == crate::drivers::xhci::descriptor::scanned_from(d, 18, speed, s2));
    assert(crate::drivers::xhci::descriptor::scanned_from(d, 18, speed, s2)
        == crate::drivers::xhci::descriptor::scanned_from(d, 25, speed, s3));
    assert(crate::drivers::xhci::descriptor::scanned_from(d, 25, speed, s3)
        == crate::drivers::xhci::descriptor::scanned_from(d, 31, speed, s4));
    assert(crate::drivers::xhci::descriptor::scanned_from(d, 31, speed, s4)
        == crate::drivers::xhci::descriptor::scanned_from(d, 38, speed, s5));
    assert(crate::drivers::xhci::descriptor::scanned_from(d, 38, speed, s5)
        == crate::drivers::xhci::descriptor::scanned_from(d, 44, speed, s6));
    assert(crate::drivers::xhci::descriptor::scanned_from(d, 44, speed, s6) == s6);
}

/// One transfer covers all of the bytes, or as many as 63 blocks reach that end at multiples of 64 KiB.
pub proof fn transfer_fills_the_ring(address: u64, remaining: u64, length: u64)
    requires
        address + remaining <= u64::MAX,
        call_ensures(max_wave_length, (address, remaining), length),
    ensures
        length <= remaining,
        length < remaining ==> (address + length) % 0x1_0000 == 0 && address / 0x1_0000 + 63 == (address
            + length) / 0x1_0000,
        (address + remaining) as int <= (address as int / 0x1_0000 + 63) * 0x1_0000 ==> length
            == remaining,
{
}

/// Behind a block there come as many packets as the bytes behind it take.
pub proof fn packets_behind_a_block(
    before: u64,
    current: u64,
    total: u64,
    max_packet: u64,
    left: u64,
)
    requires
        before + current <= u64::MAX,
        total + max_packet <= u64::MAX,
        0 < max_packet,
        call_ensures(transfer_trb_remainder, (before, current, total, max_packet), left),
    ensures
        before + current >= total ==> left == 0,
        before + current < total && (before + current) % (max_packet as int) == 0 ==> (left - 1)
            * max_packet < total - before - current <= left * max_packet,
{
    if before + current < total && (before + current) % (max_packet as int) == 0 {
        let p = max_packet as int;
        let done = before + current;
        let t = total as int;
        vstd::arithmetic::div_mod::lemma_fundamental_div_mod(done, p);
        vstd::arithmetic::div_mod::lemma_fundamental_div_mod(t + p - 1, p);
        vstd::arithmetic::div_mod::lemma_mod_bound(t + p - 1, p);
        vstd::arithmetic::div_mod::lemma_div_is_ordered(done, t + p - 1, p);
        let a = done / p;
        let b = (t + p - 1) / p;
        assert(done == a * p) by {
            vstd::arithmetic::mul::lemma_mul_is_commutative(a, p);
        }
        assert(b * p <= t + p - 1 < b * p + p) by {
            vstd::arithmetic::mul::lemma_mul_is_commutative(b, p);
        }
        assert((b - a) * p == b * p - a * p) by {
            vstd::arithmetic::mul::lemma_mul_is_distributive_sub_other_way(p, b, a);
        }
        assert((b - a - 1) * p == b * p - a * p - p) by {
            vstd::arithmetic::mul::lemma_mul_is_distributive_sub_other_way(p, b - a, 1);
        }
    }
}

/// Bytes that do not cross a multiple of 64 KiB are one normal block: their address as the controller sees it,
/// their length, and an event at the end. It is handed over last.
pub proof fn short_transfer_is_one_block(
    wave: &Wave,
    ring: &mut TrbRing,
    ops: &mut Vec<IoOp>,
    other: &mut TrbRing,
    other_ops: &mut Vec<IoOp>,
    third: &mut TrbRing,
    third_ops: &mut Vec<IoOp>,
)
    requires
        wave.wf(),
        old(ring).wf(),
        0 < wave.length,
        wave.address as int % 0x1_0000 + wave.length <= 0x1_0000,
        *old(other) == *old(ring),
        *old(other_ops) == *old(ops),
        *old(third) == *final(other),
        *old(third_ops) == *final(other_ops),
        call_ensures(Wave::submit, (wave, ring, ops), ()),
        call_ensures(
            TrbRing::push_trb_raw,
            (
                other,
                (Trb {
                    parameter: (wave.address + wave.dma_offset) as u64,
                    status: wave.length as u32,
                    control: (0x420 + (if wave.is_in {
                        4int
                    } else {
                        0
                    }) + (1 - old(ring).cycle_state)) as u32,
                }),
                other_ops,
            ),
            (),
        ),
        call_ensures(
            TrbRing::commit_first_trb,
            (third, old(ring).enqueue_index, old(ring).cycle_state, third_ops),
            (),
        ),
    ensures
        final(ring)@ == final(third)@,
        final(ops)@ == final(third_ops)@,
{
    let start = old(ring)@;
    let trb = Trb {
        parameter: (wave.address + wave.dma_offset) as u64,
        status: wave.length as u32,
        control: (0x420 + (if wave.is_in {
            4int
        } else {
            0
        }) + (1 - old(ring).cycle_state)) as u32,
    };
    assert(wave.chunk(0) == wave.length);
    assert(wave.trb(start.cycle, start.cycle, 0) == trb);
    let after = start.pushed(trb);
    assert(wave.written_from(after, start.cycle, wave.length as int) == (after, Seq::<IoOp>::empty()));
    assert(wave.written_from(start, start.cycle, 0).0 == after);
    assert(wave.written_from(start, start.cycle, 0).1 =~= start.push_ops(trb));
    assert(final(ops)@ =~= final(third_ops)@);
}

/// Bytes that cross one multiple of 64 KiB are two blocks, chained: the first up to there, the second behind it.
pub proof fn longer_transfer_is_split(
    wave: &Wave,
    ring: &mut TrbRing,
    ops: &mut Vec<IoOp>,
    first: int,
    left: u64,
    other: &mut TrbRing,
    other_ops: &mut Vec<IoOp>,
    third: &mut TrbRing,
    third_ops: &mut Vec<IoOp>,
    fourth: &mut TrbRing,
    fourth_ops: &mut Vec<IoOp>,
)
    requires
        wave.wf(),
        old(ring).wf(),
        first == 0x1_0000 - wave.address as int % 0x1_0000,
        first < wave.length <= first + 0x1_0000,
        left < 31,
        call_ensures(
            transfer_trb_remainder,
            (0u64, first as u64, wave.length, wave.max_packet as u64),
            left,
        ),
        *old(other) == *old(ring),
        *old(other_ops) == *old(ops),
        *old(third) == *final(other),
        *old(third_ops) == *final(other_ops),
        *old(fourth) == *final(third),
        *old(fourth_ops) == *final(third_ops),
        call_ensures(Wave::submit, (wave, ring, ops), ()),
        call_ensures(
            TrbRing::push_trb_raw,
            (
                other,
                (Trb {
                    parameter: (wave.address + wave.dma_offset) as u64,
                    status: (first + 0x2_0000 * left) as u32,
                    control: (0x410 + (if wave.is_in {
                        4int
                    } else {
                        0
                    }) + (1 - old(ring).cycle_state)) as u32,
                }),
                other_ops,
            ),
            (),
        ),
        call_ensures(
            TrbRing::push_trb_raw,
            (
                third,
                (Trb {
                    parameter: (wave.address + first + wave.dma_offset) as u64,
                    status: (wave.length - first) as u32,
                    control: (0x420 + (if wave.is_in {
                        4int
                    } else {
                        0
                    }) + old(third).cycle_state) as u32,
                }),
                third_ops,
            ),
            (),
        ),
        call_ensures(
            TrbRing::commit_first_trb,
            (fourth, old(ring).enqueue_index, old(ring).cycle_state, fourth_ops),
            (),
        ),
    ensures
        final(ring)@ == final(fourth)@,
        final(ops)@ == final(fourth_ops)@,
{
    let start = old(ring)@;
    let one = wave.trb(start.cycle, start.cycle, 0);
    let middle = start.pushed(one);
    let two = wave.trb(start.cycle, middle.cycle, first);
    let after = middle.pushed(two);
    assert(wave.chunk(0) == first);
    assert((wave.address + first) % 0x1_0000 == 0);
    assert(wave.chunk(first) == wave.length - first);
    assert(old(third)@ == middle);
    assert(wave.written_from(after, start.cycle, wave.length as int) == (after, Seq::<IoOp>::empty()));
    assert(wave.written_from(middle, start.cycle, first).0 == after);
    assert(wave.written_from(middle, start.cycle, first).1 =~= middle.push_ops(two));
    assert(wave.written_from(start, start.cycle, 0).0 == after);
    assert(wave.written_from(start, start.cycle, 0).1 =~= start.push_ops(one) + middle.push_ops(two));
    assert(final(ops)@ =~= final(fourth_ops)@);
}

/// The setup of a control transfer is one block with the eight bytes of the request in it, held back by its cycle
/// bit. A controller of version 1 is told the direction of the data.
pub proof fn setup_holds_the_request(
    ring: &mut TrbRing,
    setup: &SetupPacket,
    version: u16,
    length: u64,
    ops: &mut Vec<IoOp>,
    other: &mut TrbRing,
    other_ops: &mut Vec<IoOp>,
)
    requires
        old(ring).wf(),
        *old(other) == *old(ring),
        *old(other_ops) == *old(ops),
        call_ensures(push_setup, (ring, setup, version, length, ops), ()),
        call_ensures(
            TrbRing::push_trb_raw,
            (
                other,
                (Trb {
                    parameter: (setup.request_type + 0x100 * setup.request + 0x1_0000 * setup.value
                        + 0x1_0000_0000 * setup.index + 0x1_0000_0000_0000 * setup.length) as u64,
                    status: 8,
                    control: (0x840 + (if version < 0x100 || length == 0 {
                        0int
                    } else if setup.request_type >= 0x80 {
                        0x3_0000
                    } else {
                        0x2_0000
                    }) + (1 - old(ring).cycle_state)) as u32,
                }),
                other_ops,
            ),
            (),
        ),
    ensures
        final(ring)@ == final(other)@,
        final(ops)@ == final(other_ops)@,
{
}

/// Data is one block with its direction, and the status one block in the other direction, with an event at the end.
/// Without data the status comes from the device.
pub proof fn stages_follow_the_setup(
    ring: &mut TrbRing,
    setup: &SetupPacket,
    dma_address: u64,
    dma_offset: u64,
    length: u64,
    ops: &mut Vec<IoOp>,
    other: &mut TrbRing,
    other_ops: &mut Vec<IoOp>,
    third: &mut TrbRing,
    third_ops: &mut Vec<IoOp>,
)
    requires
        old(ring).wf(),
        length < 0x2_0000,
        dma_address + dma_offset <= u64::MAX,
        call_ensures(push_stages, (ring, setup, dma_address, dma_offset, length, ops), ()),
        *old(other) == *old(ring),
        length > 0 ==> {
            &&& old(other_ops)@ == old(ops)@.push(
                IoOp::Clean { address: dma_address, size: length },
            )
            &&& call_ensures(
                TrbRing::push_trb_raw,
                (
                    other,
                    (Trb {
                        parameter: (dma_address + dma_offset) as u64,
                        status: length as u32,
                        control: (0xC00 + (if setup.request_type >= 0x80 {
                            0x1_0004int
                        } else {
                            0
                        }) + old(ring).cycle_state) as u32,
                    }),
                    other_ops,
                ),
                (),
            )
            &&& *old(third) == *final(other)
            &&& *old(third_ops) == *final(other_ops)
        },
        length == 0 ==> *old(third) == *old(ring) && *old(third_ops) == *old(ops),
        call_ensures(
            TrbRing::push_trb_raw,
            (
                third,
                (Trb {
                    parameter: 0,
                    status: 0,
                    control: (0x1020 + (if length > 0 && setup.request_type >= 0x80 {
                        0int
                    } else {
                        0x1_0000
                    }) + old(third).cycle_state) as u32,
                }),
                third_ops,
            ),
            (),
        ),
    ensures
        final(ring)@ == final(third)@,
        final(ops)@ == final(third_ops)@,
{
    assert(old(ring)@.cycle == old(ring).cycle_state);
    assert(old(third)@.cycle == old(third).cycle_state);
    if length > 0 {
        let data = crate::drivers::xhci::transfer::data_trb(
            *setup,
            dma_address + dma_offset,
            length as int,
            old(ring)@.cycle,
        );
        assert(data.status == length);
        assert(old(third)@ == old(ring)@.pushed(data));
    }
    assert(final(ops)@ =~= final(third_ops)@);
}

/// A command is one block with its kind, its slot and its endpoint, and doorbell 0 is rung behind it.
pub proof fn command_is_handed_over(
    controller: &mut Xhci,
    address: u64,
    slot_id: u8,
    ep_index: usize,
    command: u32,
    ops: &mut Vec<IoOp>,
    ring: &mut TrbRing,
    ring_ops: &mut Vec<IoOp>,
)
    requires
        old(controller).wf(),
        ep_index < 31,
        command < 64,
        *old(ring) == old(controller).command_ring,
        *old(ring_ops) == *old(ops),
        call_ensures(
            Xhci::queue_command,
            (controller, address, slot_id, ep_index, command, ops),
            (),
        ),
        call_ensures(
            TrbRing::push_trb_raw,
            (
                ring,
                (Trb {
                    parameter: address,
                    status: 0,
                    control: (0x400 * command + 0x100_0000 * slot_id + 0x1_0000 * (ep_index + 1)
                        + old(controller).command_ring.cycle_state) as u32,
                }),
                ring_ops,
            ),
            (),
        ),
    ensures
        final(controller).command_ring@ == final(ring)@,
        final(ops)@ == final(ring_ops)@.push(IoOp::Barrier).push(
            store(old(controller).doorbell_base as int, 0),
        ),
{
    assert(final(ops)@ =~= final(ring_ops)@.push(IoOp::Barrier).push(
        store(old(controller).doorbell_base as int, 0),
    ));
}

/// A slot has its own doorbell, which is rung with the number of the endpoint from one on.
pub proof fn doorbell_names_the_endpoint(
    controller: &Xhci,
    slot_id: u8,
    ep_index: usize,
    op: IoOp,
)
    requires
        controller.wf(),
        ep_index < 32,
        call_ensures(Xhci::ring_doorbell, (controller, slot_id, ep_index), op),
    ensures
        op == store(
            controller.doorbell_base + 4 * slot_id,
            if slot_id == 0 {
                0
            } else {
                ep_index + 1
            },
        ),
{
}

/// An event that is awaited is found. Any other new event is acknowledged, by telling the controller where the next
/// one is.
pub proof fn other_events_are_acknowledged(
    controller: &mut Xhci,
    awaited: Awaited,
    event: &Trb,
    now: u64,
    deadline: u64,
    ops: &mut Vec<IoOp>,
    poll: EventPoll,
    late: bool,
)
    requires
        old(controller).wf(),
        call_ensures(
            Xhci::wait_for_event,
            (controller, awaited, event, now, deadline, ops),
            poll,
        ),
        call_ensures(deadline_passed, (deadline, now), late),
    ensures
        ({
            let ring = old(controller).event_ring;
            let new = event.control as int % 2 == ring.cycle_state;
            let kind = event.control as int / 0x400 % 64;
            let id = event.control as int / 0x1_0000 % 32;
            let mine = match awaited {
                Awaited::Command => kind == 33,
                Awaited::Transfer { slot_id, ep_index } => kind == 32 && event.control as int
                    / 0x100_0000 == slot_id && (if id == 0 {
                    0
                } else {
                    id - 1
                }) == ep_index,
            };
            &&& poll is Found <==> new && mine
            &&& poll is TimedOut <==> !(new && mine) && late
            &&& new && !mine ==> {
                let next = (ring.dequeue_index + 1) % 64;
                let bus = ring.region.address + 16 * next + old(controller).dma_offset;
                let pointer = bus - bus % 16 + 8;
                &&& final(controller).event_ring.dequeue_index == next
                &&& final(ops)@ == old(ops)@ + seq![
                    store(old(controller).runtime_base + 0x38, pointer % 0x1_0000_0000),
                    store(old(controller).runtime_base + 0x3C, pointer / 0x1_0000_0000),
                ]
            }
            &&& !new || mine ==> final(controller).event_ring == ring && final(ops)@ == old(ops)@
        }),
{
    let ring = old(controller).event_ring;
    let next = (ring.dequeue_index + 1) % 64;
    let bus = ring.region.address + 16 * next + old(controller).dma_offset;
    let pointer = bus - bus % 16 + 8;
    assert(old(controller).acknowledge_ops() =~= seq![
        store(old(controller).runtime_base + 0x38, pointer % 0x1_0000_0000),
        store(old(controller).runtime_base + 0x3C, pointer / 0x1_0000_0000),
    ]);
}

/// A command has gone through with outcome 1, for its own slot. A new slot is any but 0.
pub proof fn command_outcome_is_read(
    event: &Trb,
    slot_id: u8,
    enabled: Result<u8, ()>,
    succeeded: Result<(), ()>,
)
    requires
        call_ensures(Xhci::enabled_slot, (event,), enabled),
        call_ensures(Xhci::command_succeeded, (event, slot_id), succeeded),
    ensures
        ({
            let slot = event.control as int / 0x100_0000;
            let fine = event.status as int / 0x100_0000 == 1;
            &&& enabled is Ok <==> fine && slot != 0
            &&& enabled matches Ok(id) ==> id == slot
            &&& succeeded is Ok <==> fine && slot == slot_id
        }),
{
}

/// The registers of the controller are where it says, and its root ports have their status registers in turn.
pub proof fn controller_registers_are_found(
    base_address: u64,
    dma_offset: u64,
    registers: CapabilityRegisters,
    allocator: &mut MemoryAllocator,
    ops: &mut Vec<IoOp>,
    result: Result<Xhci, XhciError>,
    operational: u64,
    port_id: u8,
    portsc: u64,
    ports: u8,
    power: bool,
    context: u64,
)
    requires
        base_address + 0x1_0000_3000 <= u64::MAX,
        crate::drivers::xhci::controller::offset_fits(dma_offset),
        old(allocator).wf(),
        port_id >= 1,
        call_ensures(Xhci::new, (base_address, dma_offset, registers, allocator, ops), result),
        call_ensures(Xhci::operational_base_of, (base_address, registers.capbase), operational),
        result matches Ok(controller) ==> {
            &&& call_ensures(Xhci::portsc_address, (&controller, port_id), portsc)
            &&& call_ensures(Xhci::max_ports, (&controller,), ports)
            &&& call_ensures(Xhci::has_port_power_control, (&controller,), power)
            &&& call_ensures(Xhci::context_size, (&controller,), context)
        },
    ensures
        registers.page_size_bits as int % 0x1_0000 == 0 ==> result is Err,
        operational == base_address + registers.capbase as int % 256,
        result matches Ok(controller) ==> {
            &&& controller.operational_base == operational
            &&& controller.doorbell_base == base_address + registers.doorbell_offset as int / 4 * 4
            &&& controller.runtime_base == base_address + registers.runtime_offset as int / 32 * 32
            &&& controller.hci_version == registers.capbase as int / 0x1_0000
            &&& controller.dma_offset == dma_offset
            &&& controller.hcsparams1 == registers.hcsparams1
            &&& controller.hcsparams2 == registers.hcsparams2
            &&& controller.hccparams == registers.hccparams
            &&& portsc == operational + 0x400 + 16 * (port_id - 1)
            &&& ports == registers.hcsparams1 as int / 0x100_0000
            &&& power <==> registers.hccparams as int / 8 % 2 == 1
            &&& context == if registers.hccparams as int / 4 % 2 == 1 {
                64u64
            } else {
                32u64
            }
            &&& controller.event_ring.cycle_state == 1 && controller.event_ring.dequeue_index == 0
            &&& controller.command_ring.cycle_state == 1 && controller.command_ring.enqueue_index
                == 0
            &&& controller.dcbaa.size == 2048 && controller.erst.size == 16
        },
{
    if registers.page_size_bits as int % 0x1_0000 == 0 {
        lemma_no_page_size(registers.page_size_bits, 0);
    }
    if result is Ok {
        assert((result->Ok_0).command_ring@.index == (result->Ok_0).command_ring.enqueue_index);
        assert((result->Ok_0).command_ring@.cycle == (result->Ok_0).command_ring.cycle_state);
    }
}

proof fn lemma_no_page_size(bits: u32, i: int)
    requires
        0 <= i <= 16,
        bits as int % 0x1_0000 == 0,
    ensures
        CapabilityRegisters::order_from(bits, i) is None,
    decreases 16 - i,
{
    if i < 16 {
        let k = i as u32;
        assert((bits >> k) & 1 == 0) by (bit_vector)
            requires
                bits % 0x1_0000 == 0,
                k < 16,
        ;
        lemma_no_page_size(bits, i + 1);
    }
}

/// The first word of the slot of a device: its route, its speed, whether its hub has a translator per port, and one
/// endpoint.
pub open spec fn slot_word(placement: Placement) -> int {
    placement.route_string + (match placement.speed {
        UsbSpeed::Full => 0x10_0000int,
        UsbSpeed::Low => 0x20_0000,
        UsbSpeed::High => 0x30_0000,
        UsbSpeed::Super => 0x40_0000,
    }) + (if placement.multi_tt {
        0x200_0000int
    } else {
        0
    }) + 0x800_0000
}

/// A device is described to the controller by its slot and its control endpoint, behind the flags for both, before
/// the controller is given command 11 for it.
pub proof fn device_is_described(
    controller: &mut Xhci,
    device: &XhciDevice,
    ops: &mut Vec<IoOp>,
    other: &mut Xhci,
    other_ops: &mut Vec<IoOp>,
    context: u64,
)
    requires
        old(controller).wf(),
        device.wf(old(controller)),
        call_ensures(Xhci::address_device, (controller, device, ops), ()),
        call_ensures(Xhci::context_size, (&*old(controller),), context),
        *old(other) == *old(controller),
        ({
            let base = device.in_ctx.address as int;
            let slot = base + context;
            let endpoint = base + 2 * context;
            let ring = (device.ep0_ring.region.address + old(controller).dma_offset) as u64
                | device.ep0_ring.cycle_state as u64;
            let placement = device.placement;
            old(other_ops)@ == old(ops)@ + seq![
                IoOp::Zero { address: device.in_ctx.address, size: device.in_ctx.size },
                store(base, 0),
                store(base + 4, 3),
                store(slot, slot_word(placement)),
                store(slot + 4, 0x1_0000 * placement.root_hub_port),
                store(
                    slot + 8,
                    if placement.tt_hub_slot_id == 0 {
                        0
                    } else {
                        placement.tt_hub_slot_id + 0x100 * placement.tt_port_number
                    },
                ),
                store(slot + 12, 0),
                store(endpoint, 0),
                store(endpoint + 4, 38 + 0x1_0000 * device.ep0_max_packet),
                store(endpoint + 8, ring as int % 0x1_0000_0000),
                store(endpoint + 12, ring as int / 0x1_0000_0000),
                store(endpoint + 16, 8),
                IoOp::Clean {
                    address: device.in_ctx.address,
                    size: (device.in_ctx.pages * 4096) as u64,
                },
            ]
        }),
        call_ensures(
            Xhci::queue_command,
            (
                other,
                (device.in_ctx.address + old(controller).dma_offset) as u64,
                device.placement.slot_id,
                0usize,
                11u32,
                other_ops,
            ),
            (),
        ),
    ensures
        final(controller).command_ring@ == final(other).command_ring@,
        final(ops)@ == final(other_ops)@,
{
    let base = device.in_ctx.address as int;
    assert(old(other_ops)@ =~= old(ops)@ + old(controller).address_context_ops(device));
    assert(final(ops)@ =~= final(other_ops)@);
}

/// A new device has a context of 32 entries that the controller knows, one of 33 entries for the driver, and a control
/// endpoint of 8, 64, 64 or 512 bytes by its speed.
pub proof fn device_gets_its_contexts(
    controller: &Xhci,
    placement: Placement,
    allocator: &mut MemoryAllocator,
    ops: &mut Vec<IoOp>,
    result: Result<XhciDevice, ()>,
    context: u64,
)
    requires
        controller.wf(),
        placement.wf(),
        old(allocator).wf(),
        call_ensures(Xhci::allocate_device, (controller, placement, allocator, ops), result),
        call_ensures(Xhci::context_size, (controller,), context),
    ensures
        result matches Ok(device) ==> {
            let bus = device.out_ctx.address + controller.dma_offset;
            let n = final(ops)@.len() as int;
            &&& device.placement == placement
            &&& device.in_ctx.size == 33 * context
            &&& device.out_ctx.pages * 4096 >= 32 * context
            &&& device.bulk_in_ring is None && device.bulk_out_ring is None
            &&& device.ep0_ring.enqueue_index == 0 && device.ep0_ring.cycle_state == 1
            &&& device.ep0_max_packet == match placement.speed {
                UsbSpeed::Low => 8u16,
                UsbSpeed::Full => 64u16,
                UsbSpeed::High => 64u16,
                UsbSpeed::Super => 512u16,
            }
            &&& n >= 3
            &&& final(ops)@[n - 3] == store(
                controller.dcbaa.address + 8 * placement.slot_id,
                bus % 0x1_0000_0000,
            )
            &&& final(ops)@[n - 2] == store(
                controller.dcbaa.address + 8 * placement.slot_id + 4,
                bus / 0x1_0000_0000,
            )
            &&& final(ops)@[n - 1] == (IoOp::Clean { address: controller.dcbaa.address, size: 4096 })
        },
{
    if result is Ok {
        let device = result->Ok_0;
        assert(device.ep0_ring@.index == device.ep0_ring.enqueue_index);
        assert(device.ep0_ring@.cycle == device.ep0_ring.cycle_state);
        let regions = controller.device_allocation(old(allocator)@).0;
        let slot = controller.slot_ops(regions, placement.slot_id);
        assert(slot.len() == 12);
        let bus = device.out_ctx.address + controller.dma_offset;
        assert(slot[9] == store(
            controller.dcbaa.address + 8 * placement.slot_id,
            bus % 0x1_0000_0000,
        ));
        assert(slot[10] == store(
            controller.dcbaa.address + 8 * placement.slot_id + 4,
            bus / 0x1_0000_0000,
        ));
    }
}

} // verus!
