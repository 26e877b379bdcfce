//! The network device that a guest sees, and its queues.

use crate::bits::le_number;
use crate::drivers::virtio::VirtQueueDesc;
use crate::guest_ram::{GuestRam, Ram};
use crate::mmio::gicv2::GicDistributorMmio;
use crate::mmio::virtio::QueueState;
use crate::mmio::virtio_net::{TxStep, VirtioNetMmio};
use crate::vgic::CpuInterface;
use vstd::prelude::*;

verus! {

/// The number in the `n` bytes of the guest's memory at `address`.
pub open spec fn guest_number(ram: Ram, address: int, n: nat) -> int {
    le_number(ram.bytes, address - ram.physical_base, n)
}

/// A number is stored with its least significant byte first.
pub proof fn numbers_are_little_endian(bytes: Seq<u8>, at: int)
    ensures
        le_number(bytes, at, 1) == bytes[at],
        le_number(bytes, at, 2) == bytes[at] + 0x100 * bytes[at + 1],
        le_number(bytes, at, 4) == bytes[at] + 0x100 * bytes[at + 1] + 0x1_0000 * bytes[at + 2]
            + 0x100_0000 * bytes[at + 3],
        le_number(bytes, at, 8) == le_number(bytes, at, 4) + 0x1_0000_0000 * le_number(
            bytes,
            at + 4,
            4,
        ),
{
    reveal_with_fuel(le_number, 9);
}

/// A read of the guest's memory gives the number that its bytes hold.
pub proof fn guest_memory_reads_its_bytes(ram: &GuestRam, address: u64, n: u64, value: u64)
    requires
        n <= 8,
        call_ensures(GuestRam::read_number, (ram, address, n), value),
    ensures
        value == guest_number(ram@, address as int, n as nat),
{
    lemma_guest_number(ram@, address as int, n as nat);
}

/// A number that was stored in the guest's memory is read there again, and no other byte has changed.
pub proof fn guest_memory_keeps_what_was_stored(
    ram: &mut GuestRam,
    address: u64,
    n: u64,
    value: u64,
    j: int,
)
    requires
        n <= 8,
        old(ram)@.holds(address as int, n as int),
        value < crate::guest_ram::byte_range(n as nat),
        call_ensures(GuestRam::write_number, (ram, address, n, value), ()),
        0 <= j < old(ram)@.bytes.len(),
    ensures
        guest_number(final(ram)@, address as int, n as nat) == value,
        !(address <= j + old(ram)@.physical_base < address + n) ==> final(ram)@.bytes[j] == old(
            ram,
        )@.bytes[j],
{
    crate::guest_ram::stored_number_reads_back(
        old(ram)@,
        address as int,
        n as nat,
        value as int,
    );
    crate::guest_ram::lemma_stored_frame(old(ram)@, address as int, n as nat, value as int);
    lemma_guest_number(final(ram)@, address as int, n as nat);
}

/// An address of the guest is as far into its memory for the hypervisor.
pub proof fn guest_addresses_keep_their_distance(
    ram: &GuestRam,
    virtual_address: u64,
    address: Option<u64>,
)
    requires
        ram@.valid(),
        call_ensures(GuestRam::get_physical_address, (ram, virtual_address), address),
    ensures
        address is Some <==> 0 <= virtual_address - ram@.virtual_base < ram@.bytes.len(),
        address matches Some(a) ==> a - ram@.physical_base == virtual_address - ram@.virtual_base,
{
}

/// A descriptor is sixteen bytes: the address, the length, the flags and the number of the next one.
pub proof fn descriptor_is_what_the_guest_stored(
    queue: &QueueState,
    ram: &GuestRam,
    id: u16,
    descriptor: VirtQueueDesc,
)
    requires
        ram@.valid(),
        call_ensures(QueueState::get_descriptor, (queue, ram, id), Some(descriptor)),
    ensures
        ({
            let at = queue.descriptor + 16 * id;
            &&& descriptor.address == guest_number(ram@, at, 8)
            &&& descriptor.length == guest_number(ram@, at + 8, 4)
            &&& descriptor.flags == guest_number(ram@, at + 12, 2)
            &&& descriptor.next == guest_number(ram@, at + 14, 2)
        }),
{
    lemma_descriptor(*queue, ram@, id);
}

/// The entries that the guest makes available are taken one after the other, as long as its index is
/// ahead. An entry is the number of a descriptor.
pub proof fn available_entries_are_taken_in_order(
    queue: &mut QueueState,
    ram: &GuestRam,
    next: Option<u16>,
)
    requires
        old(queue).is_usable(),
        ram@.valid(),
        old(queue).avail_ring != 0,
        0 < old(queue).queue_size < 0x1_0000,
        ram@.holds(old(queue).avail_ring + 2, 2),
        call_ensures(QueueState::get_next_avail_id, (queue, ram), next),
    ensures
        next is Some <==> guest_number(ram@, old(queue).avail_ring + 2, 2) != old(
            queue,
        ).last_avail_id,
        next matches Some(slot) ==> slot == old(queue).last_avail_id as int % old(
            queue,
        ).queue_size as int,
        final(queue).last_avail_id == if next is Some {
            (old(queue).last_avail_id + 1) % 0x1_0000
        } else {
            old(queue).last_avail_id as int
        },
        final(queue).used_id == old(queue).used_id,
        final(queue).descriptor == old(queue).descriptor,
        final(queue).avail_ring == old(queue).avail_ring,
        final(queue).used_ring == old(queue).used_ring,
        final(queue).queue_size == old(queue).queue_size,
{
    lemma_guest_number(ram@, old(queue).avail_ring + 2, 2);
}

/// A buffer that is handed back stands in the next entry of the used ring, with its length, and the
/// index of the ring is one further.
pub proof fn used_buffer_is_handed_back(
    queue: &mut QueueState,
    ram: &mut GuestRam,
    id: u16,
    length: u32,
)
    requires
        0 < old(queue).queue_size < 0x1_0000,
        old(ram)@.valid(),
        old(ram)@.holds(old(queue).used_ring + 2, 2 + 8 * old(queue).queue_size),
        call_ensures(QueueState::write_used, (queue, ram, id, length), ()),
    ensures
        ({
            let ring = old(queue).used_ring;
            let entry = ring + 4 + 8 * (old(queue).used_id as int % old(queue).queue_size as int);
            &&& guest_number(final(ram)@, entry, 4) == id
            &&& guest_number(final(ram)@, entry + 4, 4) == length
            &&& guest_number(final(ram)@, ring + 2, 2) == (old(queue).used_id + 1) % 0x1_0000
            &&& final(queue).used_id == (old(queue).used_id + 1) % 0x1_0000
            &&& final(queue).last_avail_id == old(queue).last_avail_id
            &&& forall|j: int|
                0 <= j < old(ram)@.bytes.len() && !(entry <= j + old(ram)@.physical_base < entry + 8)
                    && !(ring + 2 <= j + old(ram)@.physical_base < ring + 4)
                    ==> #[trigger] final(ram)@.bytes[j] == old(ram)@.bytes[j]
        }),
{
    let q = *old(queue);
    let start = old(ram)@;
    let size = q.queue_size as int;
    let slot = q.used_id as int % size;
    assert(q.ring_size() == size);
    assert(0 <= slot < size);
    let entry = q.used_address();
    let ring = q.used_ring as int;
    let next = (q.used_id.wrapping_add(1)) as int;
    assert(q.can_use(start));
    crate::guest_ram::lemma_byte_ranges();
    let one = start.stored(entry, 4, id as int);
    crate::guest_ram::lemma_stored_frame(start, entry, 4, id as int);
    crate::guest_ram::stored_number_reads_back(start, entry, 4, id as int);
    let two = one.stored(entry + 4, 4, length as int);
    crate::guest_ram::lemma_stored_frame(one, entry + 4, 4, length as int);
    crate::guest_ram::stored_number_reads_back(one, entry + 4, 4, length as int);
    let three = two.stored(ring + 2, 2, next);
    crate::guest_ram::lemma_stored_frame(two, ring + 2, 2, next);
    crate::guest_ram::stored_number_reads_back(two, ring + 2, 2, next);
    assert(final(ram)@ == three);
    lemma_guest_number(one, entry, 4);
    lemma_guest_number(two, entry + 4, 4);
    lemma_guest_number(three, ring + 2, 2);
    lemma_number_depends(one, three, entry, 4);
    lemma_number_depends(two, three, entry + 4, 4);
}

/// The frame of a TX entry. The entry names a descriptor, which is the header's. Where that has the
/// NEXT flag, the frame is where the descriptor says that the header names: its address and length are
/// those that the guest stored there. Without the flag there is no frame.
pub proof fn tx_entry_names_its_frame(net: &mut VirtioNetMmio, ram: &GuestRam, step: TxStep)
    requires
        old(net).wf(),
        ram@.valid(),
        call_ensures(VirtioNetMmio::next_tx, (net, ram), step),
        ({
            let queue = old(net).device.queues@[1];
            let slot = queue.last_avail_id as int % queue.queue_size as int;
            let header = queue.descriptor + 16 * guest_number(
                ram@,
                queue.avail_ring + 4 + 2 * slot,
                2,
            );
            let data = queue.descriptor + 16 * guest_number(ram@, header + 14, 2);
            &&& queue.avail_ring != 0
            &&& queue.descriptor != 0
            &&& 0 < queue.queue_size < 0x1_0000
            &&& ram@.holds(queue.avail_ring + 2, 2)
            &&& ram@.holds(queue.avail_ring + 4 + 2 * slot, 2)
            &&& ram@.holds(header, 16)
            &&& ram@.holds(data, 16)
        }),
    ensures
        ({
            let queue = old(net).device.queues@[1];
            let slot = queue.last_avail_id as int % queue.queue_size as int;
            let id = guest_number(ram@, queue.avail_ring + 4 + 2 * slot, 2);
            let header = queue.descriptor + 16 * id;
            let data = queue.descriptor + 16 * guest_number(ram@, header + 14, 2);
            if guest_number(ram@, queue.avail_ring + 2, 2) == queue.last_avail_id {
                step is Idle
            } else if guest_number(ram@, header + 12, 2) % 2 == 0 {
                step is Skipped
            } else {
                &&& step matches TxStep::Frame { address, length, descriptor_id, total_length }
                &&& length == guest_number(ram@, data + 8, 4)
                &&& descriptor_id == id
                &&& total_length == (guest_number(ram@, header + 8, 4) + length) % 0x1_0000_0000
                &&& match address {
                    Some(a) => a - ram@.physical_base == guest_number(ram@, data, 8)
                        - ram@.virtual_base,
                    None => !(0 <= guest_number(ram@, data, 8) - ram@.virtual_base
                        < ram@.bytes.len()),
                }
            }
        }),
        final(net).device.queues@[0] == old(net).device.queues@[0],
        final(net).device.queues@[1].last_avail_id == if step is Idle {
            old(net).device.queues@[1].last_avail_id as int
        } else {
            (old(net).device.queues@[1].last_avail_id + 1) % 0x1_0000
        },
{
    let queue = old(net).device.queues@[1];
    let slot = queue.last_avail_id as int % queue.queue_size as int;
    vstd::arithmetic::div_mod::lemma_mod_bound(
        queue.last_avail_id as int,
        queue.queue_size as int,
    );
    assert(queue.ring_size() == queue.queue_size);
    crate::guest_ram::lemma_byte_ranges();
    lemma_guest_number(ram@, queue.avail_ring + 2, 2);
    lemma_guest_number(ram@, queue.avail_ring + 4 + 2 * slot, 2);
    let id = queue.descriptor_id(ram@, slot as u16)->0;
    lemma_descriptor(queue, ram@, id);
    let header = queue.descriptor_at(ram@, id)->0;
    lemma_descriptor(queue, ram@, header.next);
    lemma_odd(header.flags);
    assert(final(net).device@.queues[1] == final(net).device.queues@[1]);
    assert(final(net).device@.queues[0] == final(net).device.queues@[0]);
}

/// A frame that arrives goes to the buffer of the next RX entry, where that is large enough: ten zero
/// bytes, then the frame. The guest is told by the interrupt status.
pub proof fn rx_frame_goes_to_the_next_buffer(
    net: &mut VirtioNetMmio,
    ram: &mut GuestRam,
    data: &[u8],
    distributor: &mut GicDistributorMmio,
    cpu: &mut CpuInterface,
    i: int,
)
    requires
        old(net).wf(),
        old(ram)@.valid(),
        call_ensures(VirtioNetMmio::push_rx, (net, ram, data, distributor, cpu), ()),
        0 <= i < 10 + data@.len(),
        ({
            let queue = old(net).device.queues@[0];
            let slot = queue.last_avail_id as int % queue.queue_size as int;
            let id = guest_number(old(ram)@, queue.avail_ring + 4 + 2 * slot, 2);
            let descriptor = queue.descriptor + 16 * id;
            let address = guest_number(old(ram)@, descriptor, 8) - old(ram)@.virtual_base
                + old(ram)@.physical_base;
            let used = queue.used_ring + 4 + 8 * (queue.used_id as int % queue.queue_size as int);
            &&& queue.avail_ring != 0
            &&& queue.descriptor != 0
            &&& 0 < queue.queue_size < 0x1_0000
            &&& old(ram)@.holds(queue.avail_ring + 2, 2)
            &&& old(ram)@.holds(queue.avail_ring + 4 + 2 * slot, 2)
            &&& old(ram)@.holds(descriptor, 16)
            &&& old(ram)@.holds(address, 10 + data@.len() as int)
            &&& guest_number(old(ram)@, queue.avail_ring + 2, 2) != queue.last_avail_id
            &&& guest_number(old(ram)@, descriptor + 8, 4) >= 10 + data@.len()
            &&& !(queue.used_ring + 2 <= address + i < queue.used_ring + 4)
            &&& !(used <= address + i < used + 8)
        }),
    ensures
        ({
            let queue = old(net).device.queues@[0];
            let slot = queue.last_avail_id as int % queue.queue_size as int;
            let id = guest_number(old(ram)@, queue.avail_ring + 4 + 2 * slot, 2);
            let descriptor = queue.descriptor + 16 * id;
            let place = guest_number(old(ram)@, descriptor, 8) - old(ram)@.virtual_base + i;
            &&& final(ram)@.bytes[place] == if i < 10 {
                0u8
            } else {
                data@[i - 10]
            }
            &&& final(net).device.interrupt_status % 2 == 1
            &&& final(net).device.queues@[0].last_avail_id == (queue.last_avail_id + 1) % 0x1_0000
            &&& final(net).device.queues@[0].used_id == (queue.used_id + 1) % 0x1_0000
        }),
{
    let queue = old(net).device.queues@[0];
    let slot = queue.last_avail_id as int % queue.queue_size as int;
    let start = old(ram)@;
    vstd::arithmetic::div_mod::lemma_mod_bound(
        queue.last_avail_id as int,
        queue.queue_size as int,
    );
    assert(queue.ring_size() == queue.queue_size);
    crate::guest_ram::lemma_byte_ranges();
    lemma_guest_number(start, queue.avail_ring + 2, 2);
    lemma_guest_number(start, queue.avail_ring + 4 + 2 * slot, 2);
    let id = queue.descriptor_id(start, slot as u16)->0;
    lemma_descriptor(queue, start, id);
    let descriptor = queue.descriptor_at(start, id)->0;
    assert(queue == old(net).device@.queues[0]);
    assert(start.physical_address(descriptor.address) is Some);
    crate::mmio::virtio_net::delivered_packet_reads_back(queue, start, data@, i);
    assert(final(net).device@.queues[0] == final(net).device.queues@[0]);
    lemma_status_bit(old(net).device.interrupt_status);
}

/// A frame without a buffer changes nothing in the guest's memory.
pub proof fn rx_frame_without_a_buffer_is_dropped(
    net: &mut VirtioNetMmio,
    ram: &mut GuestRam,
    data: &[u8],
    distributor: &mut GicDistributorMmio,
    cpu: &mut CpuInterface,
)
    requires
        old(net).wf(),
        old(ram)@.valid(),
        call_ensures(VirtioNetMmio::push_rx, (net, ram, data, distributor, cpu), ()),
        ({
            let queue = old(net).device.queues@[0];
            ||| queue.queue_size == 0
            ||| queue.avail_ring == 0
            ||| old(ram)@.holds(queue.avail_ring + 2, 2) && guest_number(
                old(ram)@,
                queue.avail_ring + 2,
                2,
            ) == queue.last_avail_id
        }),
    ensures
        final(ram)@ == old(ram)@,
        final(net).device@ == old(net).device@,
        final(distributor)@ == old(distributor)@,
        final(cpu)@ == old(cpu)@,
{
    let queue = old(net).device.queues@[0];
    lemma_guest_number(old(ram)@, queue.avail_ring + 2, 2);
    assert(final(net).device@ =~= old(net).device@);
}

/// The device is a legacy network device with 32 descriptors a queue, a MAC address, and the link up.
pub proof fn network_device_identifies_itself(
    net: &VirtioNetMmio,
    offset: usize,
    width: u64,
    value: u64,
)
    requires
        net.wf(),
        offset != 0x40,
        call_ensures(VirtioNetMmio::read, (net, offset, width), Ok(value)),
    ensures
        offset == 0x000 ==> value == 0x7472_6976,
        offset == 0x004 ==> value == 1,
        offset == 0x008 ==> value == 1,
        offset == 0x00C ==> value == 0x554d_4551,
        offset == 0x010 ==> value == if net.device.device_features_sel == 0 {
            0x20u64
        } else {
            0
        },
        offset == 0x034 ==> value == 32,
        offset == 0x060 ==> value == net.device.interrupt_status,
        offset == 0x070 ==> value == net.device.status,
        0x100 <= offset < 0x106 ==> value == net.mac@[offset - 0x100],
        offset == 0x106 ==> value == 1,
{
}

/// The guest sets up a queue by its size at 0x38 and its page at 0x40, chooses it at 0x30, acknowledges
/// interrupts at 0x64 and resets the device by a zero at 0x70. It notifies the TX queue at 0x50.
pub proof fn network_device_is_set_up(
    net: &mut VirtioNetMmio,
    ram: &GuestRam,
    offset: usize,
    width: u64,
    value: u64,
    notified: bool,
)
    requires
        old(net).wf(),
        ram@.valid(),
        old(net).device@.can_write(ram@, offset as int, value),
        call_ensures(VirtioNetMmio::write, (net, ram, offset, width, value), Ok(notified)),
    ensures
        notified <==> offset == 0x050 && value == 1,
        final(net).mac == old(net).mac,
        ({
            let before = old(net).device@;
            let after = final(net).device@;
            let queue = before.queues[before.queue_sel];
            let new = after.queues[before.queue_sel];
            &&& offset == 0x014 ==> after.device_features_sel == value % 0x1_0000_0000
            &&& offset == 0x028 ==> after.page_size == value && after.queues == before.queues
            &&& offset == 0x030 && value < 2 ==> after.queue_sel == value && after.queues
                == before.queues
            &&& offset == 0x038 ==> new.queue_size == value && new.descriptor == queue.descriptor
                && new.avail_ring == new.descriptor + 16 * value
            &&& offset == 0x040 && before.page_size > 0 ==> {
                let page = value * before.page_size;
                if 0 <= page - ram@.virtual_base < ram@.bytes.len() {
                    &&& new.descriptor - ram@.physical_base == page - ram@.virtual_base
                    &&& new.avail_ring == new.descriptor + 16 * queue.queue_size
                    &&& new.queue_size == queue.queue_size
                } else {
                    after == before
                }
            }
            &&& offset == 0x070 && value != 0 ==> after.status == value % 0x1_0000_0000
                && after.queues == before.queues
            &&& offset == 0x070 && value == 0 ==> {
                &&& after.status == 0 && after.interrupt_status == 0
                &&& after.queues[0].queue_size == 0 && after.queues[1].queue_size == 0
                &&& after.queues[0].last_avail_id == 0 && after.queues[1].last_avail_id == 0
                &&& after.queues[0].used_id == 0 && after.queues[1].used_id == 0
                &&& after.queues[0].avail_ring == 0 && after.queues[1].avail_ring == 0
            }
            &&& offset == 0x064 ==> after.interrupt_status == before.interrupt_status & !(
            #[verifier::truncate] (value as u32)) && after.queues == before.queues
            &&& offset != 0x038 && offset != 0x040 && offset != 0x070 ==> after.queues
                == before.queues
            &&& offset == 0x050 ==> after == before
            &&& offset != 0x064 && offset != 0x070 ==> after.interrupt_status
                == before.interrupt_status
        }),
{
    crate::laws::fields::lemma_words(0, value, 0);
}

/// The used ring of a queue starts on the page behind its available ring.
pub proof fn used_ring_is_behind_the_available_ring(queue: &mut QueueState, page_order: u64)
    requires
        page_order < 64,
        crate::mmio::virtio::rings_fit(
            old(queue).descriptor as int,
            old(queue).queue_size as int,
            (1u64 << page_order) as int,
        ),
        call_ensures(QueueState::recompute_rings, (queue, 1u64 << page_order), ()),
    ensures
        ({
            let page = (1u64 << page_order) as int;
            let end = final(queue).avail_ring + 6 + 2 * old(queue).queue_size;
            &&& final(queue).avail_ring == old(queue).descriptor + 16 * old(queue).queue_size
            &&& final(queue).used_ring as int % page == 0
            &&& end <= final(queue).used_ring < end + page
            &&& final(queue).queue_size == old(queue).queue_size
            &&& final(queue).descriptor == old(queue).descriptor
        }),
{
    let avail = (old(queue).descriptor + 16 * old(queue).queue_size) as u64;
    crate::mmio::virtio::used_ring_is_on_a_page(avail, old(queue).queue_size, page_order);
    let end = (avail + 2 * (3 + old(queue).queue_size) - 1) as u64;
    crate::bits::lemma_mask_aligns_down_u64(end, page_order);
    crate::bits::lemma_align_down(end as int, page_order as nat);
}

/// Both ways to state a number agree.
pub proof fn lemma_guest_number(ram: Ram, address: int, n: nat)
    ensures
        ram.number(address, n) == guest_number(ram, address, n),
        0 <= ram.number(address, n) < crate::guest_ram::byte_range(n),
    decreases n,
{
    if n > 0 {
        lemma_guest_number(ram, address + 1, (n - 1) as nat);
    }
}

/// A number depends on its bytes alone.
pub proof fn lemma_number_depends(a: Ram, b: Ram, address: int, n: nat)
    requires
        a.physical_base == b.physical_base,
        forall|i: int|
            address <= i < address + n ==> a.bytes[i - a.physical_base] == #[trigger] b.bytes[i
                - b.physical_base],
    ensures
        guest_number(a, address, n) == guest_number(b, address, n),
    decreases n,
{
    if n > 0 {
        lemma_number_depends(a, b, address + 1, (n - 1) as nat);
        assert(a.bytes[address - a.physical_base] == b.bytes[address - b.physical_base]);
    }
}

pub proof fn lemma_descriptor(queue: QueueState, ram: Ram, id: u16)
    requires
        queue.descriptor_at(ram, id) is Some,
    ensures
        ({
            let descriptor = queue.descriptor_at(ram, id)->0;
            let at = queue.descriptor + 16 * id;
            &&& descriptor.address == guest_number(ram, at, 8)
            &&& descriptor.length == guest_number(ram, at + 8, 4)
            &&& descriptor.flags == guest_number(ram, at + 12, 2)
            &&& descriptor.next == guest_number(ram, at + 14, 2)
        }),
{
    let at = queue.descriptor + 16 * id;
    crate::guest_ram::lemma_byte_ranges();
    lemma_guest_number(ram, at, 8);
    lemma_guest_number(ram, at + 8, 4);
    lemma_guest_number(ram, at + 12, 2);
    lemma_guest_number(ram, at + 14, 2);
}

proof fn lemma_odd(flags: u16)
    ensures
        flags & 1 == flags % 2,
{
    crate::bits::lemma_halve(flags as u64);
    assert((flags as u64) & 1 == flags & 1);
}

pub proof fn lemma_status_bit(status: u32)
    ensures
        (status | 1) % 2 == 1,
{
    crate::bits::lemma_halve((status | 1) as u64);
    crate::bits::lemma_change_bit(status, 0, 0);
    vstd::arithmetic::power2::lemma2_to64();
    vstd::bits::lemma_u32_shl_is_mul(1, 0);
    vstd::bits::lemma_u32_shr_is_div(status | 1, 0);
    assert(((status | 1) as u64) & 1 == (status | 1) & 1);
}

} // verus!
