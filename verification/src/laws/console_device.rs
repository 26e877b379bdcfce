//! The console device that a guest sees, and its queues.

use crate::guest_ram::GuestRam;
use crate::laws::virtio::{
    guest_number, lemma_descriptor, lemma_guest_number, lemma_status_bit,
};
use crate::mmio::gicv2::GicDistributorMmio;
use crate::mmio::virtio_console::{
    ConsoleCounters, ConsoleNotice, ConsoleStep, VirtioConsoleMmio,
};
use crate::text::print_bytes;
use crate::vgic::CpuInterface;
use vstd::prelude::*;

verus! {

/// The device is a legacy console device with 32 descriptors a queue and no features.
pub proof fn console_device_identifies_itself(
    console: &VirtioConsoleMmio,
    offset: usize,
    width: u64,
    value: u64,
)
    requires
        console.wf(),
        offset != 0x40,
        call_ensures(VirtioConsoleMmio::read, (console, offset, width), Ok(value)),
    ensures
        offset == 0x000 ==> value == 0x7472_6976,
        offset == 0x004 ==> value == 1,
        offset == 0x008 ==> value == 3,
        offset == 0x00C ==> value == 0x554d_4551,
        offset == 0x010 ==> value == 0,
        offset == 0x034 ==> value == 32,
        offset == 0x060 ==> value == console.device.interrupt_status,
        offset == 0x070 ==> value == console.device.status,
{
}

/// The guest has put out text with a one at 0x50, and posted buffers with a zero there. A zero at 0x70 drops the input
/// that waits.
pub proof fn console_device_is_notified(
    console: &mut VirtioConsoleMmio,
    ram: &GuestRam,
    offset: usize,
    width: u64,
    value: u64,
    notice: ConsoleNotice,
)
    requires
        old(console).wf(),
        ram@.valid(),
        old(console).device@.can_write(ram@, offset as int, value),
        call_ensures(VirtioConsoleMmio::write, (console, ram, offset, width, value), Ok(notice)),
    ensures
        notice is Transmit <==> offset == 0x50 && value == 1,
        notice is Receive <==> offset == 0x50 && value == 0,
        final(console).rx_staging@ == if offset == 0x70 && value == 0 {
            Seq::<u8>::empty()
        } else {
            old(console).rx_staging@
        },
        offset == 0x70 && value == 0 ==> final(console).device@.status == 0 && final(console).device@.queues[0].queue_size == 0 && final(console).device@.queues[1].queue_size == 0,
        offset == 0x70 && value != 0 ==> final(console).device@.status == value % 0x1_0000_0000,
        offset == 0x30 && value < 2 ==> final(console).device@.queue_sel == value,
        offset == 0x38 ==> final(console).device@.queues[old(console).device@.queue_sel].queue_size == value,
{
    crate::laws::fields::lemma_words(0, value, 0);
}

/// The text of a TX entry is what the guest stored where its descriptor says, printed as characters. The entry is then
/// taken, and one buffer and its bytes are counted.
pub proof fn tx_entry_is_printed(
    console: &mut VirtioConsoleMmio,
    ram: &mut GuestRam,
    counters: &mut ConsoleCounters,
    step: ConsoleStep,
    stored: &[u8],
    printed: Vec<u8>,
)
    requires
        old(console).wf(),
        old(console).device@.queues[1].is_usable(),
        old(ram)@.valid(),
        call_ensures(VirtioConsoleMmio::next_tx, (console, ram, counters), step),
        call_ensures(print_bytes, (stored,), printed),
        ({
            let queue = old(console).device.queues@[1];
            let slot = queue.last_avail_id as int % queue.queue_size as int;
            let id = guest_number(old(ram)@, queue.avail_ring + 4 + 2 * slot, 2);
            let descriptor = queue.descriptor + 16 * id;
            let start = guest_number(old(ram)@, descriptor, 8) - old(ram)@.virtual_base;
            let length = guest_number(old(ram)@, descriptor + 8, 4);
            &&& queue.avail_ring != 0
            &&& queue.descriptor != 0
            &&& 0 < queue.queue_size < 0x1_0000
            &&& old(ram)@.holds(queue.avail_ring + 2, 2)
            &&& old(ram)@.holds(queue.avail_ring + 4 + 2 * slot, 2)
            &&& old(ram)@.holds(descriptor, 16)
            &&& 0 <= start < old(ram)@.bytes.len()
            &&& start + length <= old(ram)@.bytes.len()
            &&& stored@ == old(ram)@.bytes.subrange(start, start + length)
            &&& guest_number(old(ram)@, queue.avail_ring + 2, 2) != queue.last_avail_id
        }),
    ensures
        step matches ConsoleStep::Output(text) && text@ == printed@,
        final(console).device.queues@[1].last_avail_id == (old(console).device.queues@[1].last_avail_id + 1) % 0x1_0000,
        final(console).device.queues@[1].used_id == (old(console).device.queues@[1].used_id + 1)
            % 0x1_0000,
        old(counters).tx_bufs < u64::MAX ==> final(counters).tx_bufs == old(counters).tx_bufs + 1,
        old(counters).tx_bytes + stored@.len() <= u64::MAX ==> final(counters).tx_bytes == old(counters).tx_bytes + stored@.len(),
{
    let queue = old(console).device.queues@[1];
    let start = old(ram)@;
    let slot = queue.last_avail_id as int % queue.queue_size as int;
    vstd::arithmetic::div_mod::lemma_mod_bound(
        queue.last_avail_id as int,
        queue.queue_size as int,
    );
    assert(queue.ring_size() == queue.queue_size);
    crate::guest_ram::lemma_byte_ranges();
    lemma_guest_number(start, queue.avail_ring + 2, 2);
    lemma_guest_number(start, queue.avail_ring + 4 + 2 * slot, 2);
    let id = queue.descriptor_id(start, slot as u16)->0;
    lemma_descriptor(queue, start, id);
    assert(queue == old(console).device@.queues[1]);
    assert(final(console).device@.queues[1] == final(console).device.queues@[1]);
}

/// A TX queue without a new entry is idle.
pub proof fn tx_queue_is_idle(
    console: &mut VirtioConsoleMmio,
    ram: &mut GuestRam,
    counters: &mut ConsoleCounters,
    step: ConsoleStep,
)
    requires
        old(console).wf(),
        old(console).device@.queues[1].is_usable(),
        old(ram)@.valid(),
        call_ensures(VirtioConsoleMmio::next_tx, (console, ram, counters), step),
        ({
            let queue = old(console).device.queues@[1];
            ||| queue.queue_size == 0
            ||| queue.avail_ring == 0
            ||| old(ram)@.holds(queue.avail_ring + 2, 2) && guest_number(
                old(ram)@,
                queue.avail_ring + 2,
                2,
            ) == queue.last_avail_id
        }),
    ensures
        step is Idle,
        final(ram)@ == old(ram)@,
        *final(counters) == *old(counters),
{
    let queue = old(console).device.queues@[1];
    assert(queue == old(console).device@.queues[1]);
    lemma_guest_number(old(ram)@, queue.avail_ring + 2, 2);
}

/// A byte that arrives goes to the buffer of the next RX entry, and the guest is told by interrupt 50.
pub proof fn input_goes_to_the_next_buffer(
    console: &mut VirtioConsoleMmio,
    data: u8,
    ram: &mut GuestRam,
    distributor: &mut GicDistributorMmio,
    cpu: &mut CpuInterface,
    other_distributor: &mut GicDistributorMmio,
    other_cpu: &mut CpuInterface,
    injected: bool,
)
    requires
        old(console).wf(),
        old(console).device@.queues[0].is_usable(),
        old(ram)@.valid(),
        old(console).rx_staging@.len() == 0,
        *old(other_distributor) == *old(distributor),
        *old(other_cpu) == *old(cpu),
        call_ensures(VirtioConsoleMmio::push_rx, (console, data, ram, distributor, cpu), ()),
        call_ensures(
            GicDistributorMmio::trigger_interrupt,
            (other_distributor, other_cpu, 50u32, None::<u32>),
            injected,
        ),
        ({
            let queue = old(console).device.queues@[0];
            let slot = queue.last_avail_id as int % queue.queue_size as int;
            let id = guest_number(old(ram)@, queue.avail_ring + 4 + 2 * slot, 2);
            let descriptor = queue.descriptor + 16 * id;
            let place = guest_number(old(ram)@, descriptor, 8) - old(ram)@.virtual_base;
            let address = place + old(ram)@.physical_base;
            let used = queue.used_ring + 4 + 8 * (queue.used_id as int % queue.queue_size as int);
            &&& queue.avail_ring != 0
            &&& queue.descriptor != 0
            &&& 0 < queue.queue_size < 0x1_0000
            &&& old(ram)@.holds(queue.avail_ring + 2, 2)
            &&& old(ram)@.holds(queue.avail_ring + 4 + 2 * slot, 2)
            &&& old(ram)@.holds(descriptor, 16)
            &&& 0 <= place < old(ram)@.bytes.len()
            &&& guest_number(old(ram)@, queue.avail_ring + 2, 2) != queue.last_avail_id
            &&& guest_number(old(ram)@, descriptor + 8, 4) > 0
            &&& !(queue.used_ring + 2 <= address < queue.used_ring + 4)
            &&& !(used <= address < used + 8)
        }),
    ensures
        ({
            let queue = old(console).device.queues@[0];
            let slot = queue.last_avail_id as int % queue.queue_size as int;
            let id = guest_number(old(ram)@, queue.avail_ring + 4 + 2 * slot, 2);
            let place = guest_number(old(ram)@, queue.descriptor + 16 * id, 8) - old(ram)@.virtual_base;
            &&& final(ram)@.bytes[place] == data
            &&& final(console).rx_staging@.len() == 0
            &&& final(console).device.interrupt_status % 2 == 1
            &&& final(console).device.queues@[0].used_id == (queue.used_id + 1) % 0x1_0000
            &&& final(distributor)@ == final(other_distributor)@
            &&& final(cpu)@ == final(other_cpu)@
        }),
{
    let queue = old(console).device.queues@[0];
    let start = old(ram)@;
    let slot = queue.last_avail_id as int % queue.queue_size as int;
    vstd::arithmetic::div_mod::lemma_mod_bound(
        queue.last_avail_id as int,
        queue.queue_size as int,
    );
    assert(queue.ring_size() == queue.queue_size);
    crate::guest_ram::lemma_byte_ranges();
    lemma_guest_number(start, queue.avail_ring + 2, 2);
    lemma_guest_number(start, queue.avail_ring + 4 + 2 * slot, 2);
    let id = queue.descriptor_id(start, slot as u16)->0;
    lemma_descriptor(queue, start, id);
    let descriptor = queue.descriptor_at(start, id)->0;
    assert(queue == old(console).device@.queues[0]);
    let address = start.physical_address(descriptor.address)->0;
    assert(crate::mmio::virtio_console::rx_slot(queue, start) == Some((id, address)));
    let staged = crate::mmio::virtio_console::staged_with(old(console).rx_staging@, data);
    assert(staged =~= seq![data]);
    let filled = start.copied(address as int, seq![data]);
    let after = queue.taken(start);
    let (next, memory) = after.used(filled, id, 1);
    assert(staged.skip(1) =~= Seq::empty());
    assert(crate::mmio::virtio_console::flushed(next, memory, staged.skip(1)) == (
        next,
        memory,
        staged.skip(1),
    ));
    assert(crate::mmio::virtio_console::flushed(queue, start, staged) == (
        next,
        memory,
        staged.skip(1),
    ));
    assert(filled.bytes[address - start.physical_base] == data);
    if after.can_use(filled) {
        let a = after.used_address();
        let one = filled.stored(a, 4, id as int);
        crate::guest_ram::lemma_stored_frame(filled, a, 4, id as int);
        let two = one.stored(a + 4, 4, 1);
        crate::guest_ram::lemma_stored_frame(one, a + 4, 4, 1);
        crate::guest_ram::lemma_stored_frame(two, after.used_ring + 2, 2, next.used_id as int);
    }
    assert(final(console).device@.queues[0] == final(console).device.queues@[0]);
    lemma_status_bit(old(console).device.interrupt_status);
}

/// A byte that arrives while the guest has posted no buffer waits behind the others, as long as there are fewer than 256.
pub proof fn input_waits_for_a_buffer(
    console: &mut VirtioConsoleMmio,
    data: u8,
    ram: &mut GuestRam,
    distributor: &mut GicDistributorMmio,
    cpu: &mut CpuInterface,
)
    requires
        old(console).wf(),
        old(console).device@.queues[0].is_usable(),
        old(ram)@.valid(),
        call_ensures(VirtioConsoleMmio::push_rx, (console, data, ram, distributor, cpu), ()),
        ({
            let queue = old(console).device.queues@[0];
            ||| queue.queue_size == 0
            ||| queue.avail_ring == 0
            ||| old(ram)@.holds(queue.avail_ring + 2, 2) && guest_number(
                old(ram)@,
                queue.avail_ring + 2,
                2,
            ) == queue.last_avail_id
        }),
    ensures
        old(console).rx_staging@.len() < 256 ==> final(console).rx_staging@ == old(console).rx_staging@.push(data),
        old(console).rx_staging@.len() == 256 ==> final(console).rx_staging@ == old(console).rx_staging@,
        final(ram)@ == old(ram)@,
        final(distributor)@ == old(distributor)@,
        final(cpu)@ == old(cpu)@,
{
    let queue = old(console).device.queues@[0];
    assert(queue == old(console).device@.queues[0]);
    lemma_guest_number(old(ram)@, queue.avail_ring + 2, 2);
}

/// The guest is told by interrupt 50 that its text was put out.
pub proof fn output_is_confirmed(
    console: &mut VirtioConsoleMmio,
    distributor: &mut GicDistributorMmio,
    cpu: &mut CpuInterface,
    other_distributor: &mut GicDistributorMmio,
    other_cpu: &mut CpuInterface,
    injected: bool,
)
    requires
        old(console).wf(),
        *old(other_distributor) == *old(distributor),
        *old(other_cpu) == *old(cpu),
        call_ensures(VirtioConsoleMmio::end_tx, (console, distributor, cpu), ()),
        call_ensures(
            GicDistributorMmio::trigger_interrupt,
            (other_distributor, other_cpu, 50u32, None::<u32>),
            injected,
        ),
    ensures
        final(console).device.interrupt_status % 2 == 1,
        final(distributor)@ == final(other_distributor)@,
        final(cpu)@ == final(other_cpu)@,
{
    lemma_status_bit(old(console).device.interrupt_status);
}

} // verus!
