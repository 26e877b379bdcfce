//! What the larger operations are made of.

use crate::dma::IoOp;
use crate::drivers::genet::Genet;
use crate::drivers::usb_mass_storage::ScsiCommand;
use crate::drivers::virtio_net::{lemma_first_free, Sending, VirtQueue, VirtioNet};
use crate::drivers::xhci::controller::Awaited;
use crate::drivers::xhci::ring::Trb;
use crate::memory_allocator::{MemoryAllocator, MemoryError};
use crate::net::{NetSending, PhysicalNet};
use crate::paging::{map_address_stage2, map_device_stage2};
use crate::stage2::Stage2Table;
use crate::text::{split_whitespace, views};
use crate::vgic::CpuInterface;
use vstd::arithmetic::power2::pow2;
use vstd::prelude::*;

verus! {

/// The characters that part words: the control characters from tab to carriage return, the spaces, the
/// next line, and the separators of lines and paragraphs.
pub open spec fn parts_words(scalar: u32) -> bool {
    ||| scalar == 9 || scalar == 10 || scalar == 11 || scalar == 12 || scalar == 13
    ||| scalar == 32 || scalar == 133 || scalar == 160 || scalar == 5760
    ||| 8192 <= scalar < 8203
    ||| scalar == 8232 || scalar == 8233 || scalar == 8239 || scalar == 8287 || scalar == 12288
}

/// A single character is a word, unless it is one of those that part words.
pub proof fn single_character_is_a_word(bytes: &[u8], words: Vec<Vec<u8>>)
    requires
        bytes@.len() > 0,
        vstd::utf8::valid_first_scalar(bytes@),
        vstd::utf8::pop_first_scalar(bytes@) == Seq::<u8>::empty(),
        call_ensures(split_whitespace, (bytes,), words),
    ensures
        parts_words(vstd::utf8::decode_first_scalar(bytes@)) ==> views(words@) == Seq::<
            Seq<u8>,
        >::empty(),
        !parts_words(vstd::utf8::decode_first_scalar(bytes@)) ==> views(words@) == seq![
            vstd::utf8::take_first_scalar(bytes@),
        ],
{
    reveal_with_fuel(crate::text::split_from, 2);
    let none = Seq::<Seq<u8>>::empty();
    let first = vstd::utf8::take_first_scalar(bytes@);
    assert(Seq::<u8>::empty() + first =~= first);
    assert(none.push(first) =~= seq![first]);
}

/// A free range is in the list of the least order whose block holds it, and in the last list where none
/// does.
pub proof fn range_is_in_the_list_of_its_size(size: usize, order: usize)
    requires
        call_ensures(MemoryAllocator::size_to_page_order, (size,), order),
    ensures
        order <= 11,
        order < 11 ==> size <= pow2((12 + order) as nat),
        order > 0 ==> size > pow2((11 + order) as nat),
{
    reveal(crate::memory_allocator::page_order);
    vstd::arithmetic::power2::lemma2_to64();
}

/// The blocks of an alignment that hold a request start at a multiple of it, reach over all of the request, and
/// are no more than it takes.
pub proof fn request_is_rounded_outwards(
    address: usize,
    size: usize,
    align_order: usize,
    aligned: (usize, usize),
)
    requires
        size > 0,
        call_ensures(
            MemoryAllocator::align_address_and_size,
            (address, size, align_order),
            aligned,
        ),
    ensures
        ({
            let block = pow2(align_order as nat) as int;
            &&& aligned.0 as int % block == 0
            &&& aligned.0 <= address < aligned.0 + block
            &&& aligned.1 as int % block == 0
            &&& address + size <= aligned.0 + aligned.1 < address + size + block
        }),
{
    let order = align_order as nat;
    let block = pow2(order) as int;
    crate::bits::lemma_align_down(address as int, order);
    let last = size + (address - aligned.0) - 1;
    crate::bits::lemma_align_down(last, order);
    vstd::arithmetic::div_mod::lemma_mod_add_multiples_vanish(
        crate::bits::align_down(last, order),
        block,
    );
}

/// The aligned part of a range starts at the first multiple in it and ends with the range.
pub proof fn range_is_aligned(
    start: usize,
    size: usize,
    align_order: usize,
    aligned: (usize, usize),
)
    requires
        call_ensures(
            MemoryAllocator::align_address_and_available_size,
            (start, size, align_order),
            aligned,
        ),
    ensures
        ({
            let block = pow2(align_order as nat) as int;
            &&& aligned.0 as int % block == 0
            &&& start <= aligned.0 < start + block
            &&& aligned.0 < start + size ==> aligned.0 + aligned.1 == start + size
            &&& aligned.0 >= start + size ==> aligned.1 == 0
        }),
{
    crate::bits::lemma_align_up(start as int, align_order as nat);
}

/// Memory anywhere is memory below the end of the address space.
pub proof fn memory_is_given_out_anywhere(
    allocator: &mut MemoryAllocator,
    other: &mut MemoryAllocator,
    size: usize,
    align_order: usize,
    result: Result<usize, MemoryError>,
    limited: Result<usize, MemoryError>,
)
    requires
        *old(other) == *old(allocator),
        call_ensures(MemoryAllocator::allocate, (allocator, size, align_order), result),
        call_ensures(
            MemoryAllocator::allocate_below,
            (other, size, align_order, usize::MAX),
            limited,
        ),
    ensures
        result == limited,
        final(allocator)@ == final(other)@,
{
}

/// A storage device is asked why a command failed by command 3, for 18 bytes.
pub proof fn sense_is_asked_for(tag: u32, command: ScsiCommand)
    requires
        call_ensures(ScsiCommand::request_sense, (tag,), command),
    ensures
        command.tag == tag,
        command.cdb@.len() == 6,
        command.cdb@[0] == 3,
        command.cdb@[4] == command.length,
        command.length == 18,
        command.direction_in,
        command.cdb@[1] == 0 && command.cdb@[2] == 0 && command.cdb@[3] == 0 && command.cdb@[5]
            == 0,
{
}

/// A frame is sent by the device that there is, as that device sends it.
pub proof fn frame_is_sent_by_the_virtio_device(
    net: &mut PhysicalNet,
    inner: &mut VirtioNet,
    header_address: u64,
    buffer_address: u64,
    length: u64,
    ops: &mut Vec<IoOp>,
    result: Result<NetSending, ()>,
    inner_ops: &mut Vec<IoOp>,
    inner_result: Result<Sending, ()>,
)
    requires
        old(net).wf(),
        *old(net) == PhysicalNet::Virtio(*old(inner)),
        old(inner_ops)@ == old(ops)@,
        call_ensures(
            PhysicalNet::send,
            (net, header_address, buffer_address, length, ops),
            result,
        ),
        call_ensures(
            VirtioNet::send,
            (inner, header_address, buffer_address, length, inner_ops),
            inner_result,
        ),
    ensures
        final(ops)@ == final(inner_ops)@,
        inner_result matches Ok(sending) ==> result == Ok::<NetSending, ()>(
            NetSending::Virtio(sending),
        ),
        inner_result is Err ==> result is Err,
        *final(net) matches PhysicalNet::Virtio(after) && after.tx@ == final(inner).tx@,
{
}

/// A frame is sent by the Ethernet controller that there is, as that sends it.
pub proof fn frame_is_sent_by_the_ethernet_controller(
    net: &mut PhysicalNet,
    inner: &mut Genet,
    header_address: u64,
    buffer_address: u64,
    length: u64,
    ops: &mut Vec<IoOp>,
    result: Result<NetSending, ()>,
    inner_ops: &mut Vec<IoOp>,
)
    requires
        old(net).wf(),
        *old(net) == PhysicalNet::Genet(*old(inner)),
        old(inner_ops)@ == old(ops)@,
        call_ensures(
            PhysicalNet::send,
            (net, header_address, buffer_address, length, ops),
            result,
        ),
        call_ensures(Genet::send, (inner, buffer_address, length, inner_ops), ()),
    ensures
        final(ops)@ == final(inner_ops)@,
        result == Ok::<NetSending, ()>(NetSending::Genet),
        *final(net) == PhysicalNet::Genet(*final(inner)),
{
}

/// A descriptor that is taken was free and is not afterwards; one that is given back can be taken again.
pub proof fn descriptor_is_taken_once(
    queue: &mut VirtQueue,
    descriptor: Option<u16>,
    i: int,
    later: &mut VirtQueue,
    index: u16,
)
    requires
        old(queue).wf(),
        call_ensures(VirtQueue::allocate_descriptor, (queue,), descriptor),
        0 <= i < 8,
        old(later).wf(),
        index < 8,
        call_ensures(VirtQueue::free_descriptor, (later, index), ()),
    ensures
        descriptor is None <==> forall|k: int| 0 <= k < 8 ==> !(#[trigger] old(queue)@.free[k]),
        descriptor matches Some(d) ==> {
            &&& d < 8
            &&& old(queue)@.free[d as int]
            &&& !final(queue)@.free[d as int]
            &&& i < d ==> !old(queue)@.free[i]
            &&& i != d ==> final(queue)@.free[i] == old(queue)@.free[i]
        },
        final(later)@.free[index as int],
        i != index ==> final(later)@.free[i] == old(later)@.free[i],
        final(queue)@.avail_idx == old(queue)@.avail_idx,
        final(later)@.avail_idx == old(later)@.avail_idx,
{
    lemma_first_free(old(queue)@.free, 0);
}

/// A command waits for an event of kind 33, a transfer for one of kind 32 that names its slot and its endpoint.
pub proof fn event_is_the_awaited_one(awaited: &Awaited, event: &Trb, matching: bool)
    requires
        call_ensures(Awaited::matches_event, (awaited, event), matching),
    ensures
        ({
            let kind = event.control as int / 0x400 % 64;
            let slot = event.control as int / 0x100_0000;
            let number = event.control as int / 0x1_0000 % 32;
            match *awaited {
                Awaited::Command => matching <==> kind == 33,
                Awaited::Transfer { slot_id, ep_index } => number > 0 ==> (matching <==> kind == 32
                    && slot == slot_id && number == ep_index + 1),
            }
        }),
{
}

/// A List Register is free where both bits of its state are clear, and holds an interrupt where one is set and
/// its lowest ten bits are those of the interrupt.
pub proof fn list_registers_are_looked_through(
    cpu: &CpuInterface,
    int_id: u32,
    held: bool,
    free: bool,
    used: int,
)
    requires
        int_id < 1024,
        used == if cpu.number_of_list_registers < 4 {
            cpu.number_of_list_registers as int
        } else {
            4
        },
        call_ensures(CpuInterface::is_held, (cpu, int_id), held),
        call_ensures(CpuInterface::has_free_list_register, (cpu,), free),
    ensures
        held <==> exists|i: int|
            0 <= i < used && (#[trigger] cpu.list_registers@[i]) / 0x1000_0000 % 4 != 0
                && cpu.list_registers@[i] % 0x400 == int_id,
        free <==> exists|i: int|
            0 <= i < used && (#[trigger] cpu.list_registers@[i]) / 0x1000_0000 % 4 == 0,
{
    let registers = cpu.list_registers@;
    let n = cpu@.used();
    crate::vgic::lemma_holder_from(registers, n, int_id, 0);
    crate::vgic::lemma_free_from(registers, n, 0);
    crate::laws::fields::lemma_list_register(int_id);
    assert forall|i: int| 0 <= i < used implies (crate::vgic::is_occupied(
        #[trigger] registers[i],
    ) <==> registers[i] / 0x1000_0000 % 4 != 0) && registers[i] & 0x3FF == registers[i] % 0x400 by {
        crate::laws::fields::lemma_list_register(registers[i]);
    }
    let h = crate::vgic::holder_from(registers, n, int_id, 0);
    let f = crate::vgic::free_from(registers, n, 0);
    if held {
        assert(registers[h] / 0x1000_0000 % 4 != 0);
    }
    if free {
        assert(registers[f] / 0x1000_0000 % 4 == 0);
    }
    if exists|i: int|
        0 <= i < used && (#[trigger] registers[i]) / 0x1000_0000 % 4 != 0 && registers[i] % 0x400
            == int_id {
        let i = choose|i: int|
            0 <= i < used && (#[trigger] registers[i]) / 0x1000_0000 % 4 != 0 && registers[i]
                % 0x400 == int_id;
        assert(crate::vgic::holds(registers[i], int_id));
    }
    if exists|i: int| 0 <= i < used && (#[trigger] registers[i]) / 0x1000_0000 % 4 == 0 {
        let i = choose|i: int| 0 <= i < used && (#[trigger] registers[i]) / 0x1000_0000 % 4 == 0;
        assert(!crate::vgic::is_occupied(registers[i]));
    }
}

/// What a walk through the tables finds for an address: `output`, with this permission and kind of memory.
pub open spec fn translates(
    table: Stage2Table,
    level: int,
    x: u64,
    output: int,
    is_readable: bool,
    is_writable: bool,
    is_device: bool,
) -> bool {
    let permission = if is_readable {
        1u64
    } else {
        0
    };
    &&& table.mapping(level, x as int / 0x1000) matches Some(leaf)
    &&& crate::stage2::output_of(leaf, x) == output
    &&& crate::stage2::gives(
        leaf,
        if is_writable {
            (permission + 2) as u64
        } else {
            permission
        },
        is_device,
    )
}

/// The page stands in the table where its number says, as far as the table reaches.
proof fn lemma_in_reach(page: int, n: int, level: int)
    requires
        0 <= page < n * crate::stage2::span(level),
        0 < n,
        0 <= level <= 3,
    ensures
        crate::stage2::page_in_table(page, n, level) == page,
{
    let span = crate::stage2::span(level);
    crate::stage2::lemma_span(page, level);
    vstd::arithmetic::div_mod::lemma_fundamental_div_mod(page, span);
    vstd::arithmetic::mul::lemma_mul_is_commutative(span, page / span);
    assert(page / span < n) by (nonlinear_arith)
        requires
            page < n * span,
            span > 0,
            page == (page / span) * span + page % span,
            0 <= page % span,
    ;
    vstd::arithmetic::div_mod::lemma_div_pos_is_pos(page, span);
    vstd::arithmetic::div_mod::lemma_small_mod((page / span) as nat, n as nat);
}

proof fn lemma_translated(
    before: Stage2Table,
    after: Stage2Table,
    vtcr_el2: u64,
    physical_address: u64,
    address: u64,
    size: u64,
    is_readable: bool,
    is_writable: bool,
    is_device: bool,
    x: u64,
)
    requires
        crate::paging::is_initial_table(before, vtcr_el2),
        crate::paging::is_mapped(
            before,
            after,
            true,
            vtcr_el2,
            physical_address,
            address,
            size,
            crate::paging::permission_bits(is_readable, is_writable),
            is_device,
        ),
        physical_address % 0x1000 == 0,
        address % 0x1000 == 0,
        physical_address + size <= 0x4_0000_0000_0000,
        address + size <= before.pages(crate::paging::initial_level(vtcr_el2)) * 0x1000,
        address <= x < address + size,
    ensures
        translates(
            after,
            crate::paging::initial_level(vtcr_el2),
            x,
            physical_address + (x - address),
            is_readable,
            is_writable,
            is_device,
        ),
{
    let level = crate::paging::initial_level(vtcr_el2);
    let n = before.descriptors@.len() as int;
    let from = address as int / 0x1000;
    let p = x as int / 0x1000;
    let permission = crate::paging::permission_bits(is_readable, is_writable);
    if n == 0 {
        assert(before.pages(level) == 0) by (nonlinear_arith)
            requires
                n == 0,
                before.pages(level) == n * crate::stage2::span(level),
        ;
    }
    lemma_in_reach(from, n, level);
    let todo = size as int / 0x1000;
    let done = choose|done: int|
        done == todo && #[trigger] crate::paging::pages_are_mapped(
            before,
            after,
            level,
            from,
            done,
            true,
            physical_address,
            permission,
            is_device,
        );
    assert(crate::stage2::maps(
        after.mapping(level, p),
        p,
        physical_address + (p - from) * 0x1000,
        permission,
        is_device,
    ));
    crate::stage2::mapped_page_translates(
        after.mapping(level, p),
        x,
        physical_address + (p - from) * 0x1000,
        permission,
        is_device,
    );
}

/// Memory that was mapped for a guest is found there, byte for byte, with the permission it was mapped with.
pub proof fn mapped_memory_is_found(
    table: &mut Stage2Table,
    allocator: &mut MemoryAllocator,
    vtcr_el2: u64,
    physical_address: u64,
    address: u64,
    size: u64,
    is_readable: bool,
    is_writable: bool,
    x: u64,
)
    requires
        crate::paging::is_initial_table(*old(table), vtcr_el2),
        call_ensures(
            map_address_stage2,
            (
                table,
                allocator,
                vtcr_el2,
                physical_address,
                address,
                size,
                is_readable,
                is_writable,
            ),
            Ok(()),
        ),
        physical_address % 0x1000 == 0,
        address % 0x1000 == 0,
        physical_address + size <= 0x4_0000_0000_0000,
        address + size <= old(table).pages(crate::paging::initial_level(vtcr_el2)) * 0x1000,
        address <= x < address + size,
    ensures
        translates(
            *final(table),
            crate::paging::initial_level(vtcr_el2),
            x,
            physical_address + (x - address),
            is_readable,
            is_writable,
            false,
        ),
        size % 0x1000 == 0,
{
    lemma_translated(
        *old(table),
        *final(table),
        vtcr_el2,
        physical_address,
        address,
        size,
        is_readable,
        is_writable,
        false,
        x,
    );
}

/// So are the registers of a device, as device memory.
pub proof fn mapped_device_is_found(
    table: &mut Stage2Table,
    allocator: &mut MemoryAllocator,
    vtcr_el2: u64,
    physical_address: u64,
    address: u64,
    size: u64,
    is_readable: bool,
    is_writable: bool,
    x: u64,
)
    requires
        crate::paging::is_initial_table(*old(table), vtcr_el2),
        call_ensures(
            map_device_stage2,
            (
                table,
                allocator,
                vtcr_el2,
                physical_address,
                address,
                size,
                is_readable,
                is_writable,
            ),
            Ok(()),
        ),
        physical_address % 0x1000 == 0,
        address % 0x1000 == 0,
        physical_address + size <= 0x4_0000_0000_0000,
        address + size <= old(table).pages(crate::paging::initial_level(vtcr_el2)) * 0x1000,
        address <= x < address + size,
    ensures
        translates(
            *final(table),
            crate::paging::initial_level(vtcr_el2),
            x,
            physical_address + (x - address),
            is_readable,
            is_writable,
            true,
        ),
        size % 0x1000 == 0,
{
    lemma_translated(
        *old(table),
        *final(table),
        vtcr_el2,
        physical_address,
        address,
        size,
        is_readable,
        is_writable,
        true,
        x,
    );
}

} // verus!
