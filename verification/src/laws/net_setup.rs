//! How the driver of the network device begins to receive.

use crate::dma::IoOp;
use crate::drivers::virtio_net::{first_free, NetQueue, NetSetup, VirtioNet};
use crate::laws::network::{store, store16};
use crate::memory_allocator::MemoryAllocator;
use vstd::prelude::*;

verus! {

/// What hands the buffer with number `k` to the device, in a queue at `base`: descriptor `k` names its 1526
/// bytes, which the device may write, and is entry `k` of the available ring, which has one entry more.
pub open spec fn buffer_is_handed_over(base: int, buffers: int, k: int) -> Seq<IoOp> {
    let address = buffers + 1526 * k;
    seq![
        store(base + 16 * k, address % 0x1_0000_0000),
        store(base + 16 * k + 4, address / 0x1_0000_0000),
        store(base + 16 * k + 8, 1526),
        store(base + 16 * k + 12, 2),
        store16(base + 132 + 2 * k, k),
        store16(base + 130, k + 1),
    ]
}

proof fn lemma_handed_over(base: int, buffers: int, n: nat)
    requires
        n <= 8,
        0 <= buffers,
        buffers + 0x3000 <= u64::MAX,
    ensures
        ({
            let (queue, ops) = VirtioNet::posted(NetQueue::fresh(base), buffers, n);
            &&& queue.base == base
            &&& queue.avail_idx == n
            &&& queue.last_used_idx == 0
            &&& queue.free == Seq::new(8, |i: int| i >= n)
            &&& ops.len() == 6 * n
            &&& forall|k: int|
                0 <= k < n ==> ops.subrange(6 * k, 6 * k + 6) == #[trigger] buffer_is_handed_over(
                    base,
                    buffers,
                    k,
                )
        }),
    decreases n,
{
    if n == 0 {
        assert(NetQueue::fresh(base).free =~= Seq::new(8, |i: int| i >= 0));
    } else {
        let m = (n - 1) as nat;
        lemma_handed_over(base, buffers, m);
        let (before, ops) = VirtioNet::posted(NetQueue::fresh(base), buffers, m);
        let (after, more) = VirtioNet::posted(NetQueue::fresh(base), buffers, n);
        crate::drivers::virtio_net::lemma_first_free(before.free, 0);
        assert(before.free[m as int]);
        assert(first_free(before.free, 0) == Some(m as int));
        assert(after.free =~= Seq::new(8, |i: int| i >= n));
        let address = (buffers + 1526 * m) as u64;
        let added = before.descriptor_ops(m as int, address, 1526, 2, 0) + before.publish_ops(
            m as int,
        );
        assert(more =~= ops + added);
        assert(added =~= buffer_is_handed_over(base, buffers, m as int));
        assert forall|k: int| 0 <= k < n implies more.subrange(6 * k, 6 * k + 6)
            == #[trigger] buffer_is_handed_over(base, buffers, k) by {
            if k < m {
                assert(more.subrange(6 * k, 6 * k + 6) =~= ops.subrange(6 * k, 6 * k + 6));
            } else {
                assert(more.subrange(6 * k, 6 * k + 6) =~= added);
            }
        }
    }
}

/// Eight buffers of 1526 bytes, one behind the other in three new pages, are handed to the device in their order,
/// and it is told of queue 0. Nothing is sent yet. Without the pages nothing happens.
pub proof fn all_buffers_are_handed_over(
    setup: &NetSetup,
    allocator: &mut MemoryAllocator,
    ops: &mut Vec<IoOp>,
    net: Option<VirtioNet>,
    k: int,
)
    requires
        setup.wf(),
        old(allocator).wf(),
        call_ensures(VirtioNet::finish_setup, (setup, allocator, ops), net),
        0 <= k < 8,
        net matches Some(n) ==> n.rx_buffers + 0x3000 <= u64::MAX,
    ensures
        net is None ==> final(ops)@ == old(ops)@ && final(allocator)@ == old(allocator)@,
        net matches Some(n) ==> {
            let first = old(ops)@.len() as int;
            &&& n.base_address == setup.base_address
            &&& final(ops)@.len() == first + 49
            &&& final(ops)@.subrange(first + 6 * k, first + 6 * k + 6) == buffer_is_handed_over(
                setup.rx_base as int,
                n.rx_buffers as int,
                k,
            )
            &&& final(ops)@.last() == store(setup.base_address + 0x50, 0)
            &&& n.rx@.avail_idx == 8
            &&& n.rx@.last_used_idx == 0
            &&& !n.rx@.free[k]
            &&& n.tx@.base == setup.tx_base
            &&& n.tx@.avail_idx == 0
            &&& n.tx@.last_used_idx == 0
            &&& n.tx@.free[k]
        },
{
    if let Some(n) = net {
        let first = old(ops)@.len() as int;
        let base = setup.rx_base as int;
        let buffers = n.rx_buffers as int;
        lemma_handed_over(base, buffers, 8);
        let posted = VirtioNet::posted(NetQueue::fresh(base), buffers, 8).1;
        assert(final(ops)@ == old(ops)@ + posted + seq![n.notify_op(0)]);
        assert(final(ops)@.subrange(first + 6 * k, first + 6 * k + 6) =~= posted.subrange(
            6 * k,
            6 * k + 6,
        ));
        assert(buffer_is_handed_over(base, buffers, k) == posted.subrange(6 * k, 6 * k + 6));
    }
}

/// The address of the device has the bytes of its registers, the lowest first, where it has one, and is zero
/// otherwise.
pub proof fn device_has_the_address_of_its_registers(
    setup: &NetSetup,
    allocator: &mut MemoryAllocator,
    ops: &mut Vec<IoOp>,
    net: VirtioNet,
)
    requires
        setup.wf(),
        old(allocator).wf(),
        call_ensures(VirtioNet::finish_setup, (setup, allocator, ops), Some(net)),
    ensures
        net.mac@.len() == 6,
        setup.has_mac ==> {
            &&& net.mac@[0] + 0x100 * net.mac@[1] + 0x1_0000 * net.mac@[2] + 0x100_0000 * net.mac@[3]
                == setup.mac_low
            &&& net.mac@[4] + 0x100 * net.mac@[5] == setup.mac_high % 0x1_0000
        },
        !setup.has_mac ==> net.mac@ =~= seq![0u8, 0, 0, 0, 0, 0],
{
}

} // verus!
