//! The physical network device that was found at boot.

use crate::dma::IoOp;
use crate::drivers::genet::Genet;
use crate::drivers::virtio_net::{Sending, VirtioNet};
use vstd::prelude::*;

verus! {

/// The MAC address that is used where the device has none: a locally administered one.
pub const DEFAULT_MAC_ADDRESS: [u8; 6] = [0x52, 0x54, 0x00, 0x12, 0x34, 0x56];

/// How many frames are taken from the device at a time.
pub const MAX_PACKETS_PER_CALL: usize = 16;

pub enum PhysicalNet {
    Virtio(VirtioNet),
    Genet(Genet),
}

/// A frame that was handed to the device.
#[derive(Clone, Copy, PartialEq, Eq, Debug, Structural)]
pub enum NetSending {
    Virtio(Sending),
    /// The producer index is read next.
    Genet,
}

impl PhysicalNet {
    pub open spec fn wf(&self) -> bool {
        match self {
            PhysicalNet::Virtio(net) => net.wf(),
            PhysicalNet::Genet(net) => net.wf(),
        }
    }

    pub open spec fn mac(&self) -> [u8; 6] {
        match self {
            PhysicalNet::Virtio(net) => net.mac,
            PhysicalNet::Genet(net) => net.mac,
        }
    }

    pub fn get_mac_address(&self) -> (mac: [u8; 6])
        ensures
            mac == self.mac(),
    {
        match self {
            PhysicalNet::Virtio(net) => net.get_mac_address(),
            PhysicalNet::Genet(net) => net.get_mac_address(),
        }
    }

    /// Hands a frame to the device.
    pub fn send(
        &mut self,
        header_address: u64,
        buffer_address: u64,
        length: u64,
        ops: &mut Vec<IoOp>,
    ) -> (result: Result<NetSending, ()>)
        requires
            old(self).wf(),
        ensures
            final(self).wf(),
            final(self).mac() == old(self).mac(),
            match *old(self) {
                PhysicalNet::Virtio(net) => match net.sending(
                    header_address,
                    buffer_address,
                    length,
                ) {
                    Some((queue, written, sending)) => {
                        &&& result == Ok::<NetSending, ()>(NetSending::Virtio(sending))
                        &&& sending.header < 8 && sending.data < 8
                        &&& *final(self) matches PhysicalNet::Virtio(after) && after.tx@ == queue
                        &&& final(ops)@ == old(ops)@ + written
                    },
                    None => {
                        &&& result is Err
                        &&& *final(self) matches PhysicalNet::Virtio(after) && after.tx@ == net.tx@
                        &&& final(ops)@ == old(ops)@
                    },
                },
                PhysicalNet::Genet(net) => {
                    &&& result == Ok::<NetSending, ()>(NetSending::Genet)
                    &&& *final(self) == PhysicalNet::Genet(
                        Genet { tx_index: crate::drivers::genet::next_index(net.tx_index), ..net },
                    )
                    &&& final(ops)@ == old(ops)@ + (seq![
                        IoOp::Clean { address: buffer_address, size: length },
                    ] + net.descriptor_ops(
                        crate::drivers::genet::GENET_TX_OFF,
                        net.tx_index as int,
                        buffer_address,
                        Genet::tx_status(length),
                    ))
                },
            },
    {
        match self {
            PhysicalNet::Virtio(net) => match net.send(
                header_address,
                buffer_address,
                length,
                ops,
            ) {
                Ok(sending) => Ok(NetSending::Virtio(sending)),
                Err(()) => Err(()),
            },
            PhysicalNet::Genet(net) => {
                net.send(buffer_address, length, ops);
                Ok(NetSending::Genet)
            },
        }
    }

    /// Whether frames have to be looked for: the device raises no interrupt.
    pub fn requires_wfx_polling(&self) -> (polling: bool)
        ensures
            polling == (*self is Genet),
    {
        match self {
            PhysicalNet::Virtio(_) => false,
            PhysicalNet::Genet(_) => true,
        }
    }
}

/// Whether an idle vCPU has to look for frames.
pub fn needs_net_polling_on_wfx(net: &Option<PhysicalNet>) -> (polling: bool)
    ensures
        polling == (*net matches Some(n) && n is Genet),
{
    match net {
        Some(net) => net.requires_wfx_polling(),
        None => false,
    }
}

/// The MAC address of a further guest.
pub fn get_guest_net_mac(net: &Option<PhysicalNet>) -> (mac: [u8; 6])
    ensures
        mac == match *net {
            Some(n) => n.mac(),
            None => DEFAULT_MAC_ADDRESS,
        },
{
    match net {
        Some(net) => net.get_mac_address(),
        None => DEFAULT_MAC_ADDRESS,
    }
}

/// The MAC address of the first guest: that of the device, unless it is all zeros.
pub fn init_physical_net(net: &Option<PhysicalNet>) -> (mac: [u8; 6])
    ensures
        mac == match *net {
            Some(n) => if n.mac()@ == seq![0u8, 0, 0, 0, 0, 0] {
                DEFAULT_MAC_ADDRESS
            } else {
                n.mac()
            },
            None => DEFAULT_MAC_ADDRESS,
        },
{
    match net {
        Some(net) => {
            let mac: [u8; 6] = net.get_mac_address();
            let ghost zeros = seq![0u8, 0, 0, 0, 0, 0];
            if mac[0] == 0 && mac[1] == 0 && mac[2] == 0 && mac[3] == 0 && mac[4] == 0 && mac[5]
                == 0 {
                assert(mac@ =~= zeros);
                DEFAULT_MAC_ADDRESS
            } else {
                proof {
                    if mac@ == zeros {
                        assert(mac@[0] == zeros[0] && mac@[1] == zeros[1] && mac@[2] == zeros[2]
                            && mac@[3] == zeros[3] && mac@[4] == zeros[4] && mac@[5] == zeros[5]);
                    }
                }
                mac
            }
        },
        None => DEFAULT_MAC_ADDRESS,
    }
}

/// Frames that are taken from the device, one after the other.
#[derive(Clone, Copy, PartialEq, Eq, Debug, Structural)]
pub struct NetRx {
    pub processed: usize,
}

impl NetRx {
    pub fn new() -> (rx: Self)
        ensures
            rx == (NetRx { processed: 0 }),
    {
        Self { processed: 0 }
    }

    /// Whether the device is asked for another frame, after the last one gave one or not.
    pub fn handle_net_rx(&mut self, received: bool) -> (again: bool)
        requires
            old(self).processed < MAX_PACKETS_PER_CALL,
        ensures
            again == (received && old(self).processed + 1 < 16),
            final(self).processed == old(self).processed + if received {
                1int
            } else {
                0
            },
    {
        if !received {
            return false;
        }
        self.processed = self.processed + 1;
        self.processed < MAX_PACKETS_PER_CALL
    }
}

} // verus!
