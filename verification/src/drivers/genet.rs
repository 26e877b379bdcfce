//! Broadcom GENET (BCM2711, v5) driver.
//!
//! A minimal single-queue RX/TX DMA data path that backs the guest's Virtio-Net device. Registers
//! are read and written by the caller.

use crate::dma::IoOp;
use crate::memory_allocator::MemoryAllocator;
use vstd::prelude::*;

verus! {

pub const SYS_PORT_CTRL: u64 = 0x0004;

pub const SYS_RBUF_FLUSH_CTRL: u64 = 0x0008;

pub const EXT_RGMII_OOB_CTRL: u64 = 0x008C;

pub const RBUF_CTRL: u64 = 0x0300;

pub const RBUF_TBUF_SIZE_CTRL: u64 = 0x03B4;

pub const UMAC_CMD: u64 = 0x0808;

pub const UMAC_MAC0: u64 = 0x080C;

pub const UMAC_MAC1: u64 = 0x0810;

pub const UMAC_MAX_FRAME_LEN: u64 = 0x0814;

pub const UMAC_MODE: u64 = 0x0844;

pub const UMAC_TX_FLUSH: u64 = 0x0B34;

pub const UMAC_MIB_CTRL: u64 = 0x0D80;

pub const UMAC_MDIO_CMD: u64 = 0x0E14;

pub const GENET_RX_OFF: u64 = 0x2000;

pub const RDMA_RING_REG_BASE: u64 = 0x3000;

pub const RDMA_PROD_INDEX: u64 = 0x3008;

pub const RDMA_CONS_INDEX: u64 = 0x300C;

pub const RDMA_XON_XOFF_THRESH: u64 = 0x3028;

pub const RDMA_READ_PTR: u64 = 0x302C;

pub const RDMA_REG_BASE: u64 = 0x3040;

pub const GENET_TX_OFF: u64 = 0x4000;

pub const TDMA_RING_REG_BASE: u64 = 0x5000;

pub const TDMA_CONS_INDEX: u64 = 0x5008;

pub const TDMA_PROD_INDEX: u64 = 0x500C;

pub const TDMA_MBUF_DONE_THRESH: u64 = 0x5024;

pub const TDMA_FLOW_PERIOD: u64 = 0x5028;

pub const TDMA_WRITE_PTR: u64 = 0x502C;

pub const TDMA_REG_BASE: u64 = 0x5040;

pub const MII_BMSR: u8 = 1;

pub const MII_PHYSID1: u8 = 2;

pub const MII_PHYSID2: u8 = 3;

pub const MII_ADVERTISE: u8 = 4;

pub const MII_LPA: u8 = 5;

pub const MII_CTRL1000: u8 = 9;

pub const MII_STAT1000: u8 = 10;

pub const PHY_ADDRESS_MAX: u8 = 32;

pub const MDIO_POLL_TIMEOUT: u32 = 10_000;

pub const DMA_POLL_TIMEOUT: u32 = 1_000_000;

pub const NUMBER_OF_DESCRIPTORS: u64 = 256;

pub const RX_BUFFER_LENGTH: u64 = 2048;

/// What the controller puts in front of every packet.
pub const RX_BUF_OFFSET: u64 = 2;

/// The pages of all the RX buffers.
pub const RX_BUFFER_PAGES: usize = 128;

pub const MIN_REGISTER_RANGE: u64 = 0x1_0000;

/// A descriptor that belongs to the controller, with room for a whole buffer.
pub const RX_DESCRIPTOR_STATUS: u32 = 0x0800_8000;

#[derive(Clone, Copy, PartialEq, Eq, Debug, Structural)]
pub struct LinkStatus {
    pub phy_link: bool,
    pub mac_link: bool,
}

impl LinkStatus {
    pub open spec fn up(self) -> bool {
        self.phy_link || self.mac_link
    }

    pub fn is_up(&self) -> (up: bool)
        ensures
            up == self.up(),
    {
        self.phy_link || self.mac_link
    }
}

/// What came of looking at a register until something happens.
#[derive(Clone, Copy, PartialEq, Eq, Debug, Structural)]
pub enum Poll<T> {
    Again,
    Failed,
    Ready(T),
}

/// What a waiter for the link does next.
#[derive(Clone, Copy, PartialEq, Eq, Debug)]
pub enum LinkWait {
    /// The wait is over, with this result.
    Done(Result<LinkStatus, ()>),
    /// It is too early to look again.
    Early,
    /// The status is to be read.
    Look,
}

pub struct Genet {
    pub base_address: u64,
    pub phy_addr: u8,
    pub phy_id1: u16,
    pub phy_id2: u16,
    pub tx_index: u16,
    pub rx_index: u16,
    pub c_index: u16,
    pub rx_buffers: u64,
    pub mac: [u8; 6],
    pub data_path_ready: bool,
}

/// The MAC address in the two address registers.
pub open spec fn mac_of(mac0: u32, mac1: u32) -> Seq<u8> {
    seq![
        (mac0 / 0x100_0000) as u8,
        ((mac0 / 0x1_0000) % 0x100) as u8,
        ((mac0 / 0x100) % 0x100) as u8,
        (mac0 % 0x100) as u8,
        ((mac1 / 0x100) % 0x100) as u8,
        (mac1 % 0x100) as u8,
    ]
}

/// The MAC address of a controller whose registers hold none.
pub open spec fn default_mac() -> Seq<u8> {
    seq![0x52u8, 0x54, 0x00, 0x12, 0x34, 0x56]
}

/// The PHY address that is tried as number `n`: 1 first, then the others in order.
pub open spec fn phy_candidate(n: int) -> int {
    if n == 0 {
        1
    } else if n == 1 {
        0
    } else {
        n
    }
}

/// The next descriptor, around the ring.
pub open spec fn next_index(index: u16) -> u16 {
    if index.wrapping_add(1) >= 256 {
        0
    } else {
        (index + 1) as u16
    }
}

/// The speed code and whether the link is half duplex, from what both sides have said.
pub open spec fn negotiated(bmsr: u16, gtctl: u16, gtsr: u16, advertise: u16, lpa: u16) -> (
    u32,
    bool,
) {
    let common = advertise & lpa;
    if bmsr & 0x20 == 0 {
        (0, true)
    } else if gtctl & 0x200 != 0 && gtsr & 0x800 != 0 {
        (2, false)
    } else if gtctl & 0x100 != 0 && gtsr & 0x400 != 0 {
        (2, true)
    } else if common & 0x100 != 0 {
        (1, false)
    } else if common & 0x80 != 0 {
        (1, true)
    } else if common & 0x40 != 0 {
        (0, false)
    } else {
        (0, true)
    }
}

impl Genet {
    pub open spec fn wf(&self) -> bool {
        &&& self.base_address + 0x1_0000 <= u64::MAX
        &&& self.rx_buffers + 0x8_0000 <= u64::MAX
        &&& self.tx_index < 256
        &&& self.rx_index < 256
    }

    /// The controller at `base_address`, with the PHY that was found and what its address registers
    /// hold. `Err` where its registers are not all there, it has no PHY, or there is no memory.
    pub fn new(
        base_address: u64,
        range: u64,
        phy: Option<(u8, u16, u16)>,
        mac0: u32,
        mac1: u32,
        allocator: &mut MemoryAllocator,
    ) -> (result: Result<Self, ()>)
        requires
            base_address + 0x1_0000 <= u64::MAX,
            old(allocator).wf(),
        ensures
            final(allocator).wf(),
            match (phy, crate::memory::pages_taken(old(allocator)@, 128, 12)) {
                (Some((phy_addr, phy_id1, phy_id2)), Some((address, memory))) => if range
                    >= 0x1_0000 {
                    &&& result matches Ok(net) && net.wf() && net.base_address == base_address
                        && net.phy_addr == phy_addr && net.phy_id1 == phy_id1 && net.phy_id2
                        == phy_id2 && net.tx_index == 0 && net.rx_index == 0 && net.c_index == 0
                        && net.rx_buffers == address && !net.data_path_ready && net.mac@ == if mac_of(
                        mac0,
                        mac1,
                    ) == seq![0u8, 0, 0, 0, 0, 0] {
                        default_mac()
                    } else {
                        mac_of(mac0, mac1)
                    }
                    &&& final(allocator)@ == memory
                } else {
                    result is Err && final(allocator)@ == old(allocator)@
                },
                _ => result is Err && final(allocator)@ == old(allocator)@,
            },
    {
        if range < MIN_REGISTER_RANGE {
            return Err(());
        }
        let (phy_addr, phy_id1, phy_id2): (u8, u16, u16) = match phy {
            Some(phy) => phy,
            None => {
                return Err(());
            },
        };
        let ghost memory = allocator@;
        proof {
            crate::allocator_laws::allocator_is_consistent(*allocator);
        }
        let rx_buffers: usize = match crate::memory::try_allocate_pages(
            allocator,
            RX_BUFFER_PAGES,
            12,
        ) {
            Some(address) => address,
            None => {
                return Err(());
            },
        };
        proof {
            crate::memory::lemma_pages_taken(memory, 128, 12);
        }
        Ok(
            Self {
                base_address,
                phy_addr,
                phy_id1,
                phy_id2,
                tx_index: 0,
                rx_index: 0,
                c_index: 0,
                rx_buffers: rx_buffers as u64,
                mac: Self::maybe_read_mac_address(mac0, mac1),
                data_path_ready: false,
            },
        )
    }

    fn maybe_read_mac_address(mac0: u32, mac1: u32) -> (mac: [u8; 6])
        ensures
            mac@ == if mac_of(mac0, mac1) == seq![0u8, 0, 0, 0, 0, 0] {
                default_mac()
            } else {
                mac_of(mac0, mac1)
            },
    {
        let mac: [u8; 6] = [
            (mac0 / 0x100_0000) as u8,
            ((mac0 / 0x1_0000) % 0x100) as u8,
            ((mac0 / 0x100) % 0x100) as u8,
            (mac0 % 0x100) as u8,
            ((mac1 / 0x100) % 0x100) as u8,
            (mac1 % 0x100) as u8,
        ];
        assert(mac@ =~= mac_of(mac0, mac1));
        if mac[0] == 0 && mac[1] == 0 && mac[2] == 0 && mac[3] == 0 && mac[4] == 0 && mac[5] == 0 {
            assert(mac@ =~= seq![0u8, 0, 0, 0, 0, 0]);
            let usual: [u8; 6] = [0x52, 0x54, 0x00, 0x12, 0x34, 0x56];
            assert(usual@ =~= default_mac());
            usual
        } else {
            assert(mac@ != seq![0u8, 0, 0, 0, 0, 0]) by {
                let zeros = seq![0u8, 0, 0, 0, 0, 0];
                if mac@ == zeros {
                    assert(mac@[0] == zeros[0] && mac@[1] == zeros[1] && mac@[2] == zeros[2]
                        && mac@[3] == zeros[3] && mac@[4] == zeros[4] && mac@[5] == zeros[5]);
                }
            }
            mac
        }
    }

    pub fn get_base_address(&self) -> (address: u64)
        ensures
            address == self.base_address,
    {
        self.base_address
    }

    pub fn get_phy_address(&self) -> (address: u8)
        ensures
            address == self.phy_addr,
    {
        self.phy_addr
    }

    pub fn get_phy_id(&self) -> (id: (u16, u16))
        ensures
            id == (self.phy_id1, self.phy_id2),
    {
        (self.phy_id1, self.phy_id2)
    }

    pub fn get_mac_address(&self) -> (mac: [u8; 6])
        ensures
            mac == self.mac,
    {
        self.mac
    }

    /// The PHY address that is tried as number `n`.
    pub fn detect_phy(n: u8) -> (phy_addr: Option<u8>)
        ensures
            phy_addr == if n < 32 {
                Some(phy_candidate(n as int) as u8)
            } else {
                None
            },
    {
        if n >= PHY_ADDRESS_MAX {
            None
        } else if n == 0 {
            Some(1)
        } else if n == 1 {
            Some(0)
        } else {
            Some(n)
        }
    }

    /// The PHY at an address, from its two identifier registers. `None` where there is none.
    pub fn try_probe_phy(phy_addr: u8, phy_id1: Option<u16>, phy_id2: Option<u16>) -> (phy: Option<
        (u8, u16, u16),
    >)
        ensures
            phy == match (phy_id1, phy_id2) {
                (Some(id1), Some(id2)) => if id1 == 0 || id1 == 0xFFFF || id2 == 0 || id2
                    == 0xFFFF {
                    None
                } else {
                    Some((phy_addr, id1, id2))
                },
                _ => None,
            },
    {
        match (phy_id1, phy_id2) {
            (Some(id1), Some(id2)) => if id1 == 0 || id1 == u16::MAX || id2 == 0 || id2
                == u16::MAX {
                None
            } else {
                Some((phy_addr, id1, id2))
            },
            _ => None,
        }
    }

    /// The two values that are written to the MDIO register to read a register of a PHY.
    pub fn mdio_read(phy_addr: u8, reg: u8) -> (commands: (u32, u32))
        ensures
            commands.0 == 0x0800_0000 + (phy_addr as int % 32) * 0x20_0000 + (reg as int % 32)
                * 0x1_0000,
            commands.1 == commands.0 + 0x2000_0000,
    {
        let command: u32 = 0x0800_0000 + (phy_addr as u32 % 32) * 0x20_0000 + (reg as u32 % 32)
            * 0x1_0000;
        (command, command + 0x2000_0000)
    }

    /// Whether the time for an MDIO access is over. Without a counter the tries are counted.
    pub open spec fn mdio_late(frequency: u64, start: u64, now: u64, tries: u32) -> bool {
        if frequency != 0 {
            now.wrapping_sub(start) >= if frequency / 200 < 1 {
                1
            } else {
                frequency / 200
            }
        } else {
            tries + 1 >= 10_000
        }
    }

    /// What the MDIO register says of an access.
    pub fn wait_mdio_complete(status: u32, frequency: u64, start: u64, now: u64, tries: u32) -> (poll:
        Poll<u16>)
        ensures
            poll == if (status as int / 0x2000_0000) % 2 == 0 {
                if (status as int / 0x1000_0000) % 2 == 1 {
                    Poll::<u16>::Failed
                } else {
                    Poll::Ready((status as int % 0x1_0000) as u16)
                }
            } else if Self::mdio_late(frequency, start, now, tries) {
                Poll::Failed
            } else {
                Poll::Again
            },
    {
        if (status / 0x2000_0000) % 2 == 0 {
            return if (status / 0x1000_0000) % 2 == 1 {
                Poll::Failed
            } else {
                Poll::Ready((status % 0x1_0000) as u16)
            };
        }
        let late: bool = if frequency != 0 {
            let limit: u64 = if frequency / 200 < 1 {
                1
            } else {
                frequency / 200
            };
            now.wrapping_sub(start) >= limit
        } else {
            tries >= MDIO_POLL_TIMEOUT - 1
        };
        if late {
            Poll::Failed
        } else {
            Poll::Again
        }
    }

    /// The status of the link. The link bit of the PHY latches low, so it is read twice.
    pub fn read_link_status(bmsr_first: Option<u16>, bmsr_second: Option<u16>, mode: u32) -> (result:
        Result<LinkStatus, ()>)
        ensures
            result == match (bmsr_first, bmsr_second) {
                (Some(first), Some(second)) => Ok::<LinkStatus, ()>(
                    LinkStatus {
                        phy_link: (first | second) & 4 != 0,
                        mac_link: (mode as int / 32) % 2 == 1,
                    },
                ),
                _ => Err(()),
            },
    {
        match (bmsr_first, bmsr_second) {
            (Some(first), Some(second)) => Ok(
                LinkStatus {
                    phy_link: (first | second) & 4 != 0,
                    mac_link: (mode / 32) % 2 == 1,
                },
            ),
            _ => Err(()),
        }
    }

    /// How many ticks `timeout_ms` milliseconds take; the product stays in 64 bits.
    pub open spec fn link_timeout(frequency: u64, timeout_ms: u64) -> int {
        let product = frequency * timeout_ms;
        if product > u64::MAX {
            u64::MAX as int / 1000
        } else {
            product / 1000
        }
    }

    /// What a waiter for the link does at the counter value `now`. It started at `start`, last looked
    /// again at `last_poll`, and `status` is what the last reading of the status gave. A failed reading
    /// ends the wait, and so does a link that is up when looked at again, and the end of the time. The
    /// link is looked at every hundredth of a second. Without a counter there is a single reading.
    pub open spec fn link_wait(
        frequency: u64,
        timeout_ms: u64,
        start: u64,
        last_poll: Option<u64>,
        status: Result<LinkStatus, ()>,
        now: u64,
    ) -> LinkWait {
        let last = match last_poll {
            Some(last) => last,
            None => start,
        };
        if status is Err || frequency == 0 || (last_poll is Some && status->Ok_0.up()) {
            LinkWait::Done(status)
        } else if now.wrapping_sub(start) >= Self::link_timeout(frequency, timeout_ms) {
            LinkWait::Done(status)
        } else if now.wrapping_sub(last) < (if frequency / 100 < 1 {
            1
        } else {
            frequency / 100
        }) {
            LinkWait::Early
        } else {
            LinkWait::Look
        }
    }

    /// What a waiter for the link does next.
    pub fn wait_link_up(
        frequency: u64,
        timeout_ms: u64,
        start: u64,
        last_poll: Option<u64>,
        status: Result<LinkStatus, ()>,
        now: u64,
    ) -> (wait: LinkWait)
        ensures
            wait == Self::link_wait(frequency, timeout_ms, start, last_poll, status, now),
    {
        let link: LinkStatus = match status {
            Ok(link) => link,
            Err(()) => {
                return LinkWait::Done(status);
            },
        };
        if frequency == 0 || (last_poll.is_some() && link.is_up()) {
            return LinkWait::Done(status);
        }
        let interval: u64 = if frequency / 100 < 1 {
            1
        } else {
            frequency / 100
        };
        let timeout: u64 = match frequency.checked_mul(timeout_ms) {
            Some(product) => product / 1000,
            None => u64::MAX / 1000,
        };
        let last: u64 = match last_poll {
            Some(last) => last,
            None => start,
        };
        if now.wrapping_sub(start) >= timeout {
            LinkWait::Done(status)
        } else if now.wrapping_sub(last) < interval {
            LinkWait::Early
        } else {
            LinkWait::Look
        }
    }

    /// The speed and duplex that both sides have negotiated. Without an answer a register counts as
    /// zero.
    pub fn resolve_negotiated_speed(
        bmsr: u16,
        gtctl: u16,
        gtsr: u16,
        advertise: u16,
        lpa: u16,
    ) -> (mode: (u32, bool))
        ensures
            mode == negotiated(bmsr, gtctl, gtsr, advertise, lpa),
    {
        if bmsr & 0x20 == 0 {
            /* The negotiation is not over: the safest common denominator. */
            return (0, true);
        }
        if gtctl & 0x200 != 0 && gtsr & 0x800 != 0 {
            return (2, false);
        }
        if gtctl & 0x100 != 0 && gtsr & 0x400 != 0 {
            return (2, true);
        }
        let common: u16 = advertise & lpa;
        if common & 0x100 != 0 {
            return (1, false);
        }
        if common & 0x80 != 0 {
            return (1, true);
        }
        if common & 0x40 != 0 {
            return (0, false);
        }
        (0, true)
    }

    pub open spec fn write_op(&self, offset: u64, value: u32) -> IoOp {
        IoOp::Write { address: (self.base_address + offset) as u64, value }
    }

    pub open spec fn modify_op(&self, offset: u64, clear: u32, set: u32) -> IoOp {
        IoOp::Modify { address: (self.base_address + offset) as u64, clear, set }
    }

    fn write(&self, offset: u64, value: u32) -> (op: IoOp)
        requires
            self.wf(),
            offset < 0x1_0000,
        ensures
            op == self.write_op(offset, value),
    {
        IoOp::Write { address: self.base_address + offset, value }
    }

    fn modify(&self, offset: u64, clear: u32, set: u32) -> (op: IoOp)
        requires
            self.wf(),
            offset < 0x1_0000,
        ensures
            op == self.modify_op(offset, clear, set),
    {
        IoOp::Modify { address: self.base_address + offset, clear, set }
    }

    /// The MAC resets, is told the address that frames for this machine carry, the RGMII port is set
    /// up and the DMA is stopped. Then the RX ring is set up, as far as its producer index.
    pub open spec fn reset_ops(&self) -> Seq<IoOp> {
        seq![
            self.write_op(SYS_PORT_CTRL, 3),
            self.write_op(SYS_RBUF_FLUSH_CTRL, 0),
            self.write_op(UMAC_CMD, 0),
            self.write_op(UMAC_CMD, 0xA000),
            self.write_op(UMAC_CMD, 0),
            self.write_op(UMAC_MIB_CTRL, 7),
            self.write_op(UMAC_MIB_CTRL, 0),
            self.write_op(UMAC_MAX_FRAME_LEN, 1536),
            self.modify_op(RBUF_CTRL, 0, 2),
            self.write_op(RBUF_TBUF_SIZE_CTRL, 1),
            self.write_op(
                UMAC_MAC0,
                (self.mac[0] * 0x100_0000 + self.mac[1] * 0x1_0000 + self.mac[2] * 0x100
                    + self.mac[3]) as u32,
            ),
            self.write_op(UMAC_MAC1, (self.mac[4] * 0x100 + self.mac[5]) as u32),
            self.modify_op(EXT_RGMII_OOB_CTRL, 0x20, 0x1_0050),
            self.modify_op((TDMA_REG_BASE + 4) as u64, 1, 0),
            self.modify_op((RDMA_REG_BASE + 4) as u64, 1, 0),
            self.write_op(UMAC_TX_FLUSH, 1),
            self.write_op(UMAC_TX_FLUSH, 0),
            self.write_op((RDMA_REG_BASE + 0x0C) as u64, 8),
            self.write_op((RDMA_RING_REG_BASE + 0x14) as u64, 0),
            self.write_op(RDMA_READ_PTR, 0),
            self.write_op(RDMA_RING_REG_BASE, 0),
            self.write_op((RDMA_RING_REG_BASE + 0x1C) as u64, 767),
        ]
    }

    /// Starts to set up the data path. The producer index of the RX ring is read next.
    pub fn umac_reset(&self, ops: &mut Vec<IoOp>)
        requires
            self.wf(),
        ensures
            final(ops)@ == old(ops)@ + self.reset_ops(),
    {
        ops.push(self.write(SYS_PORT_CTRL, 3));
        ops.push(self.write(SYS_RBUF_FLUSH_CTRL, 0));
        ops.push(self.write(UMAC_CMD, 0));
        ops.push(self.write(UMAC_CMD, 0xA000));
        ops.push(self.write(UMAC_CMD, 0));
        ops.push(self.write(UMAC_MIB_CTRL, 7));
        ops.push(self.write(UMAC_MIB_CTRL, 0));
        ops.push(self.write(UMAC_MAX_FRAME_LEN, 1536));
        ops.push(self.modify(RBUF_CTRL, 0, 2));
        ops.push(self.write(RBUF_TBUF_SIZE_CTRL, 1));
        let mac0: u32 = self.mac[0] as u32 * 0x100_0000 + self.mac[1] as u32 * 0x1_0000
            + self.mac[2] as u32 * 0x100 + self.mac[3] as u32;
        let mac1: u32 = self.mac[4] as u32 * 0x100 + self.mac[5] as u32;
        ops.push(self.write(UMAC_MAC0, mac0));
        ops.push(self.write(UMAC_MAC1, mac1));
        ops.push(self.modify(EXT_RGMII_OOB_CTRL, 0x20, 0x1_0050));
        ops.push(self.modify(TDMA_REG_BASE + 4, 1, 0));
        ops.push(self.modify(RDMA_REG_BASE + 4, 1, 0));
        ops.push(self.write(UMAC_TX_FLUSH, 1));
        ops.push(self.write(UMAC_TX_FLUSH, 0));
        ops.push(self.write(RDMA_REG_BASE + 0x0C, 8));
        ops.push(self.write(RDMA_RING_REG_BASE + 0x14, 0));
        ops.push(self.write(RDMA_READ_PTR, 0));
        ops.push(self.write(RDMA_RING_REG_BASE, 0));
        ops.push(self.write(RDMA_RING_REG_BASE + 0x1C, 767));
        assert(ops@ =~= old(ops)@ + self.reset_ops());
    }

    /// Where the words of a descriptor are written.
    pub open spec fn descriptor_address(&self, ring: u64, index: int) -> int {
        self.base_address + ring + 12 * index
    }

    pub open spec fn descriptor_ops(
        &self,
        ring: u64,
        index: int,
        address: u64,
        length_status: u32,
    ) -> Seq<IoOp> {
        let base = self.descriptor_address(ring, index);
        seq![
            IoOp::Write {
                address: (base + 4) as u64,
                value: (address % 0x1_0000_0000) as u32,
            },
            IoOp::Write {
                address: (base + 8) as u64,
                value: (address / 0x1_0000_0000) as u32,
            },
            IoOp::Write { address: base as u64, value: length_status },
        ]
    }

    fn write_descriptor(
        &self,
        ring: u64,
        index: u64,
        address: u64,
        length_status: u32,
        ops: &mut Vec<IoOp>,
    )
        requires
            self.wf(),
            ring <= 0x4000,
            index < 256,
        ensures
            final(ops)@ == old(ops)@ + self.descriptor_ops(
                ring,
                index as int,
                address,
                length_status,
            ),
    {
        let base: u64 = self.base_address + ring + 12 * index;
        ops.push(
            IoOp::Write { address: base + 4, value: (address % 0x1_0000_0000) as u32 },
        );
        ops.push(
            IoOp::Write { address: base + 8, value: (address / 0x1_0000_0000) as u32 },
        );
        ops.push(IoOp::Write { address: base, value: length_status });
        assert(ops@ =~= old(ops)@ + self.descriptor_ops(
            ring,
            index as int,
            address,
            length_status,
        ));
    }

    /// The first `n` RX descriptors belong to the controller.
    pub open spec fn rx_descriptor_ops(&self, n: nat) -> Seq<IoOp>
        decreases n,
    {
        if n == 0 {
            Seq::empty()
        } else {
            let i = n - 1;
            let buffer = (self.rx_buffers + i * 2048) as u64;
            self.rx_descriptor_ops(i as nat) + self.descriptor_ops(
                GENET_RX_OFF,
                i,
                buffer,
                RX_DESCRIPTOR_STATUS,
            ) + seq![IoOp::Clean { address: buffer, size: 2048 }]
        }
    }

    fn rx_descs_init(&self, ops: &mut Vec<IoOp>)
        requires
            self.wf(),
        ensures
            final(ops)@ == old(ops)@ + self.rx_descriptor_ops(256),
    {
        let ghost first = ops@;
        let mut i: u64 = 0;
        assert(first + self.rx_descriptor_ops(0) =~= first);
        while i < NUMBER_OF_DESCRIPTORS
            invariant
                i <= 256,
                self.wf(),
                first == old(ops)@,
                ops@ == first + self.rx_descriptor_ops(i as nat),
            decreases 256 - i,
        {
            let buffer: u64 = self.rx_buffers + i * RX_BUFFER_LENGTH;
            self.write_descriptor(GENET_RX_OFF, i, buffer, RX_DESCRIPTOR_STATUS, ops);
            ops.push(IoOp::Clean { address: buffer, size: RX_BUFFER_LENGTH });
            i = i + 1;
            assert(ops@ =~= first + self.rx_descriptor_ops(i as nat));
        }
    }

    /// The RX ring starts where the controller is; the TX ring is set up as far as its consumer
    /// index.
    pub open spec fn rx_ring_ops(&self, c_index: u16) -> Seq<IoOp> {
        seq![
            self.write_op(RDMA_CONS_INDEX, c_index as u32),
            self.write_op((RDMA_RING_REG_BASE + 0x10) as u64, 0x100_0800),
            self.write_op(RDMA_XON_XOFF_THRESH, 0x5_0010),
            self.write_op(RDMA_REG_BASE, 0x1_0000),
        ] + self.rx_descriptor_ops(256) + seq![
            self.write_op((TDMA_REG_BASE + 0x0C) as u64, 8),
            self.write_op((TDMA_RING_REG_BASE + 0x14) as u64, 0),
            self.write_op(TDMA_RING_REG_BASE, 0),
            self.write_op(TDMA_WRITE_PTR, 0),
            self.write_op((TDMA_RING_REG_BASE + 0x1C) as u64, 767),
        ]
    }

    /// Sets up the RX ring from its producer index. The consumer index of the TX ring is read next.
    pub fn rx_ring_init(&mut self, producer_index: u32, ops: &mut Vec<IoOp>)
        requires
            old(self).wf(),
        ensures
            final(self).wf(),
            ({
                let c_index = (producer_index % 0x1_0000) as u16;
                &&& *final(self) == (Genet {
                    c_index,
                    rx_index: (c_index % 256) as u16,
                    ..*old(self)
                })
                &&& final(ops)@ == old(ops)@ + old(self).rx_ring_ops(c_index)
            }),
    {
        self.c_index = (producer_index % 0x1_0000) as u16;
        self.rx_index = self.c_index % 256;
        ops.push(self.write(RDMA_CONS_INDEX, self.c_index as u32));
        ops.push(self.write(RDMA_RING_REG_BASE + 0x10, 0x100_0800));
        ops.push(self.write(RDMA_XON_XOFF_THRESH, 0x5_0010));
        ops.push(self.write(RDMA_REG_BASE, 0x1_0000));
        self.rx_descs_init(ops);
        ops.push(self.write(TDMA_REG_BASE + 0x0C, 8));
        ops.push(self.write(TDMA_RING_REG_BASE + 0x14, 0));
        ops.push(self.write(TDMA_RING_REG_BASE, 0));
        ops.push(self.write(TDMA_WRITE_PTR, 0));
        ops.push(self.write(TDMA_RING_REG_BASE + 0x1C, 767));
        proof {
            self.lemma_same_descriptors(*old(self), 256);
            assert(ops@ =~= old(ops)@ + old(self).rx_ring_ops(self.c_index));
        }
    }

    /// The RX descriptors depend on where the controller and the buffers are, and nothing else.
    proof fn lemma_same_descriptors(self, other: Self, n: nat)
        requires
            self.base_address == other.base_address,
            self.rx_buffers == other.rx_buffers,
        ensures
            self.rx_descriptor_ops(n) == other.rx_descriptor_ops(n),
        decreases n,
    {
        if n > 0 {
            self.lemma_same_descriptors(other, (n - 1) as nat);
        }
    }

    /// The TX ring starts where the controller is, and the DMA is started.
    pub open spec fn tx_ring_ops(&self, consumer_index: u32) -> Seq<IoOp> {
        seq![
            self.write_op(TDMA_PROD_INDEX, (consumer_index % 0x1_0000) as u32),
            self.write_op(TDMA_MBUF_DONE_THRESH, 1),
            self.write_op(TDMA_FLOW_PERIOD, 0),
            self.write_op((TDMA_RING_REG_BASE + 0x10) as u64, 0x100_0800),
            self.write_op(TDMA_REG_BASE, 0x1_0000),
            self.write_op((TDMA_REG_BASE + 4) as u64, 0x2_0001),
            self.write_op((RDMA_REG_BASE + 4) as u64, 0x2_0001),
        ]
    }

    /// Sets up the TX ring from its consumer index, and starts the DMA.
    pub fn tx_ring_init(&mut self, consumer_index: u32, ops: &mut Vec<IoOp>)
        requires
            old(self).wf(),
        ensures
            final(self).wf(),
            *final(self) == (Genet {
                tx_index: (consumer_index as int % 256) as u16,
                ..*old(self)
            }),
            final(ops)@ == old(ops)@ + old(self).tx_ring_ops(consumer_index),
    {
        let index: u32 = consumer_index % 0x1_0000;
        self.tx_index = (index % 256) as u16;
        ops.push(self.write(TDMA_PROD_INDEX, index));
        ops.push(self.write(TDMA_MBUF_DONE_THRESH, 1));
        ops.push(self.write(TDMA_FLOW_PERIOD, 0));
        ops.push(self.write(TDMA_RING_REG_BASE + 0x10, 0x100_0800));
        ops.push(self.write(TDMA_REG_BASE, 0x1_0000));
        ops.push(self.write(TDMA_REG_BASE + 4, 0x2_0001));
        ops.push(self.write(RDMA_REG_BASE + 4, 0x2_0001));
        assert(ops@ =~= old(ops)@ + old(self).tx_ring_ops(consumer_index));
    }

    /// Enables reception and transmission in the mode that was negotiated. The data path is ready
    /// then.
    pub fn enable_rx_tx(&mut self, speed: u32, half_duplex: bool, ops: &mut Vec<IoOp>)
        requires
            old(self).wf(),
            speed < 3,
        ensures
            final(self).wf(),
            *final(self) == (Genet { data_path_ready: true, ..*old(self) }),
            ({
                let command = 4 * speed + if half_duplex {
                    0x400int
                } else {
                    0
                };
                final(ops)@ == old(ops)@ + seq![
                    old(self).write_op(UMAC_CMD, command as u32),
                    old(self).write_op(UMAC_CMD, (command + 3) as u32),
                ]
            }),
    {
        let mut command: u32 = speed * 4;
        if half_duplex {
            command = command + 0x400;
        }
        let first: IoOp = self.write(UMAC_CMD, command);
        let second: IoOp = self.write(UMAC_CMD, command + 3);
        ops.push(first);
        ops.push(second);
        self.data_path_ready = true;
        assert(ops@ =~= old(ops)@ + seq![first, second]);
    }

    /// The length of a frame that is sent whole, with a checksum.
    pub open spec fn tx_status(length: u64) -> u32 {
        ((length % 0x1_0000) * 0x1_0000 + 0x7FC0) as u32
    }

    /// Puts a frame on the TX ring. The producer index is read next.
    pub fn send(&mut self, buffer_address: u64, length: u64, ops: &mut Vec<IoOp>)
        requires
            old(self).wf(),
        ensures
            final(self).wf(),
            *final(self) == (Genet { tx_index: next_index(old(self).tx_index), ..*old(self) }),
            final(ops)@ == old(ops)@ + (seq![
                IoOp::Clean { address: buffer_address, size: length },
            ] + old(self).descriptor_ops(
                GENET_TX_OFF,
                old(self).tx_index as int,
                buffer_address,
                Self::tx_status(length),
            )),
    {
        ops.push(IoOp::Clean { address: buffer_address, size: length });
        self.write_descriptor(
            GENET_TX_OFF,
            self.tx_index as u64,
            buffer_address,
            ((length % 0x1_0000) * 0x1_0000 + 0x7FC0) as u32,
            ops,
        );
        assert(ops@ =~= old(ops)@ + (seq![IoOp::Clean { address: buffer_address, size: length }]
            + old(self).descriptor_ops(
            GENET_TX_OFF,
            old(self).tx_index as int,
            buffer_address,
            Self::tx_status(length),
        )));
        self.tx_index = self.tx_index.wrapping_add(1);
        if self.tx_index as u64 >= NUMBER_OF_DESCRIPTORS {
            self.tx_index = 0;
        }
    }

    /// What the producer index becomes, so that the controller sends the frame.
    pub fn submit_frame(&self, producer_index: u32, ops: &mut Vec<IoOp>) -> (target: u32)
        requires
            self.wf(),
        ensures
            target == producer_index % 0x1_0000 + 1,
            final(ops)@ == old(ops)@.push(self.write_op(TDMA_PROD_INDEX, target)),
    {
        let target: u32 = producer_index % 0x1_0000 + 1;
        ops.push(self.write(TDMA_PROD_INDEX, target));
        target
    }

    /// Whether the controller has sent the frame, from its consumer index.
    pub fn poll_sent(consumer_index: u32, target: u32, tries: u32) -> (poll: Poll<()>)
        ensures
            poll == if consumer_index % 0x1_0000 >= target {
                Poll::<()>::Ready(())
            } else if tries + 1 >= 1_000_000 {
                Poll::Failed
            } else {
                Poll::Again
            },
    {
        if consumer_index % 0x1_0000 >= target {
            Poll::Ready(())
        } else if tries >= DMA_POLL_TIMEOUT - 1 {
            Poll::Failed
        } else {
            Poll::Again
        }
    }

    /// Where the next RX descriptor is, given the producer index of the RX ring. `None` where nothing
    /// has arrived.
    pub open spec fn next_rx(&self, producer_index: u32) -> Option<int> {
        let producer = (producer_index % 0x1_0000) as u32;
        if !self.data_path_ready || producer == self.c_index || producer.wrapping_sub(
            self.c_index as u32,
        ) > 256 {
            None
        } else {
            Some(self.descriptor_address(GENET_RX_OFF, self.rx_index as int))
        }
    }

    pub fn next_rx_descriptor(&self, producer_index: u32) -> (descriptor: Option<u64>)
        requires
            self.wf(),
        ensures
            match self.next_rx(producer_index) {
                Some(address) => descriptor matches Some(found) && found == address,
                None => descriptor is None,
            },
    {
        if !self.data_path_ready {
            return None;
        }
        let producer: u32 = producer_index % 0x1_0000;
        if producer == self.c_index as u32 {
            return None;
        }
        if producer.wrapping_sub(self.c_index as u32) > NUMBER_OF_DESCRIPTORS as u32 {
            return None;
        }
        Some(self.base_address + GENET_RX_OFF + 12 * (self.rx_index as u64))
    }

    /// The length of the packet in an RX descriptor, from its first word. `None` where the descriptor
    /// still belongs to the controller, or the length is none.
    pub open spec fn packet_length(length_status: u32) -> Option<u64> {
        let length = (length_status as int / 0x1_0000) % 0x1000;
        if (length_status as int / 0x8000) % 2 == 1 || length == 0 || length > 2048 {
            None
        } else {
            Some(length as u64)
        }
    }

    pub fn rx_length(length_status: u32) -> (length: Option<u64>)
        ensures
            length == Self::packet_length(length_status),
    {
        if (length_status / 0x8000) % 2 == 1 {
            return None;
        }
        let length: u64 = ((length_status / 0x1_0000) % 0x1000) as u64;
        if length == 0 || length > RX_BUFFER_LENGTH {
            return None;
        }
        Some(length)
    }

    /// How many bytes of a packet of `total_length` bytes go to a buffer of `capacity` bytes.
    pub open spec fn copied_length(total_length: u64, capacity: u64) -> int {
        let data = if total_length < 2 {
            0int
        } else {
            total_length - 2
        };
        if data < capacity {
            data
        } else {
            capacity as int
        }
    }

    /// Takes the packet at `packet_address`: where its data is and how many bytes go to a buffer of
    /// `capacity` bytes. The packet is invalidated in the cache and copied before the accesses in
    /// `ops`, which hand the descriptor back, are made.
    pub fn poll_rx(
        &mut self,
        packet_address: u64,
        total_length: u64,
        capacity: u64,
        ops: &mut Vec<IoOp>,
    ) -> (packet: (IoOp, u64, u64))
        requires
            old(self).wf(),
            packet_address + 2 <= u64::MAX,
        ensures
            final(self).wf(),
            packet.0 == (IoOp::Invalidate { address: packet_address, size: total_length }),
            packet.1 == packet_address + 2,
            packet.2 == Self::copied_length(total_length, capacity),
            ({
                let c_index = old(self).c_index.wrapping_add(1);
                &&& *final(self) == (Genet {
                    c_index,
                    rx_index: next_index(old(self).rx_index),
                    ..*old(self)
                })
                &&& final(ops)@ == old(ops)@ + seq![
                    IoOp::Write {
                        address: old(self).descriptor_address(
                            GENET_RX_OFF,
                            old(self).rx_index as int,
                        ) as u64,
                        value: RX_DESCRIPTOR_STATUS,
                    },
                    old(self).write_op(RDMA_CONS_INDEX, c_index as u32),
                ]
            }),
    {
        let ghost before = *self;
        let data: u64 = total_length.saturating_sub(RX_BUF_OFFSET);
        let length: u64 = if data < capacity {
            data
        } else {
            capacity
        };
        let descriptor: u64 = self.base_address + GENET_RX_OFF + 12 * (self.rx_index as u64);
        ops.push(IoOp::Write { address: descriptor, value: RX_DESCRIPTOR_STATUS });
        self.c_index = self.c_index.wrapping_add(1);
        ops.push(self.write(RDMA_CONS_INDEX, self.c_index as u32));
        self.rx_index = self.rx_index.wrapping_add(1);
        if self.rx_index as u64 >= NUMBER_OF_DESCRIPTORS {
            self.rx_index = 0;
        }
        assert(ops@ =~= old(ops)@ + seq![
            IoOp::Write { address: descriptor, value: RX_DESCRIPTOR_STATUS },
            before.write_op(RDMA_CONS_INDEX, self.c_index as u32),
        ]);
        (
            IoOp::Invalidate { address: packet_address, size: total_length },
            packet_address + RX_BUF_OFFSET,
            length,
        )
    }
}

/// Every PHY address is tried exactly once.
pub proof fn every_phy_is_tried_once(address: int)
    requires
        0 <= address < 32,
    ensures
        exists|n: int| 0 <= n < 32 && #[trigger] phy_candidate(n) == address,
        forall|n: int, m: int|
            0 <= n < 32 && 0 <= m < 32 && #[trigger] phy_candidate(n) == address
                && #[trigger] phy_candidate(m) == address ==> n == m,
{
    let n = if address == 1 {
        0
    } else if address == 0 {
        1
    } else {
        address
    };
    assert(phy_candidate(n) == address);
}

/// A MAC address reads back from the registers that it was written to.
pub proof fn mac_reads_back(mac: Seq<u8>)
    requires
        mac.len() == 6,
    ensures
        mac_of(
            (mac[0] * 0x100_0000 + mac[1] * 0x1_0000 + mac[2] * 0x100 + mac[3]) as u32,
            (mac[4] * 0x100 + mac[5]) as u32,
        ) == mac,
{
    let mac0 = mac[0] * 0x100_0000 + mac[1] * 0x1_0000 + mac[2] * 0x100 + mac[3];
    let mac1 = mac[4] * 0x100 + mac[5];
    lemma_bytes(mac[0] as int, mac[1] as int, mac[2] as int, mac[3] as int);
    lemma_bytes(0, 0, mac[4] as int, mac[5] as int);
    assert(mac_of(mac0 as u32, mac1 as u32) =~= mac);
}

/// The bytes of a word.
proof fn lemma_bytes(a: int, b: int, c: int, d: int)
    requires
        0 <= a < 0x100,
        0 <= b < 0x100,
        0 <= c < 0x100,
        0 <= d < 0x100,
    ensures
        ({
            let word = a * 0x100_0000 + b * 0x1_0000 + c * 0x100 + d;
            &&& 0 <= word < 0x1_0000_0000
            &&& word / 0x100_0000 == a
            &&& (word / 0x1_0000) % 0x100 == b
            &&& (word / 0x100) % 0x100 == c
            &&& word % 0x100 == d
        }),
{
    let word = a * 0x100_0000 + b * 0x1_0000 + c * 0x100 + d;
    assert(word / 0x100 == a * 0x1_0000 + b * 0x100 + c);
    assert(word / 0x1_0000 == a * 0x100 + b);
}

/// A wait for the link fails if and only if a reading of the status failed. It gives a link that is
/// down only where the time is over or there is no counter, and without a counter it ends with the
/// first reading.
pub proof fn link_wait_ends_with_its_last_reading(
    frequency: u64,
    timeout_ms: u64,
    start: u64,
    last_poll: Option<u64>,
    status: Result<LinkStatus, ()>,
    now: u64,
)
    ensures
        ({
            let wait = Genet::link_wait(frequency, timeout_ms, start, last_poll, status, now);
            &&& status is Err ==> wait == LinkWait::Done(status)
            &&& frequency == 0 ==> wait == LinkWait::Done(status)
            &&& wait matches LinkWait::Done(result) ==> {
                &&& result == status
                &&& frequency != 0 && result is Ok && !result->Ok_0.up() ==> now.wrapping_sub(start)
                    >= Genet::link_timeout(frequency, timeout_ms)
            }
        }),
{
}

} // verus!
