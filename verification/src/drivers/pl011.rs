//! Arm PL011 device driver.

use crate::dma::IoOp;
use vstd::prelude::*;

verus! {

pub const UART_DR: u64 = 0x000;

pub const UART_FR: u64 = 0x018;

pub const UART_CR: u64 = 0x030;

pub const UART_IFLS: u64 = 0x034;

pub const UART_IMSC: u64 = 0x038;

pub const UART_ICR: u64 = 0x044;

/// What the driver touches: up to its highest register, which has 16 bits.
pub const UART_SIZE: u64 = 0x046;

#[derive(Clone, Copy, PartialEq, Eq, Debug, Structural)]
pub struct Pl011 {
    pub base_address: u64,
}

/// What console output has cost so far, in ticks of the system counter.
#[derive(Clone, Copy, PartialEq, Eq, Debug, Structural)]
pub struct PutcCounters {
    pub count: u64,
    pub cycles: u64,
}

impl PutcCounters {
    pub fn new() -> (counters: Self)
        ensures
            counters == (PutcCounters { count: 0, cycles: 0 }),
    {
        Self { count: 0, cycles: 0 }
    }

    /// A character was put out between the two counter values.
    pub fn record(&mut self, start: u64, end: u64)
        ensures
            *final(self) == (PutcCounters {
                count: old(self).count.wrapping_add(1),
                cycles: old(self).cycles.wrapping_add(end.wrapping_sub(start)),
            }),
    {
        self.count = self.count.wrapping_add(1);
        self.cycles = self.cycles.wrapping_add(end.wrapping_sub(start));
    }
}

impl Pl011 {
    pub open spec fn wf(self) -> bool {
        self.base_address + 0x100 <= u64::MAX
    }

    pub fn invalid() -> (pl011: Self)
        ensures
            pl011 == (Pl011 { base_address: 0 }),
    {
        Self { base_address: 0 }
    }

    /// `Err` where the registers are not all there.
    pub fn new(base_address: u64, range: u64) -> (result: Result<Self, ()>)
        ensures
            result == if range < 0x46 {
                Err::<Self, ()>(())
            } else {
                Ok(Pl011 { base_address })
            },
    {
        if range < UART_SIZE {
            return Err(());
        }
        Ok(Self { base_address })
    }

    /// Where the flag register is.
    pub fn flag_address(&self) -> (address: u64)
        requires
            self.wf(),
        ensures
            address == self.base_address + 0x18,
    {
        self.base_address + UART_FR
    }

    /// Where the data register is.
    pub fn data_address(&self) -> (address: u64)
        requires
            self.wf(),
        ensures
            address == self.base_address,
    {
        self.base_address + UART_DR
    }

    pub fn is_tx_fifo_full(flags: u16) -> (full: bool)
        ensures
            full == ((flags as int / 0x20) % 2 == 1),
    {
        (flags / 0x20) % 2 == 1
    }

    pub fn is_rx_fifo_empty(flags: u16) -> (empty: bool)
        ensures
            empty == ((flags as int / 0x10) % 2 == 1),
    {
        (flags / 0x10) % 2 == 1
    }

    pub open spec fn clear_op(self) -> IoOp {
        IoOp::Write16 { address: (self.base_address + UART_ICR) as u64, value: 0x50 }
    }

    /// The accesses that enable the receive interrupts: reception and transmission are on, the
    /// receive interrupt comes at an eighth of the FIFO, and what was pending is dropped. The receive
    /// timeout covers a single character.
    pub open spec fn enable_ops(self) -> Seq<IoOp> {
        seq![
            IoOp::Modify16 { address: (self.base_address + UART_CR) as u64, clear: 0, set: 0x301 },
            IoOp::Modify16 {
                address: (self.base_address + UART_IFLS) as u64,
                clear: 0x38,
                set: 0,
            },
            self.clear_op(),
            IoOp::Modify16 { address: (self.base_address + UART_IMSC) as u64, clear: 0, set: 0x50 },
        ]
    }

    pub fn enable_interrupt(&self) -> (ops: Vec<IoOp>)
        requires
            self.wf(),
        ensures
            ops@ == self.enable_ops(),
    {
        let mut ops: Vec<IoOp> = Vec::new();
        ops.push(IoOp::Modify16 { address: self.base_address + UART_CR, clear: 0, set: 0x301 });
        ops.push(IoOp::Modify16 { address: self.base_address + UART_IFLS, clear: 0x38, set: 0 });
        ops.push(self.clear_rx_interrupt());
        ops.push(IoOp::Modify16 { address: self.base_address + UART_IMSC, clear: 0, set: 0x50 });
        assert(ops@ =~= self.enable_ops());
        ops
    }

    /// Acknowledges the receive and the receive timeout interrupt.
    pub fn clear_rx_interrupt(&self) -> (op: IoOp)
        requires
            self.wf(),
        ensures
            op == self.clear_op(),
    {
        IoOp::Write16 { address: self.base_address + UART_ICR, value: 0x50 }
    }
}

} // verus!
