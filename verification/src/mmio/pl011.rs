//! PL011 UART MMIO emulation.

use crate::mmio::gicv2::GicDistributorMmio;
use crate::vgic::CpuInterface;
use vstd::prelude::*;

verus! {

pub const UART_DR: usize = 0x000;

pub const UART_RSR_ECR: usize = 0x004;

pub const UART_FR: usize = 0x018;

pub const UART_ILPR: usize = 0x020;

pub const UART_IBRD: usize = 0x024;

pub const UART_FBRD: usize = 0x028;

pub const UART_LCR_H: usize = 0x02C;

pub const UART_CR: usize = 0x030;

pub const UART_IFLS: usize = 0x034;

pub const UART_IMSC: usize = 0x038;

pub const UART_RIS: usize = 0x03C;

pub const UART_MIS: usize = 0x040;

pub const UART_ICR: usize = 0x044;

pub const UART_DMACR: usize = 0x048;

pub const UART_PERIPH_ID0: usize = 0xFE0;

pub const UART_PERIPH_ID1: usize = 0xFE4;

pub const UART_PERIPH_ID2: usize = 0xFE8;

pub const UART_PERIPH_ID3: usize = 0xFEC;

pub const UART_PCELL_ID0: usize = 0xFF0;

pub const UART_PCELL_ID1: usize = 0xFF4;

pub const UART_PCELL_ID2: usize = 0xFF8;

pub const UART_PCELL_ID3: usize = 0xFFC;

/// Bit indicating whether the RX FIFO is empty.
pub const UART_FR_RXFE: u16 = 0x10;

/// Bit indicating whether the RX FIFO is full.
pub const UART_FR_RXFF: u16 = 0x40;

/// Bit indicating whether the receive interrupt is enabled.
pub const UART_IMSC_RXIM: u16 = 0x10;

/// Bit indicating whether a receive interrupt has occurred.
pub const UART_RIS_RXRIS: u16 = 0x10;

/// PL011's virtual interrupt number.
pub const PL011_INT_ID: u32 = 33;

/// Depth of the emulated RX FIFO. A real PL011 has a 16-byte FIFO; a much deeper one makes fast
/// input reliable.
pub const RX_FIFO_SIZE: usize = 256;

pub struct Pl011Mmio {
    pub flag: u16,
    pub interrupt_mask: u16,
    pub raw_interrupt_status: u16,
    pub control: u16,
    /* RX FIFO as a ring buffer: `rx_fifo_head` indexes the oldest buffered byte and `rx_fifo_len`
     * counts buffered bytes. */
    pub rx_fifo: [u8; 256],
    pub rx_fifo_head: usize,
    pub rx_fifo_len: usize,
    /* The following registers have no effect here, but the guest's driver reads back what it
     * wrote. */
    pub irda_low_power_counter: u16,
    pub integer_baud_rate_divisor: u16,
    pub fractional_baud_rate_divisor: u16,
    pub line_control: u16,
    pub interrupt_fifo_level_select: u16,
    pub dma_control: u16,
}

/// The UART as the guest sees it.
#[verifier::ext_equal]
pub struct Uart {
    /// The bytes that were received and not yet read.
    pub fifo: Seq<u8>,
    pub interrupt_mask: u16,
    pub raw_interrupt_status: u16,
    pub control: u16,
    pub irda_low_power_counter: u16,
    pub integer_baud_rate_divisor: u16,
    pub fractional_baud_rate_divisor: u16,
    pub line_control: u16,
    pub interrupt_fifo_level_select: u16,
    pub dma_control: u16,
}

impl Uart {
    pub open spec fn reset() -> Uart {
        Uart {
            fifo: Seq::empty(),
            interrupt_mask: 0,
            raw_interrupt_status: 0,
            control: 0,
            irda_low_power_counter: 0,
            integer_baud_rate_divisor: 0,
            fractional_baud_rate_divisor: 0,
            line_control: 0,
            interrupt_fifo_level_select: 0,
            dma_control: 0,
        }
    }

    /// The flag register: whether the FIFO is empty or full.
    pub open spec fn flag(self) -> u16 {
        if self.fifo.len() == 0 {
            0x10
        } else if self.fifo.len() == 256 {
            0x40
        } else {
            0
        }
    }

    /// The UART raises an interrupt when it receives a byte.
    pub open spec fn interrupts(self) -> bool {
        self.fifo.len() < 256 && self.interrupt_mask & 0x10 != 0
    }

    /// The UART once a byte arrived. A full FIFO drops it.
    pub open spec fn received(self, data: u8) -> Uart {
        if self.fifo.len() == 256 {
            self
        } else {
            Uart {
                fifo: self.fifo.push(data),
                raw_interrupt_status: if self.interrupts() {
                    self.raw_interrupt_status | 0x10
                } else {
                    self.raw_interrupt_status
                },
                ..self
            }
        }
    }

    /// What the guest reads at `offset`.
    pub open spec fn read_value(self, offset: int) -> u64 {
        if offset == UART_DR {
            if self.fifo.len() == 0 {
                0
            } else {
                self.fifo[0] as u64
            }
        } else if offset == UART_FR {
            self.flag() as u64
        } else if offset == UART_CR {
            self.control as u64
        } else if offset == UART_IMSC {
            self.interrupt_mask as u64
        } else if offset == UART_RIS {
            self.raw_interrupt_status as u64
        } else if offset == UART_MIS {
            (self.raw_interrupt_status & self.interrupt_mask) as u64
        } else if offset == UART_ILPR {
            self.irda_low_power_counter as u64
        } else if offset == UART_IBRD {
            self.integer_baud_rate_divisor as u64
        } else if offset == UART_FBRD {
            self.fractional_baud_rate_divisor as u64
        } else if offset == UART_LCR_H {
            self.line_control as u64
        } else if offset == UART_IFLS {
            self.interrupt_fifo_level_select as u64
        } else if offset == UART_DMACR {
            self.dma_control as u64
        } else if offset == UART_PERIPH_ID0 {
            0x11
        } else if offset == UART_PERIPH_ID1 {
            0x10
        } else if offset == UART_PERIPH_ID2 {
            0x34
        } else if offset == UART_PCELL_ID0 {
            0x0D
        } else if offset == UART_PCELL_ID1 {
            0xF0
        } else if offset == UART_PCELL_ID2 {
            0x05
        } else if offset == UART_PCELL_ID3 {
            0xB1
        } else {
            0
        }
    }

    /// The UART once the guest has read at `offset`: the data register gives out a byte. With the
    /// last one the receive interrupt goes.
    pub open spec fn after_read(self, offset: int) -> Uart {
        if offset == UART_DR && self.fifo.len() > 0 {
            Uart {
                fifo: self.fifo.drop_first(),
                raw_interrupt_status: if self.fifo.len() == 1 {
                    self.raw_interrupt_status & !0x10u16
                } else {
                    self.raw_interrupt_status
                },
                ..self
            }
        } else {
            self
        }
    }

    /// The UART once the guest has written `value` at `offset`.
    pub open spec fn written(self, offset: int, value: u64) -> Uart {
        let half = #[verifier::truncate] (value as u16);
        if offset == UART_CR {
            Uart { control: half, ..self }
        } else if offset == UART_IMSC {
            Uart { interrupt_mask: half, ..self }
        } else if offset == UART_ICR {
            Uart { raw_interrupt_status: self.raw_interrupt_status & !half, ..self }
        } else if offset == UART_ILPR {
            Uart { irda_low_power_counter: half, ..self }
        } else if offset == UART_IBRD {
            Uart { integer_baud_rate_divisor: half, ..self }
        } else if offset == UART_FBRD {
            Uart { fractional_baud_rate_divisor: half, ..self }
        } else if offset == UART_LCR_H {
            Uart { line_control: half, ..self }
        } else if offset == UART_IFLS {
            Uart { interrupt_fifo_level_select: half, ..self }
        } else if offset == UART_DMACR {
            Uart { dma_control: half, ..self }
        } else {
            self
        }
    }
}

impl Pl011Mmio {
    pub open spec fn view(&self) -> Uart {
        Uart {
            fifo: Seq::new(
                self.rx_fifo_len as nat,
                |i: int| self.rx_fifo@[(self.rx_fifo_head + i) % 256],
            ),
            interrupt_mask: self.interrupt_mask,
            raw_interrupt_status: self.raw_interrupt_status,
            control: self.control,
            irda_low_power_counter: self.irda_low_power_counter,
            integer_baud_rate_divisor: self.integer_baud_rate_divisor,
            fractional_baud_rate_divisor: self.fractional_baud_rate_divisor,
            line_control: self.line_control,
            interrupt_fifo_level_select: self.interrupt_fifo_level_select,
            dma_control: self.dma_control,
        }
    }

    /// The ring buffer is inside its bounds, and the flags say whether it is empty or full.
    pub open spec fn wf(&self) -> bool {
        &&& self.rx_fifo_head < 256
        &&& self.rx_fifo_len <= 256
        &&& self.flag == self@.flag()
    }

    pub fn new() -> (uart: Self)
        ensures
            uart.wf(),
            uart@ == Uart::reset(),
    {
        let uart = Self {
            flag: UART_FR_RXFE,
            interrupt_mask: 0,
            raw_interrupt_status: 0,
            control: 0,
            rx_fifo: [0; 256],
            rx_fifo_head: 0,
            rx_fifo_len: 0,
            irda_low_power_counter: 0,
            integer_baud_rate_divisor: 0,
            fractional_baud_rate_divisor: 0,
            line_control: 0,
            interrupt_fifo_level_select: 0,
            dma_control: 0,
        };
        assert(uart@ =~= Uart::reset());
        uart
    }

    /// A byte arrives.
    pub fn push(&mut self, data: u8, distributor: &mut GicDistributorMmio, cpu: &mut CpuInterface)
        requires
            old(self).wf(),
        ensures
            final(self).wf(),
            final(self)@ == old(self)@.received(data),
            (final(distributor)@, final(cpu)@) == if old(self)@.interrupts() {
                let after = old(distributor)@.triggered(
                    old(cpu)@,
                    33,
                    None,
                    old(distributor).own_target,
                    0,
                    false,
                );
                (after.0, after.1)
            } else {
                (old(distributor)@, old(cpu)@)
            },
    {
        if self.rx_fifo_len == RX_FIFO_SIZE {
            return;
        }
        let tail: usize = (self.rx_fifo_head + self.rx_fifo_len) % RX_FIFO_SIZE;
        self.rx_fifo[tail] = data;
        self.rx_fifo_len = self.rx_fifo_len + 1;
        self.flag = self.flag & !UART_FR_RXFE;
        if self.rx_fifo_len == RX_FIFO_SIZE {
            self.flag = self.flag | UART_FR_RXFF;
        }
        proof {
            lemma_flags();
            assert forall|i: int| 0 <= i < old(self).rx_fifo_len implies #[trigger] self@.fifo[i]
                == old(self)@.fifo[i] by {
                assert((old(self).rx_fifo_head + i) % 256 != tail);
            }
            assert(self@.fifo =~= old(self)@.fifo.push(data));
        }
        if (self.interrupt_mask & UART_IMSC_RXIM) != 0 {
            self.raw_interrupt_status = self.raw_interrupt_status | UART_RIS_RXRIS;
            let _ = distributor.trigger_interrupt(cpu, PL011_INT_ID, None);
        }
        assert(self@ =~= old(self)@.received(data));
    }

    /// Handles a read of the guest.
    pub fn read(&mut self, offset: usize, _access_width: u64) -> (result: Result<u64, ()>)
        requires
            old(self).wf(),
        ensures
            final(self).wf(),
            result == Ok::<u64, ()>(old(self)@.read_value(offset as int)),
            final(self)@ == old(self)@.after_read(offset as int),
    {
        let value: u64 = if offset == UART_DR {
            if self.rx_fifo_len == 0 {
                0
            } else {
                let data: u8 = self.rx_fifo[self.rx_fifo_head];
                self.rx_fifo_head = (self.rx_fifo_head + 1) % RX_FIFO_SIZE;
                self.rx_fifo_len = self.rx_fifo_len - 1;
                self.flag = self.flag & !UART_FR_RXFF;
                if self.rx_fifo_len == 0 {
                    self.flag = self.flag | UART_FR_RXFE;
                    self.raw_interrupt_status = self.raw_interrupt_status & !UART_RIS_RXRIS;
                }
                proof {
                    lemma_flags();
                    assert(self@.fifo =~= old(self)@.fifo.drop_first());
                }
                data as u64
            }
        } else if offset == UART_FR {
            self.flag as u64
        } else if offset == UART_CR {
            self.control as u64
        } else if offset == UART_IMSC {
            self.interrupt_mask as u64
        } else if offset == UART_RIS {
            self.raw_interrupt_status as u64
        } else if offset == UART_MIS {
            /* The guest's interrupt handler reads this to decide which sources to service. */
            (self.raw_interrupt_status & self.interrupt_mask) as u64
        } else if offset == UART_ILPR {
            self.irda_low_power_counter as u64
        } else if offset == UART_IBRD {
            self.integer_baud_rate_divisor as u64
        } else if offset == UART_FBRD {
            self.fractional_baud_rate_divisor as u64
        } else if offset == UART_LCR_H {
            self.line_control as u64
        } else if offset == UART_IFLS {
            self.interrupt_fifo_level_select as u64
        } else if offset == UART_DMACR {
            self.dma_control as u64
        } else if offset == UART_PERIPH_ID0 {
            0x11
        } else if offset == UART_PERIPH_ID1 {
            0x10
        } else if offset == UART_PERIPH_ID2 {
            0x34
        } else if offset == UART_PCELL_ID0 {
            0x0D
        } else if offset == UART_PCELL_ID1 {
            0xF0
        } else if offset == UART_PCELL_ID2 {
            0x05
        } else if offset == UART_PCELL_ID3 {
            0xB1
        } else {
            0
        };
        Ok(value)
    }

    /// Handles a write of the guest. A byte that is written to the data register has to be put
    /// out.
    pub fn write(&mut self, offset: usize, _access_width: u64, value: u64) -> (result: Result<
        Option<u8>,
        (),
    >)
        requires
            old(self).wf(),
        ensures
            final(self).wf(),
            final(self)@ == old(self)@.written(offset as int, value),
            result == Ok::<Option<u8>, ()>(
                if offset == UART_DR {
                    Some(#[verifier::truncate] (value as u8))
                } else {
                    None
                },
            ),
    {
        let half: u16 = #[verifier::truncate] (value as u16);
        let mut output: Option<u8> = None;
        if offset == UART_DR {
            output = Some(#[verifier::truncate] (value as u8));
        } else if offset == UART_CR {
            self.control = half;
        } else if offset == UART_IMSC {
            self.interrupt_mask = half;
        } else if offset == UART_ICR {
            self.raw_interrupt_status = self.raw_interrupt_status & !half;
        } else if offset == UART_ILPR {
            self.irda_low_power_counter = half;
        } else if offset == UART_IBRD {
            self.integer_baud_rate_divisor = half;
        } else if offset == UART_FBRD {
            self.fractional_baud_rate_divisor = half;
        } else if offset == UART_LCR_H {
            self.line_control = half;
        } else if offset == UART_IFLS {
            self.interrupt_fifo_level_select = half;
        } else if offset == UART_DMACR {
            self.dma_control = half;
        }
        assert(self@.fifo =~= old(self)@.fifo);
        Ok(output)
    }
}

/// What the flags become.
proof fn lemma_flags()
    ensures
        0x10u16 & !0x10u16 == 0,
        0u16 & !0x10u16 == 0,
        0u16 | 0x40u16 == 0x40,
        0x40u16 & !0x40u16 == 0,
        0u16 & !0x40u16 == 0,
        0u16 | 0x10u16 == 0x10,
{
    assert({
        &&& 0x10u16 & !0x10u16 == 0
        &&& 0u16 & !0x10u16 == 0
        &&& 0u16 | 0x40u16 == 0x40
        &&& 0x40u16 & !0x40u16 == 0
        &&& 0u16 & !0x40u16 == 0
        &&& 0u16 | 0x10u16 == 0x10
    }) by (bit_vector);
}

/// The UART once all of `data` arrived.
pub open spec fn received_all(uart: Uart, data: Seq<u8>) -> Uart
    decreases data.len(),
{
    if data.len() == 0 {
        uart
    } else {
        received_all(uart, data.drop_last()).received(data.last())
    }
}

/// Up to 256 unread bytes are kept, in the order in which they arrived, and the guest reads them
/// in that order.
pub proof fn input_is_kept_in_order(uart: Uart, data: Seq<u8>)
    requires
        uart.fifo.len() + data.len() <= 256,
    ensures
        received_all(uart, data).fifo == uart.fifo + data,
    decreases data.len(),
{
    if data.len() > 0 {
        input_is_kept_in_order(uart, data.drop_last());
        assert(uart.fifo + data =~= (uart.fifo + data.drop_last()).push(data.last()));
    } else {
        assert(uart.fifo + data =~= uart.fifo);
    }
}

} // verus!
