//! SD Host Controller Interface (SDHCI) driver.
//!
//! Drives an SD card through the register interface of an SD host controller, word
//! by word, without DMA. The accesses and the waiting are up to the caller: the driver says which
//! register to look at, takes what it held, and says what to do next.

use crate::device::RegisterOp;
use vstd::prelude::*;

verus! {

pub const SDHCI_BLOCK_SIZE: usize = 0x04;

pub const SDHCI_BLOCK_COUNT: usize = 0x06;

pub const SDHCI_ARGUMENT: usize = 0x08;

pub const SDHCI_TRANSFER_MODE: usize = 0x0C;

pub const SDHCI_COMMAND: usize = 0x0E;

pub const SDHCI_RESPONSE: usize = 0x10;

pub const SDHCI_BUFFER: usize = 0x20;

pub const SDHCI_PRESENT_STATE: usize = 0x24;

pub const SDHCI_HOST_CONTROL: usize = 0x28;

pub const SDHCI_POWER_CONTROL: usize = 0x29;

pub const SDHCI_CLOCK_CONTROL: usize = 0x2C;

pub const SDHCI_TIMEOUT_CONTROL: usize = 0x2E;

pub const SDHCI_SOFTWARE_RESET: usize = 0x2F;

pub const SDHCI_INT_STATUS: usize = 0x30;

pub const SDHCI_INT_ENABLE: usize = 0x34;

pub const SDHCI_SIGNAL_ENABLE: usize = 0x38;

pub const SDHCI_CAPABILITIES: usize = 0x40;

/// SD block size used for every transfer.
pub const BLOCK_SIZE: u64 = 512;

/// Upper bound on polling, so that an absent controller results in a clean error.
pub const POLL_TIMEOUT: u32 = 2_000_000;

/// How often the card is asked whether it has left the busy state after power-up.
pub const ACMD41_RETRIES: u32 = 20_000;

/// The controller may lose one of two register writes that are within two cycles of the SD clock of
/// each other. This many microseconds are two cycles at the slowest clock.
pub const REGISTER_WRITE_SPACING_US: u64 = 6;

pub const CMD_GO_IDLE_STATE: u8 = 0;

pub const CMD_ALL_SEND_CID: u8 = 2;

pub const CMD_SEND_RELATIVE_ADDR: u8 = 3;

pub const CMD_SELECT_CARD: u8 = 7;

pub const CMD_SEND_IF_COND: u8 = 8;

pub const CMD_SET_BLOCKLEN: u8 = 16;

pub const CMD_READ_SINGLE_BLOCK: u8 = 17;

pub const CMD_READ_MULTIPLE_BLOCK: u8 = 18;

pub const CMD_WRITE_BLOCK: u8 = 24;

pub const CMD_WRITE_MULTIPLE_BLOCK: u8 = 25;

pub const CMD_APP_CMD: u8 = 55;

pub const ACMD_SET_BUS_WIDTH: u8 = 6;

pub const ACMD_SD_SEND_OP_COND: u8 = 41;

/// The clock at which a card is identified.
pub const IDENTIFICATION_CLOCK: u32 = 400_000;

/// The clock that every card supports.
pub const DEFAULT_CLOCK: u32 = 25_000_000;

#[derive(Clone, Copy, PartialEq, Eq, Debug, Structural)]
pub enum ResponseType {
    Absent,
    /// 48-bit response with CRC and command-index checking (R1/R6/R7).
    R48,
    /// 48-bit response without checking (R3/OCR): its CRC and index fields are all ones.
    R48NoCrc,
    R48Busy,
    R136,
}

impl ResponseType {
    /// The response field of the command register.
    pub open spec fn code(self) -> int {
        match self {
            ResponseType::Absent => 0,
            ResponseType::R48 => 0x1A,
            ResponseType::R48NoCrc => 2,
            ResponseType::R48Busy => 0x1B,
            ResponseType::R136 => 9,
        }
    }

    fn select(&self) -> (code: u16)
        ensures
            code == self.code(),
    {
        match self {
            ResponseType::Absent => 0,
            ResponseType::R48 => 0x1A,
            ResponseType::R48NoCrc => 2,
            ResponseType::R48Busy => 0x1B,
            ResponseType::R136 => 9,
        }
    }
}

/// A command for the card.
#[derive(Clone, Copy, PartialEq, Eq, Debug, Structural)]
pub struct SdCommand {
    pub index: u8,
    pub argument: u32,
    pub response_type: ResponseType,
    pub data_present: bool,
}

#[derive(Clone, Copy, PartialEq, Eq, Debug, Structural)]
pub struct Sdhci {
    pub base_address: usize,
    /// Relative Card Address.
    pub rca: u32,
    /// The card counts in blocks (SDHC/SDXC) and not in bytes (SDSC).
    pub is_high_capacity: bool,
    /// The transfer mode goes to the controller together with the next command.
    pub transfer_mode_shadow: u16,
}

/// What a read of a register looks at: `width` bytes at `offset`.
#[derive(Clone, Copy, PartialEq, Eq, Debug, Structural)]
pub struct RegisterRead {
    pub offset: usize,
    pub width: u8,
}

/// What came of looking at the interrupt status.
#[derive(Clone, Copy, PartialEq, Eq, Debug, Structural)]
pub enum InterruptPoll {
    Again,
    Raised,
    Failed,
}

/// What the interrupt status means for somebody who waits for the bits of `mask`.
pub open spec fn interrupt_of(status: u16, mask: u16) -> InterruptPoll {
    if status >= 0x8000 {
        InterruptPoll::Failed
    } else if status & mask != 0 {
        InterruptPoll::Raised
    } else {
        InterruptPoll::Again
    }
}

/// The 136-bit response: the controller keeps the CRC, so every word is shifted up by the top byte
/// of the next.
pub open spec fn long_response(raw: Seq<u32>, i: int) -> u32 {
    if i == 3 {
        ((raw[0] % 0x100_0000) * 0x100) as u32
    } else {
        ((raw[3 - i] % 0x100_0000) * 0x100 + raw[2 - i] / 0x100_0000) as u32
    }
}

/// How far a command is.
#[derive(Clone, Copy, PartialEq, Eq, Debug, Structural)]
pub enum CommandState {
    /// The lines are to become free.
    Inhibited { tries: u32 },
    /// The response is to arrive.
    Response { tries: u32 },
    /// The response is to be read.
    Words,
    Done,
}

#[derive(Clone, Copy, PartialEq, Eq, Debug, Structural)]
pub enum CommandAction {
    Read(RegisterRead),
    /// The four response registers are read.
    ReadResponse,
    Failed,
}

/// How far the setup of the controller and the card is.
#[derive(Clone, Copy, PartialEq, Eq, Debug, Structural)]
pub enum SetupStage {
    Reset { tries: u32 },
    Capabilities { fast: bool },
    Stable { fast: bool, tries: u32 },
    EnableClock { fast: bool },
    GoIdle,
    IfCond,
    OpCondPrefix { is_v2: bool, tries: u32 },
    OpCond { is_v2: bool, tries: u32 },
    SendCid,
    RelativeAddress,
    Select,
    WidthPrefix,
    Width,
    HostControl,
    BlockLength,
    Ready,
    Failed,
}

/// The answer to what was asked for.
#[derive(Clone, Copy, PartialEq, Eq, Debug)]
pub enum SetupReply {
    /// What the register held.
    Register(u32),
    /// The response to the command.
    Response([u32; 4]),
    /// The command failed.
    Failed,
}

#[derive(Clone, Copy, PartialEq, Eq, Debug, Structural)]
pub enum SetupAction {
    Read(RegisterRead),
    Command { command: SdCommand, delay_us: u64 },
    Ready,
    Failed,
}

/// The divisor of the base clock: the least power of two from `divisor` on, up to 1024, with which
/// the card clock is at most `target`.
pub open spec fn divisor_from(base_clock: int, target: int, divisor: int) -> int
    decreases 2048 - divisor,
{
    if divisor <= 0 || divisor >= 0x3FF || base_clock / divisor <= target {
        divisor
    } else {
        divisor_from(base_clock, target, 2 * divisor)
    }
}

/// The base clock that the capabilities state; 100 MHz where they state none.
pub open spec fn base_clock_of(capabilities: u32) -> int {
    let mhz = (capabilities as int / 0x100) % 256;
    if mhz == 0 {
        100_000_000
    } else {
        1_000_000 * mhz
    }
}

/// The clock control register for a divisor: half of it, its low eight bits in the high byte, the
/// two others below, and the internal clock on.
pub open spec fn clock_field(divisor: int) -> u16 {
    let field = divisor / 2;
    ((field % 256) * 0x100 + ((field / 256) % 4) * 0x40 + 1) as u16
}

/// A read or write of blocks that has been set up.
#[derive(Clone, Copy, PartialEq, Eq, Debug, Structural)]
pub struct Operation {
    pub command: SdCommand,
    pub number_of_blocks: u32,
    pub is_write: bool,
}

/// How far the words of an operation are.
#[derive(Clone, Copy, PartialEq, Eq, Debug, Structural)]
pub enum PioState {
    /// The controller's buffer is to become ready for the block.
    Block { block: u32, tries: u32 },
    /// The operation is to end.
    End { tries: u32 },
    Done,
}

#[derive(Clone, Copy, PartialEq, Eq, Debug, Structural)]
pub enum PioAction {
    Read(RegisterRead),
    /// The words of this block are moved, and the interrupt status is read next.
    MoveBlock { block: u32 },
    Finished,
    Failed,
}

impl Operation {
    pub open spec fn status_read() -> RegisterRead {
        RegisterRead { offset: SDHCI_INT_STATUS, width: 2 }
    }

    /// The interrupt that says that the buffer is ready.
    pub open spec fn ready_bit(self) -> u16 {
        if self.is_write {
            0x10
        } else {
            0x20
        }
    }

    /// What is awaited once `block` blocks are moved.
    pub open spec fn awaited(self, block: u32) -> PioState {
        if block < self.number_of_blocks {
            PioState::Block { block, tries: 0 }
        } else {
            PioState::End { tries: 0 }
        }
    }

    /// What follows on an interrupt status. The third part tells which bits are acknowledged.
    pub open spec fn pio_next(self, state: PioState, status: u16) -> (
        PioState,
        PioAction,
        Option<u16>,
    ) {
        let read = PioAction::Read(Self::status_read());
        match state {
            PioState::Block { block, tries } => match interrupt_of(status, self.ready_bit()) {
                InterruptPoll::Failed => (PioState::Done, PioAction::Failed, Some(status)),
                InterruptPoll::Raised => (
                    self.awaited((block + 1) as u32),
                    PioAction::MoveBlock { block },
                    Some(status & self.ready_bit()),
                ),
                InterruptPoll::Again => if tries + 1 < POLL_TIMEOUT {
                    (PioState::Block { block, tries: (tries + 1) as u32 }, read, None)
                } else {
                    (PioState::Done, PioAction::Failed, None)
                },
            },
            PioState::End { tries } => match interrupt_of(status, 2) {
                InterruptPoll::Failed => (PioState::Done, PioAction::Failed, Some(status)),
                InterruptPoll::Raised => (
                    PioState::Done,
                    PioAction::Finished,
                    Some(status & 2),
                ),
                InterruptPoll::Again => if tries + 1 < POLL_TIMEOUT {
                    (PioState::End { tries: (tries + 1) as u32 }, read, None)
                } else {
                    (PioState::Done, PioAction::Failed, None)
                },
            },
            PioState::Done => (PioState::Done, PioAction::Failed, None),
        }
    }
}

impl Sdhci {
    /// The registers are inside the address space.
    pub open spec fn wf(self) -> bool {
        self.base_address + 0x100 <= usize::MAX
    }

    pub open spec fn write32_op(self, offset: int, value: u32) -> RegisterOp {
        RegisterOp::Write { address: (self.base_address + offset) as usize, value }
    }

    /// A 16-bit register is written as a part of its word.
    pub open spec fn write16_op(self, offset: int, value: u16) -> RegisterOp {
        if offset == SDHCI_COMMAND {
            self.write32_op(0x0C, (self.transfer_mode_shadow + 0x1_0000 * value) as u32)
        } else if offset % 4 == 0 {
            RegisterOp::Modify {
                address: (self.base_address + offset) as usize,
                clear: 0xFFFF,
                set: value as u32,
            }
        } else {
            RegisterOp::Modify {
                address: (self.base_address + offset - 2) as usize,
                clear: 0xFFFF_0000,
                set: (value * 0x1_0000) as u32,
            }
        }
    }

    /// An 8-bit register is written as a part of its word.
    pub open spec fn write8_op(self, offset: int, value: u8) -> RegisterOp {
        let shift = offset % 4;
        let unit = if shift == 0 {
            1int
        } else if shift == 1 {
            0x100
        } else if shift == 2 {
            0x1_0000
        } else {
            0x100_0000
        };
        RegisterOp::Modify {
            address: (self.base_address + offset - shift) as usize,
            clear: (255 * unit) as u32,
            set: (value * unit) as u32,
        }
    }

    pub fn invalid() -> (sdhci: Self)
        ensures
            sdhci == (Sdhci {
                base_address: 0,
                rca: 0,
                is_high_capacity: false,
                transfer_mode_shadow: 0,
            }),
    {
        Self { base_address: 0, rca: 0, is_high_capacity: false, transfer_mode_shadow: 0 }
    }

    /// Whether two register writes are far enough apart.
    pub fn may_write(last_write: u64, now: u64, frequency: u64) -> (may: bool)
        requires
            6 * frequency <= u64::MAX,
        ensures
            may == (frequency == 0 || now.wrapping_sub(last_write) >= (6 * frequency + 999_999)
                / 1_000_000),
    {
        if frequency == 0 {
            return true;
        }
        let product: u64 = REGISTER_WRITE_SPACING_US * frequency;
        let spacing: u64 = if product % 1_000_000 == 0 {
            product / 1_000_000
        } else {
            product / 1_000_000 + 1
        };
        now.wrapping_sub(last_write) >= spacing
    }

    fn write32(&self, offset: usize, value: u32) -> (op: RegisterOp)
        requires
            self.wf(),
            offset < 0x100,
        ensures
            op == self.write32_op(offset as int, value),
    {
        RegisterOp::Write { address: self.base_address + offset, value }
    }

    fn write16(&self, offset: usize, value: u16) -> (op: RegisterOp)
        requires
            self.wf(),
            offset < 0x100,
            offset % 2 == 0,
        ensures
            op == self.write16_op(offset as int, value),
    {
        if offset == SDHCI_COMMAND {
            self.write32(
                SDHCI_TRANSFER_MODE,
                self.transfer_mode_shadow as u32 + 0x1_0000 * (value as u32),
            )
        } else if offset % 4 == 0 {
            RegisterOp::Modify {
                address: self.base_address + offset,
                clear: 0xFFFF,
                set: value as u32,
            }
        } else {
            RegisterOp::Modify {
                address: self.base_address + offset - 2,
                clear: 0xFFFF_0000,
                set: value as u32 * 0x1_0000,
            }
        }
    }

    fn write8(&self, offset: usize, value: u8) -> (op: RegisterOp)
        requires
            self.wf(),
            offset < 0x100,
        ensures
            op == self.write8_op(offset as int, value),
    {
        let shift: usize = offset % 4;
        let unit: u32 = if shift == 0 {
            1
        } else if shift == 1 {
            0x100
        } else if shift == 2 {
            0x1_0000
        } else {
            0x100_0000
        };
        RegisterOp::Modify {
            address: self.base_address + offset - shift,
            clear: 255 * unit,
            set: value as u32 * unit,
        }
    }

    /// What the command register gets.
    pub open spec fn command_word(command: SdCommand) -> u16 {
        (command.index * 0x100 + command.response_type.code() + if command.data_present {
            0x20int
        } else {
            0
        }) as u16
    }

    pub open spec fn issue_ops(self, command: SdCommand) -> Seq<RegisterOp> {
        seq![
            self.write16_op(SDHCI_INT_STATUS as int, 0xFFFF),
            self.write32_op(SDHCI_ARGUMENT as int, command.argument),
            self.write16_op(SDHCI_COMMAND as int, Self::command_word(command)),
        ]
    }

    /// What follows on an answer to a command that is on its way.
    pub open spec fn command_next(self, command: SdCommand, state: CommandState, value: u32) -> (
        CommandState,
        CommandAction,
        Seq<RegisterOp>,
    ) {
        let none = Seq::<RegisterOp>::empty();
        let failed = (CommandState::Done, CommandAction::Failed, none);
        let state_read = CommandAction::Read(
            RegisterRead { offset: SDHCI_PRESENT_STATE, width: 4 },
        );
        let status_read = CommandAction::Read(RegisterRead { offset: SDHCI_INT_STATUS, width: 2 });
        match state {
            CommandState::Inhibited { tries } => if value as int % 4 == 0 {
                (CommandState::Response { tries: 0 }, status_read, self.issue_ops(command))
            } else if tries + 1 < POLL_TIMEOUT {
                (CommandState::Inhibited { tries: (tries + 1) as u32 }, state_read, none)
            } else {
                failed
            },
            CommandState::Response { tries } => {
                let status = (value as int % 0x1_0000) as u16;
                match interrupt_of(status, 1) {
                    InterruptPoll::Failed => (
                        CommandState::Done,
                        CommandAction::Failed,
                        seq![self.write16_op(SDHCI_INT_STATUS as int, status)],
                    ),
                    InterruptPoll::Raised => (
                        CommandState::Words,
                        CommandAction::ReadResponse,
                        seq![self.write16_op(SDHCI_INT_STATUS as int, status & 1)],
                    ),
                    InterruptPoll::Again => if tries + 1 < POLL_TIMEOUT {
                        (CommandState::Response { tries: (tries + 1) as u32 }, status_read, none)
                    } else {
                        failed
                    },
                }
            },
            _ => failed,
        }
    }

    /// Where a command starts.
    pub fn start_command() -> (start: (CommandState, CommandAction))
        ensures
            start.0 == (CommandState::Inhibited { tries: 0 }),
            start.1 == CommandAction::Read(RegisterRead { offset: SDHCI_PRESENT_STATE, width: 4 }),
    {
        (
            CommandState::Inhibited { tries: 0 },
            CommandAction::Read(RegisterRead { offset: SDHCI_PRESENT_STATE, width: 4 }),
        )
    }

    /// The status for somebody who waits for the bits of `mask`.
    fn poll_interrupt(status: u16, mask: u16) -> (poll: InterruptPoll)
        ensures
            poll == interrupt_of(status, mask),
    {
        if status >= 0x8000 {
            InterruptPoll::Failed
        } else if status & mask != 0 {
            InterruptPoll::Raised
        } else {
            InterruptPoll::Again
        }
    }

    /// Takes the answer to the last read of a command, and tells what is to be done next.
    pub fn send_command(
        &self,
        command: &SdCommand,
        state: CommandState,
        value: u32,
        ops: &mut Vec<RegisterOp>,
    ) -> (next: (CommandState, CommandAction))
        requires
            self.wf(),
        ensures
            next.0 == self.command_next(*command, state, value).0,
            next.1 == self.command_next(*command, state, value).1,
            final(ops)@ == old(ops)@ + self.command_next(*command, state, value).2,
    {
        let ghost first = ops@;
        assert(first + Seq::<RegisterOp>::empty() =~= first);
        let state_read = CommandAction::Read(
            RegisterRead { offset: SDHCI_PRESENT_STATE, width: 4 },
        );
        let status_read = CommandAction::Read(RegisterRead { offset: SDHCI_INT_STATUS, width: 2 });
        match state {
            CommandState::Inhibited { tries } => {
                if value % 4 != 0 {
                    if tries >= POLL_TIMEOUT - 1 {
                        return (CommandState::Done, CommandAction::Failed);
                    }
                    return (CommandState::Inhibited { tries: tries + 1 }, state_read);
                }
                let mut word: u16 = command.index as u16 * 0x100 + command.response_type.select();
                if command.data_present {
                    word = word + 0x20;
                }
                ops.push(self.write16(SDHCI_INT_STATUS, 0xFFFF));
                ops.push(self.write32(SDHCI_ARGUMENT, command.argument));
                ops.push(self.write16(SDHCI_COMMAND, word));
                assert(ops@ =~= first + self.issue_ops(*command));
                (CommandState::Response { tries: 0 }, status_read)
            },
            CommandState::Response { tries } => {
                let status: u16 = (value % 0x1_0000) as u16;
                match Self::poll_interrupt(status, 1) {
                    InterruptPoll::Failed => {
                        ops.push(self.write16(SDHCI_INT_STATUS, status));
                        assert(ops@ =~= first + self.command_next(*command, state, value).2);
                        (CommandState::Done, CommandAction::Failed)
                    },
                    InterruptPoll::Raised => {
                        ops.push(self.write16(SDHCI_INT_STATUS, status & 1));
                        assert(ops@ =~= first + self.command_next(*command, state, value).2);
                        (CommandState::Words, CommandAction::ReadResponse)
                    },
                    InterruptPoll::Again => if tries >= POLL_TIMEOUT - 1 {
                        (CommandState::Done, CommandAction::Failed)
                    } else {
                        (CommandState::Response { tries: tries + 1 }, status_read)
                    },
                }
            },
            _ => (CommandState::Done, CommandAction::Failed),
        }
    }

    /// The response to a command, from the four response registers.
    pub fn read_response(response_type: ResponseType, raw: [u32; 4]) -> (response: [u32; 4])
        ensures
            response_type == ResponseType::R136 ==> forall|i: int|
                0 <= i < 4 ==> #[trigger] response@[i] == long_response(raw@, i),
            response_type != ResponseType::R136 ==> response@ == seq![raw[0], 0, 0, 0],
    {
        if response_type == ResponseType::R136 {
            [
                (raw[3] % 0x100_0000) * 0x100 + raw[2] / 0x100_0000,
                (raw[2] % 0x100_0000) * 0x100 + raw[1] / 0x100_0000,
                (raw[1] % 0x100_0000) * 0x100 + raw[0] / 0x100_0000,
                (raw[0] % 0x100_0000) * 0x100,
            ]
        } else {
            let response: [u32; 4] = [raw[0], 0, 0, 0];
            assert(response@ =~= seq![raw[0], 0, 0, 0]);
            response
        }
    }

    /// The accesses that set the clock up again: it is stopped first.
    pub open spec fn read32(offset: usize) -> SetupAction {
        SetupAction::Read(RegisterRead { offset, width: 4 })
    }

    pub open spec fn command(index: u8, argument: u32, response_type: ResponseType) -> SetupAction {
        SetupAction::Command {
            command: SdCommand { index, argument, response_type, data_present: false },
            delay_us: 0,
        }
    }

    /// A command that announces an application command.
    pub open spec fn prefix(self) -> SetupAction {
        SetupAction::Command {
            command: SdCommand {
                index: 55,
                argument: ((self.rca % 0x1_0000) * 0x1_0000) as u32,
                response_type: ResponseType::R48,
                data_present: false,
            },
            delay_us: 1000,
        }
    }

    /// What follows once the clock runs.
    pub open spec fn clock_running(self, fast: bool, value: u32) -> (
        SetupStage,
        SetupAction,
        Seq<RegisterOp>,
    ) {
        let enable = self.write16_op(
            SDHCI_CLOCK_CONTROL as int,
            ((value % 0x1_0000) as u16) | 4,
        );
        if fast {
            (SetupStage::Ready, SetupAction::Ready, seq![enable])
        } else {
            (
                SetupStage::GoIdle,
                Self::command(0, 0, ResponseType::Absent),
                seq![
                    enable,
                    self.write8_op(SDHCI_TIMEOUT_CONTROL as int, 0x0E),
                    self.write16_op(SDHCI_INT_STATUS as int, 0xFFFF),
                    self.write16_op(SDHCI_INT_ENABLE as int, 0xFFFF),
                    self.write16_op(SDHCI_SIGNAL_ENABLE as int, 0),
                ],
            )
        }
    }

    /// What follows on the value of a register.
    pub open spec fn register_next(self, stage: SetupStage, value: u32) -> (
        SetupStage,
        SetupAction,
        Seq<RegisterOp>,
    ) {
        let none = Seq::<RegisterOp>::empty();
        let failed = (SetupStage::Failed, SetupAction::Failed, none);
        match stage {
            SetupStage::Reset { tries } => if value as int % 2 == 0 {
                (
                    SetupStage::Capabilities { fast: false },
                    Self::read32(SDHCI_CAPABILITIES),
                    seq![
                        self.write8_op(SDHCI_POWER_CONTROL as int, 0x0F),
                        self.write16_op(SDHCI_CLOCK_CONTROL as int, 0),
                    ],
                )
            } else if tries + 1 < POLL_TIMEOUT {
                (
                    SetupStage::Reset { tries: (tries + 1) as u32 },
                    SetupAction::Read(RegisterRead { offset: SDHCI_SOFTWARE_RESET, width: 1 }),
                    none,
                )
            } else {
                failed
            },
            SetupStage::Capabilities { fast } => {
                let target = if fast {
                    DEFAULT_CLOCK as int
                } else {
                    IDENTIFICATION_CLOCK as int
                };
                let divisor = divisor_from(base_clock_of(value), target, 1);
                (
                    SetupStage::Stable { fast, tries: 0 },
                    SetupAction::Read(RegisterRead { offset: SDHCI_CLOCK_CONTROL, width: 2 }),
                    seq![self.write16_op(SDHCI_CLOCK_CONTROL as int, clock_field(divisor))],
                )
            },
            SetupStage::Stable { fast, tries } => if (value as int / 2) % 2 == 1 {
                (
                    SetupStage::EnableClock { fast },
                    SetupAction::Read(RegisterRead { offset: SDHCI_CLOCK_CONTROL, width: 2 }),
                    none,
                )
            } else if tries + 1 < POLL_TIMEOUT {
                (
                    SetupStage::Stable { fast, tries: (tries + 1) as u32 },
                    SetupAction::Read(RegisterRead { offset: SDHCI_CLOCK_CONTROL, width: 2 }),
                    none,
                )
            } else {
                failed
            },
            SetupStage::EnableClock { fast } => self.clock_running(fast, value),
            SetupStage::HostControl => {
                let wide = self.write8_op(
                    SDHCI_HOST_CONTROL as int,
                    ((value % 0x100) as u8) | 2,
                );
                if self.is_high_capacity {
                    (
                        SetupStage::Capabilities { fast: true },
                        Self::read32(SDHCI_CAPABILITIES),
                        seq![wide, self.write16_op(SDHCI_CLOCK_CONTROL as int, 0)],
                    )
                } else {
                    (
                        SetupStage::BlockLength,
                        Self::command(16, 512, ResponseType::R48),
                        seq![wide],
                    )
                }
            },
            _ => failed,
        }
    }

    /// What follows on the response to a command; `None` stands for none.
    pub open spec fn response_next(self, stage: SetupStage, response: Option<u32>) -> (
        Sdhci,
        SetupStage,
        SetupAction,
        Seq<RegisterOp>,
    ) {
        let none = Seq::<RegisterOp>::empty();
        let failed = (self, SetupStage::Failed, SetupAction::Failed, none);
        match (stage, response) {
            (SetupStage::IfCond, _) => (
                self,
                SetupStage::OpCondPrefix { is_v2: response is Some, tries: 0 },
                self.prefix(),
                none,
            ),
            (_, None) => failed,
            (SetupStage::GoIdle, Some(_)) => (
                self,
                SetupStage::IfCond,
                Self::command(8, 0x1AA, ResponseType::R48),
                none,
            ),
            (SetupStage::OpCondPrefix { is_v2, tries }, Some(_)) => (
                self,
                SetupStage::OpCond { is_v2, tries },
                Self::command(
                    41,
                    if is_v2 {
                        0x40FF_8000
                    } else {
                        0x00FF_8000
                    },
                    ResponseType::R48NoCrc,
                ),
                none,
            ),
            (SetupStage::OpCond { is_v2, tries }, Some(ocr)) => if ocr >= 0x8000_0000 {
                (
                    Sdhci {
                        is_high_capacity: is_v2 && (ocr as int / 0x4000_0000) % 2 == 1,
                        ..self
                    },
                    SetupStage::SendCid,
                    Self::command(2, 0, ResponseType::R136),
                    none,
                )
            } else if tries + 1 < ACMD41_RETRIES {
                (
                    self,
                    SetupStage::OpCondPrefix { is_v2, tries: (tries + 1) as u32 },
                    self.prefix(),
                    none,
                )
            } else {
                failed
            },
            (SetupStage::SendCid, Some(_)) => (
                self,
                SetupStage::RelativeAddress,
                Self::command(3, 0, ResponseType::R48),
                none,
            ),
            (SetupStage::RelativeAddress, Some(word)) => {
                let rca = word as int / 0x1_0000;
                (
                    Sdhci { rca: rca as u32, ..self },
                    SetupStage::Select,
                    Self::command(7, (rca * 0x1_0000) as u32, ResponseType::R48Busy),
                    none,
                )
            },
            (SetupStage::Select, Some(_)) => (self, SetupStage::WidthPrefix, self.prefix(), none),
            (SetupStage::WidthPrefix, Some(_)) => (
                self,
                SetupStage::Width,
                Self::command(6, 2, ResponseType::R48),
                none,
            ),
            (SetupStage::Width, Some(_)) => (
                self,
                SetupStage::HostControl,
                SetupAction::Read(RegisterRead { offset: SDHCI_HOST_CONTROL, width: 1 }),
                none,
            ),
            (SetupStage::BlockLength, Some(_)) => (
                self,
                SetupStage::Capabilities { fast: true },
                Self::read32(SDHCI_CAPABILITIES),
                seq![self.write16_op(SDHCI_CLOCK_CONTROL as int, 0)],
            ),
            _ => failed,
        }
    }

    /// The stage waits for a command.
    pub open spec fn awaits_command(stage: SetupStage) -> bool {
        match stage {
            SetupStage::GoIdle => true,
            SetupStage::IfCond => true,
            SetupStage::OpCondPrefix { .. } => true,
            SetupStage::OpCond { .. } => true,
            SetupStage::SendCid => true,
            SetupStage::RelativeAddress => true,
            SetupStage::Select => true,
            SetupStage::WidthPrefix => true,
            SetupStage::Width => true,
            SetupStage::BlockLength => true,
            _ => false,
        }
    }

    /// What follows on an answer. Of a response only the first word matters.
    pub open spec fn setup_next(self, stage: SetupStage, reply: SetupReply) -> (
        Sdhci,
        SetupStage,
        SetupAction,
        Seq<RegisterOp>,
    ) {
        if stage == SetupStage::Ready {
            (self, stage, SetupAction::Ready, Seq::empty())
        } else if Self::awaits_command(stage) {
            match reply {
                SetupReply::Response(words) => self.response_next(stage, Some(words[0])),
                _ => self.response_next(stage, None),
            }
        } else {
            match reply {
                SetupReply::Register(value) => {
                    let (next, action, ops) = self.register_next(stage, value);
                    (self, next, action, ops)
                },
                _ => (self, SetupStage::Failed, SetupAction::Failed, Seq::empty()),
            }
        }
    }

    /// Starts to set up the controller at `base_address`: it is reset.
    pub fn new(base_address: usize, ops: &mut Vec<RegisterOp>) -> (start: (
        Self,
        SetupStage,
        SetupAction,
    ))
        requires
            base_address + 0x100 <= usize::MAX,
        ensures
            start.0 == (Sdhci {
                base_address,
                rca: 0,
                is_high_capacity: false,
                transfer_mode_shadow: 0,
            }),
            start.1 == (SetupStage::Reset { tries: 0 }),
            start.2 == SetupAction::Read(
                RegisterRead { offset: SDHCI_SOFTWARE_RESET, width: 1 },
            ),
            final(ops)@ == old(ops)@.push(start.0.write8_op(SDHCI_SOFTWARE_RESET as int, 1)),
    {
        let sdhci = Self {
            base_address,
            rca: 0,
            is_high_capacity: false,
            transfer_mode_shadow: 0,
        };
        ops.push(sdhci.write8(SDHCI_SOFTWARE_RESET, 1));
        (
            sdhci,
            SetupStage::Reset { tries: 0 },
            SetupAction::Read(RegisterRead { offset: SDHCI_SOFTWARE_RESET, width: 1 }),
        )
    }

    /// The divisor with which the card clock is at most `target`.
    fn find_divisor(base_clock: u32, target: u32) -> (divisor: u32)
        ensures
            divisor == divisor_from(base_clock as int, target as int, 1),
            1 <= divisor <= 1024,
    {
        let mut divisor: u32 = 1;
        while divisor < 0x3FF && base_clock / divisor > target
            invariant
                1 <= divisor <= 1024,
                divisor_from(base_clock as int, target as int, 1) == divisor_from(
                    base_clock as int,
                    target as int,
                    divisor as int,
                ),
                divisor < 0x3FF ==> divisor <= 512,
                divisor == 1 || divisor == 2 || divisor == 4 || divisor == 8 || divisor == 16
                    || divisor == 32 || divisor == 64 || divisor == 128 || divisor == 256
                    || divisor == 512 || divisor == 1024,
            decreases 1024 - divisor,
        {
            divisor = divisor * 2;
        }
        divisor
    }

    /// The clock control register with which the card clock is at most `target`.
    fn set_clock(capabilities: u32, target: u32) -> (control: u16)
        ensures
            control == clock_field(
                divisor_from(base_clock_of(capabilities), target as int, 1),
            ),
    {
        let mhz: u32 = (capabilities / 0x100) % 256;
        let base_clock: u32 = if mhz == 0 {
            100_000_000
        } else {
            mhz * 1_000_000
        };
        let field: u32 = Self::find_divisor(base_clock, target) / 2;
        ((field % 256) * 0x100 + ((field / 256) % 4) * 0x40 + 1) as u16
    }

    fn plain(index: u8, argument: u32, response_type: ResponseType) -> (action: SetupAction)
        ensures
            action == Self::command(index, argument, response_type),
    {
        SetupAction::Command {
            command: SdCommand { index, argument, response_type, data_present: false },
            delay_us: 0,
        }
    }

    fn app_command(&self) -> (action: SetupAction)
        ensures
            action == self.prefix(),
    {
        SetupAction::Command {
            command: SdCommand {
                index: CMD_APP_CMD,
                argument: (self.rca % 0x1_0000) * 0x1_0000,
                response_type: ResponseType::R48,
                data_present: false,
            },
            delay_us: 1000,
        }
    }

    /// A step of the setup that looks at a register.
    fn step_register(&self, stage: SetupStage, value: u32, ops: &mut Vec<RegisterOp>) -> (next: (
        SetupStage,
        SetupAction,
    ))
        requires
            self.wf(),
        ensures
            next.0 == self.register_next(stage, value).0,
            next.1 == self.register_next(stage, value).1,
            final(ops)@ == old(ops)@ + self.register_next(stage, value).2,
    {
        let ghost first = ops@;
        assert(first + Seq::<RegisterOp>::empty() =~= first);
        let clock_read = SetupAction::Read(
            RegisterRead { offset: SDHCI_CLOCK_CONTROL, width: 2 },
        );
        let capabilities_read = SetupAction::Read(
            RegisterRead { offset: SDHCI_CAPABILITIES, width: 4 },
        );
        match stage {
            SetupStage::Reset { tries } => {
                if value % 2 != 0 {
                    if tries >= POLL_TIMEOUT - 1 {
                        return (SetupStage::Failed, SetupAction::Failed);
                    }
                    return (
                        SetupStage::Reset { tries: tries + 1 },
                        SetupAction::Read(
                            RegisterRead { offset: SDHCI_SOFTWARE_RESET, width: 1 },
                        ),
                    );
                }
                /* The bus power supply at 3.3 V. */
                ops.push(self.write8(SDHCI_POWER_CONTROL, 0x0F));
                ops.push(self.write16(SDHCI_CLOCK_CONTROL, 0));
                assert(ops@ =~= first + self.register_next(stage, value).2);
                (SetupStage::Capabilities { fast: false }, capabilities_read)
            },
            SetupStage::Capabilities { fast } => {
                let target: u32 = if fast {
                    DEFAULT_CLOCK
                } else {
                    IDENTIFICATION_CLOCK
                };
                ops.push(self.write16(SDHCI_CLOCK_CONTROL, Self::set_clock(value, target)));
                assert(ops@ =~= first + self.register_next(stage, value).2);
                (SetupStage::Stable { fast, tries: 0 }, clock_read)
            },
            SetupStage::Stable { fast, tries } => if (value / 2) % 2 == 1 {
                (SetupStage::EnableClock { fast }, clock_read)
            } else if tries >= POLL_TIMEOUT - 1 {
                (SetupStage::Failed, SetupAction::Failed)
            } else {
                (SetupStage::Stable { fast, tries: tries + 1 }, clock_read)
            },
            SetupStage::EnableClock { fast } => {
                ops.push(self.write16(SDHCI_CLOCK_CONTROL, ((value % 0x1_0000) as u16) | 4));
                if fast {
                    assert(ops@ =~= first + self.register_next(stage, value).2);
                    return (SetupStage::Ready, SetupAction::Ready);
                }
                ops.push(self.write8(SDHCI_TIMEOUT_CONTROL, 0x0E));
                ops.push(self.write16(SDHCI_INT_STATUS, 0xFFFF));
                ops.push(self.write16(SDHCI_INT_ENABLE, 0xFFFF));
                ops.push(self.write16(SDHCI_SIGNAL_ENABLE, 0));
                assert(ops@ =~= first + self.register_next(stage, value).2);
                (SetupStage::GoIdle, Self::plain(CMD_GO_IDLE_STATE, 0, ResponseType::Absent))
            },
            SetupStage::HostControl => {
                ops.push(self.write8(SDHCI_HOST_CONTROL, ((value % 0x100) as u8) | 2));
                if self.is_high_capacity {
                    ops.push(self.write16(SDHCI_CLOCK_CONTROL, 0));
                    assert(ops@ =~= first + self.register_next(stage, value).2);
                    (SetupStage::Capabilities { fast: true }, capabilities_read)
                } else {
                    assert(ops@ =~= first + self.register_next(stage, value).2);
                    (SetupStage::BlockLength, Self::plain(CMD_SET_BLOCKLEN, 512, ResponseType::R48))
                }
            },
            _ => (SetupStage::Failed, SetupAction::Failed),
        }
    }

    /// A step of the setup that takes the response of the card.
    fn step_response(
        &mut self,
        stage: SetupStage,
        response: Option<u32>,
        ops: &mut Vec<RegisterOp>,
    ) -> (next: (SetupStage, SetupAction))
        requires
            old(self).wf(),
        ensures
            ({
                let (after, stage, action, written) = old(self).response_next(stage, response);
                &&& *final(self) == after
                &&& next.0 == stage
                &&& next.1 == action
                &&& final(ops)@ == old(ops)@ + written
            }),
            final(self).wf(),
    {
        let ghost first = ops@;
        assert(first + Seq::<RegisterOp>::empty() =~= first);
        match stage {
            SetupStage::IfCond => {
                /* Older cards do not answer, which is no error. */
                let prefix: SetupAction = self.app_command();
                return (
                    SetupStage::OpCondPrefix { is_v2: response.is_some(), tries: 0 },
                    prefix,
                );
            },
            _ => {},
        }
        let word: u32 = match response {
            Some(word) => word,
            None => {
                return (SetupStage::Failed, SetupAction::Failed);
            },
        };
        match stage {
            SetupStage::GoIdle => (
                SetupStage::IfCond,
                Self::plain(CMD_SEND_IF_COND, 0x1AA, ResponseType::R48),
            ),
            SetupStage::OpCondPrefix { is_v2, tries } => {
                let argument: u32 = if is_v2 {
                    0x40FF_8000
                } else {
                    0x00FF_8000
                };
                (
                    SetupStage::OpCond { is_v2, tries },
                    Self::plain(ACMD_SD_SEND_OP_COND, argument, ResponseType::R48NoCrc),
                )
            },
            SetupStage::OpCond { is_v2, tries } => {
                if word >= 0x8000_0000 {
                    self.is_high_capacity = is_v2 && (word / 0x4000_0000) % 2 == 1;
                    return (
                        SetupStage::SendCid,
                        Self::plain(CMD_ALL_SEND_CID, 0, ResponseType::R136),
                    );
                }
                if tries >= ACMD41_RETRIES - 1 {
                    return (SetupStage::Failed, SetupAction::Failed);
                }
                (SetupStage::OpCondPrefix { is_v2, tries: tries + 1 }, self.app_command())
            },
            SetupStage::SendCid => (
                SetupStage::RelativeAddress,
                Self::plain(CMD_SEND_RELATIVE_ADDR, 0, ResponseType::R48),
            ),
            SetupStage::RelativeAddress => {
                self.rca = word / 0x1_0000;
                (
                    SetupStage::Select,
                    Self::plain(CMD_SELECT_CARD, self.rca * 0x1_0000, ResponseType::R48Busy),
                )
            },
            SetupStage::Select => (SetupStage::WidthPrefix, self.app_command()),
            SetupStage::WidthPrefix => (
                SetupStage::Width,
                Self::plain(ACMD_SET_BUS_WIDTH, 2, ResponseType::R48),
            ),
            SetupStage::Width => (
                SetupStage::HostControl,
                SetupAction::Read(RegisterRead { offset: SDHCI_HOST_CONTROL, width: 1 }),
            ),
            SetupStage::BlockLength => {
                ops.push(self.write16(SDHCI_CLOCK_CONTROL, 0));
                assert(ops@ =~= first + old(self).response_next(stage, response).3);
                (
                    SetupStage::Capabilities { fast: true },
                    SetupAction::Read(RegisterRead { offset: SDHCI_CAPABILITIES, width: 4 }),
                )
            },
            _ => (SetupStage::Failed, SetupAction::Failed),
        }
    }

    /// Takes the answer to the last action of the setup, and tells what is to be done next.
    pub fn initialize_card(
        &mut self,
        stage: SetupStage,
        reply: &SetupReply,
        ops: &mut Vec<RegisterOp>,
    ) -> (next: (SetupStage, SetupAction))
        requires
            old(self).wf(),
        ensures
            ({
                let (after, stage, action, written) = old(self).setup_next(stage, *reply);
                &&& *final(self) == after
                &&& next.0 == stage
                &&& next.1 == action
                &&& final(ops)@ == old(ops)@ + written
            }),
            final(self).wf(),
    {
        assert(ops@ + Seq::<RegisterOp>::empty() =~= ops@);
        let awaits_command: bool = match stage {
            SetupStage::Ready => {
                return (stage, SetupAction::Ready);
            },
            SetupStage::GoIdle | SetupStage::IfCond | SetupStage::OpCondPrefix { .. }
            | SetupStage::OpCond { .. } | SetupStage::SendCid | SetupStage::RelativeAddress
            | SetupStage::Select | SetupStage::WidthPrefix | SetupStage::Width
            | SetupStage::BlockLength => true,
            _ => false,
        };
        if awaits_command {
            match reply {
                SetupReply::Response(words) => self.step_response(stage, Some(words[0]), ops),
                _ => self.step_response(stage, None, ops),
            }
        } else {
            match reply {
                SetupReply::Register(value) => self.step_register(stage, *value, ops),
                _ => (SetupStage::Failed, SetupAction::Failed),
            }
        }
    }

    /// What the card is asked for: the number of the block, or of the byte.
    pub open spec fn argument_of(self, block_address: u64) -> u32 {
        if self.is_high_capacity {
            ((block_address as int / 512) % 0x1_0000_0000) as u32
        } else {
            (block_address as int % 0x1_0000_0000) as u32
        }
    }

    pub open spec fn operation(
        self,
        block_address: u64,
        number_of_blocks: u32,
        is_write: bool,
    ) -> Operation {
        Operation {
            command: SdCommand {
                index: if is_write {
                    if number_of_blocks > 1 {
                        25
                    } else {
                        24
                    }
                } else if number_of_blocks > 1 {
                    18
                } else {
                    17
                },
                argument: self.argument_of(block_address),
                response_type: ResponseType::R48,
                data_present: true,
            },
            number_of_blocks,
            is_write,
        }
    }

    /// The transfer mode: the blocks are counted, and several blocks are ended by the controller.
    pub open spec fn transfer_mode(number_of_blocks: u32, is_write: bool) -> u16 {
        (2 + (if is_write {
            0int
        } else {
            0x10
        }) + (if number_of_blocks > 1 {
            0x24int
        } else {
            0
        })) as u16
    }

    /// A read or write of `length` bytes at the byte `block_address`. `Err` where it is not made of
    /// whole blocks, `None` where there is nothing to do.
    pub open spec fn planned(self, block_address: u64, length: u64, is_write: bool) -> (
        Sdhci,
        Result<Option<Operation>, ()>,
        Seq<RegisterOp>,
    ) {
        let blocks = ((length as int / 512) % 0x1_0000_0000) as u32;
        if block_address as int % 512 != 0 || length as int % 512 != 0 {
            (self, Err(()), Seq::empty())
        } else if blocks == 0 {
            (self, Ok(None), Seq::empty())
        } else {
            (
                Sdhci { transfer_mode_shadow: Self::transfer_mode(blocks, is_write), ..self },
                Ok(Some(self.operation(block_address, blocks, is_write))),
                seq![
                    self.write16_op(SDHCI_BLOCK_SIZE as int, 512),
                    self.write16_op(SDHCI_BLOCK_COUNT as int, (blocks as int % 0x1_0000) as u16),
                ],
            )
        }
    }

    /// Prepares a read or write of blocks.
    fn operation_sync(
        &mut self,
        block_address: u64,
        length: u64,
        is_write: bool,
        ops: &mut Vec<RegisterOp>,
    ) -> (result: Result<Option<Operation>, ()>)
        requires
            old(self).wf(),
        ensures
            final(self).wf(),
            *final(self) == old(self).planned(block_address, length, is_write).0,
            result == old(self).planned(block_address, length, is_write).1,
            final(ops)@ == old(ops)@ + old(self).planned(block_address, length, is_write).2,
    {
        let ghost first = ops@;
        assert(first + Seq::<RegisterOp>::empty() =~= first);
        if block_address % BLOCK_SIZE != 0 || length % BLOCK_SIZE != 0 {
            return Err(());
        }
        let number_of_blocks: u32 = ((length / BLOCK_SIZE) % 0x1_0000_0000) as u32;
        if number_of_blocks == 0 {
            return Ok(None);
        }
        ops.push(self.write16(SDHCI_BLOCK_SIZE, 512));
        ops.push(self.write16(SDHCI_BLOCK_COUNT, (number_of_blocks % 0x1_0000) as u16));
        assert(ops@ =~= first + old(self).planned(block_address, length, is_write).2);
        let is_multiple: bool = number_of_blocks > 1;
        let mut transfer_mode: u16 = 2;
        if !is_write {
            transfer_mode = transfer_mode + 0x10;
        }
        if is_multiple {
            transfer_mode = transfer_mode + 0x24;
        }
        self.transfer_mode_shadow = transfer_mode;
        let index: u8 = if is_write {
            if is_multiple {
                CMD_WRITE_MULTIPLE_BLOCK
            } else {
                CMD_WRITE_BLOCK
            }
        } else if is_multiple {
            CMD_READ_MULTIPLE_BLOCK
        } else {
            CMD_READ_SINGLE_BLOCK
        };
        let argument: u32 = if self.is_high_capacity {
            ((block_address / BLOCK_SIZE) % 0x1_0000_0000) as u32
        } else {
            (block_address % 0x1_0000_0000) as u32
        };
        Ok(
            Some(
                Operation {
                    command: SdCommand {
                        index,
                        argument,
                        response_type: ResponseType::R48,
                        data_present: true,
                    },
                    number_of_blocks,
                    is_write,
                },
            ),
        )
    }

    /// Prepares a read of `length` bytes at the byte `block_address`.
    pub fn read(&mut self, block_address: u64, length: u64, ops: &mut Vec<RegisterOp>) -> (result: Result<
        Option<Operation>,
        (),
    >)
        requires
            old(self).wf(),
        ensures
            final(self).wf(),
            *final(self) == old(self).planned(block_address, length, false).0,
            result == old(self).planned(block_address, length, false).1,
            final(ops)@ == old(ops)@ + old(self).planned(block_address, length, false).2,
    {
        self.operation_sync(block_address, length, false, ops)
    }

    /// Prepares a write of `length` bytes at the byte `block_address`.
    pub fn write(&mut self, block_address: u64, length: u64, ops: &mut Vec<RegisterOp>) -> (result: Result<
        Option<Operation>,
        (),
    >)
        requires
            old(self).wf(),
        ensures
            final(self).wf(),
            *final(self) == old(self).planned(block_address, length, true).0,
            result == old(self).planned(block_address, length, true).1,
            final(ops)@ == old(ops)@ + old(self).planned(block_address, length, true).2,
    {
        self.operation_sync(block_address, length, true, ops)
    }

    /// What is awaited of an operation whose command was sent.
    pub fn start_transfer(operation: &Operation) -> (state: PioState)
        ensures
            state == operation.awaited(0),
    {
        if operation.number_of_blocks > 0 {
            PioState::Block { block: 0, tries: 0 }
        } else {
            PioState::End { tries: 0 }
        }
    }

    /// Takes the interrupt status, and tells what is to be done next.
    pub fn pio_transfer(
        &self,
        operation: &Operation,
        state: PioState,
        status: u16,
        ops: &mut Vec<RegisterOp>,
    ) -> (next: (PioState, PioAction))
        requires
            self.wf(),
            state matches PioState::Block { block, .. } ==> block < operation.number_of_blocks,
        ensures
            ({
                let (after, action, acknowledged) = operation.pio_next(state, status);
                &&& next.0 == after
                &&& next.1 == action
                &&& final(ops)@ == match acknowledged {
                    Some(bits) => old(ops)@.push(self.write16_op(SDHCI_INT_STATUS as int, bits)),
                    None => old(ops)@,
                }
                &&& after matches PioState::Block { block, .. } ==> block
                    < operation.number_of_blocks
            }),
    {
        let read = PioAction::Read(RegisterRead { offset: SDHCI_INT_STATUS, width: 2 });
        match state {
            PioState::Block { block, tries } => {
                let ready_bit: u16 = if operation.is_write {
                    0x10
                } else {
                    0x20
                };
                match Self::poll_interrupt(status, ready_bit) {
                    InterruptPoll::Failed => {
                        ops.push(self.write16(SDHCI_INT_STATUS, status));
                        (PioState::Done, PioAction::Failed)
                    },
                    InterruptPoll::Raised => {
                        ops.push(self.write16(SDHCI_INT_STATUS, status & ready_bit));
                        let next: PioState = if block + 1 < operation.number_of_blocks {
                            PioState::Block { block: block + 1, tries: 0 }
                        } else {
                            PioState::End { tries: 0 }
                        };
                        (next, PioAction::MoveBlock { block })
                    },
                    InterruptPoll::Again => if tries >= POLL_TIMEOUT - 1 {
                        (PioState::Done, PioAction::Failed)
                    } else {
                        (PioState::Block { block, tries: tries + 1 }, read)
                    },
                }
            },
            PioState::End { tries } => match Self::poll_interrupt(status, 2) {
                InterruptPoll::Failed => {
                    ops.push(self.write16(SDHCI_INT_STATUS, status));
                    (PioState::Done, PioAction::Failed)
                },
                InterruptPoll::Raised => {
                    ops.push(self.write16(SDHCI_INT_STATUS, status & 2));
                    (PioState::Done, PioAction::Finished)
                },
                InterruptPoll::Again => if tries >= POLL_TIMEOUT - 1 {
                    (PioState::Done, PioAction::Failed)
                } else {
                    (PioState::End { tries: tries + 1 }, read)
                },
            },
            PioState::Done => (PioState::Done, PioAction::Failed),
        }
    }
}

/// The card clock is at most what was asked for, with the two clocks that are used and any base
/// clock that the capabilities can state; and no smaller power of two would do.
pub proof fn card_clock_is_not_exceeded(base_clock: int, target: int)
    requires
        0 <= base_clock <= 255_000_000,
        target >= 250_000,
    ensures
        ({
            let divisor = divisor_from(base_clock, target, 1);
            &&& 1 <= divisor <= 1024
            &&& base_clock / divisor <= target
            &&& divisor > 1 ==> base_clock / (divisor / 2) > target
        }),
{
    reveal_with_fuel(divisor_from, 12);
}

/// Blocks are moved one after the other: once the buffer is ready for a block, the next is awaited,
/// and behind the last one the end of the operation.
pub proof fn blocks_are_moved_in_order(operation: Operation, block: u32, tries: u32, status: u16)
    requires
        block < operation.number_of_blocks,
        operation.pio_next((PioState::Block { block, tries }), status).1 is MoveBlock,
    ensures
        ({
            let (state, action, _) = operation.pio_next((PioState::Block { block, tries }), status);
            &&& action == PioAction::MoveBlock { block }
            &&& state == if block + 1 < operation.number_of_blocks {
                PioState::Block { block: (block + 1) as u32, tries: 0 }
            } else {
                PioState::End { tries: 0 }
            }
        }),
{
}

} // verus!
