//! How the SD controller is started, clocked, waited for and acknowledged.

use crate::device::RegisterOp;
use crate::drivers::sdhci::{
    divisor_from, CommandAction, CommandState, Operation, PioAction, PioState, ResponseType,
    SdCommand, Sdhci, SetupAction, SetupReply, SetupStage,
};
use vstd::prelude::*;

verus! {

/// The setup starts with a reset: bit 0 of the byte at 0x2F is set, and the byte is read until it is
/// clear.
pub proof fn sd_setup_starts_with_a_reset(
    base_address: usize,
    ops: &mut Vec<RegisterOp>,
    start: (Sdhci, SetupStage, SetupAction),
)
    requires
        base_address + 0x100 <= usize::MAX,
        call_ensures(Sdhci::new, (base_address, ops), start),
    ensures
        start.0.base_address == base_address,
        start.0.rca == 0,
        !start.0.is_high_capacity,
        start.1 == (SetupStage::Reset { tries: 0 }),
        start.2 matches SetupAction::Read(read) && read.offset == 0x2F && read.width == 1,
        final(ops)@ == old(ops)@.push(
            RegisterOp::Modify {
                address: (base_address + 0x2C) as usize,
                clear: 0xFF00_0000,
                set: 0x0100_0000,
            },
        ),
{
}

/// The clock of the card is the base clock over a power of two: as fast as it can be, at most 400 kHz
/// while the card is identified and at most 25 MHz afterwards. Half of the divisor is in the high byte of the
/// clock register and, above that, in bits 6 and 7; bit 0 starts the clock. The base clock is in bits 8 to 15
/// of the capabilities, in MHz; where they are zero it is 100 MHz.
pub proof fn sd_clock_is_as_fast_as_it_may_be(
    sdhci: &mut Sdhci,
    fast: bool,
    value: u32,
    ops: &mut Vec<RegisterOp>,
    next: (SetupStage, SetupAction),
)
    requires
        old(sdhci).wf(),
        call_ensures(
            Sdhci::initialize_card,
            (sdhci, SetupStage::Capabilities { fast }, &SetupReply::Register(value), ops),
            next,
        ),
    ensures
        next.0 == (SetupStage::Stable { fast, tries: 0 }),
        next.1 matches SetupAction::Read(read) && read.offset == 0x2C && read.width == 2,
        final(ops)@.len() == old(ops)@.len() + 1,
        final(ops)@[old(ops)@.len() as int] matches RegisterOp::Modify { address, clear, set } && {
            let mhz = value / 0x100 % 256;
            let base = if mhz == 0 {
                100_000_000
            } else {
                mhz * 1_000_000
            };
            let target = if fast {
                25_000_000int
            } else {
                400_000
            };
            let half = set as int / 0x100 + set as int / 0x40 % 4 * 0x100;
            let divisor = if half == 0 {
                1
            } else {
                2 * half
            };
            &&& address == old(sdhci).base_address + 0x2C
            &&& clear == 0xFFFF
            &&& set < 0x1_0000
            &&& set % 0x40 == 1
            &&& base / divisor <= target || divisor == 1024
            &&& half > 0 ==> base / half > target
        },
{
    let n = old(ops)@.len() as int;
    let written = old(sdhci).register_next(SetupStage::Capabilities { fast }, value).2;
    assert(final(ops)@ == old(ops)@ + written);
    assert(final(ops)@[n] == written[0]);
    let base = crate::drivers::sdhci::base_clock_of(value);
    let target = if fast {
        25_000_000int
    } else {
        400_000
    };
    lemma_divisor(base, target, 1);
    let d = divisor_from(base, target, 1);
    assert(d == 1 || d == 2 || d == 4 || d == 8 || d == 16 || d == 32 || d == 64 || d == 128 || d
        == 256 || d == 512 || d == 1024);
}

proof fn lemma_divisor(base: int, target: int, d: int)
    requires
        d == 1 || d == 2 || d == 4 || d == 8 || d == 16 || d == 32 || d == 64 || d == 128 || d
            == 256 || d == 512 || d == 1024,
        d > 1 ==> base / (d / 2) > target,
    ensures
        ({
            let found = divisor_from(base, target, d);
            &&& found == 1 || found == 2 || found == 4 || found == 8 || found == 16 || found == 32
                || found == 64 || found == 128 || found == 256 || found == 512 || found == 1024
            &&& base / found <= target || found == 1024
            &&& found > 1 ==> base / (found / 2) > target
        }),
    decreases 2048 - d,
{
    if !(d >= 0x3FF || base / d <= target) {
        lemma_divisor(base, target, 2 * d);
    }
}

/// A reset and a clock are waited for two million times, and no longer.
pub proof fn sd_setup_is_waited_for(
    sdhci: &mut Sdhci,
    stage: SetupStage,
    value: u32,
    ops: &mut Vec<RegisterOp>,
    next: (SetupStage, SetupAction),
)
    requires
        old(sdhci).wf(),
        call_ensures(
            Sdhci::initialize_card,
            (sdhci, stage, &SetupReply::Register(value), ops),
            next,
        ),
    ensures
        stage matches SetupStage::Reset { tries } ==> (value % 2 == 1 ==> if tries < 1_999_999 {
            &&& next.0 == (SetupStage::Reset { tries: (tries + 1) as u32 })
            &&& next.1 matches SetupAction::Read(read) && read.offset == 0x2F && read.width == 1
        } else {
            next.0 is Failed && next.1 is Failed
        }),
        stage matches SetupStage::Stable { fast, tries } ==> (value / 2 % 2 == 0 ==> if tries
            < 1_999_999 {
            &&& next.0 == (SetupStage::Stable { fast, tries: (tries + 1) as u32 })
            &&& next.1 matches SetupAction::Read(read) && read.offset == 0x2C && read.width == 2
        } else {
            next.0 is Failed && next.1 is Failed
        }),
        stage matches SetupStage::Stable { .. } ==> final(ops)@ == old(ops)@,
        stage is Reset && value % 2 == 0 || stage is HostControl && old(sdhci).is_high_capacity
            ==> (next.1 matches SetupAction::Read(read) && read.offset == 0x40 && read.width == 4),
        *final(sdhci) == *old(sdhci) || Sdhci::awaits_command(stage),
{
    assert(old(ops)@ + Seq::<RegisterOp>::empty() =~= old(ops)@);
}

/// The clock goes to the card once bit 2 of its register is set. The first time the data timeout is the
/// longest, every interrupt status is cleared and enabled, and none is signalled.
pub proof fn sd_clock_is_handed_to_the_card(
    sdhci: &mut Sdhci,
    fast: bool,
    value: u32,
    ops: &mut Vec<RegisterOp>,
    next: (SetupStage, SetupAction),
)
    requires
        old(sdhci).wf(),
        call_ensures(
            Sdhci::initialize_card,
            (sdhci, SetupStage::EnableClock { fast }, &SetupReply::Register(value), ops),
            next,
        ),
    ensures
        ({
            let n = old(ops)@.len() as int;
            let base = old(sdhci).base_address;
            &&& final(ops)@.len() == n + if fast {
                1int
            } else {
                5
            }
            &&& final(ops)@[n] == (RegisterOp::Modify {
                address: (base + 0x2C) as usize,
                clear: 0xFFFF,
                set: (((value % 0x1_0000) as u16) | 4) as u32,
            })
            &&& !fast ==> {
                &&& final(ops)@[n + 1] == (RegisterOp::Modify {
                    address: (base + 0x2C) as usize,
                    clear: 0xFF_0000,
                    set: 0x0E_0000,
                })
                &&& final(ops)@[n + 2] == (RegisterOp::Modify {
                    address: (base + 0x30) as usize,
                    clear: 0xFFFF,
                    set: 0xFFFF,
                })
                &&& final(ops)@[n + 3] == (RegisterOp::Modify {
                    address: (base + 0x34) as usize,
                    clear: 0xFFFF,
                    set: 0xFFFF,
                })
                &&& final(ops)@[n + 4] == (RegisterOp::Modify {
                    address: (base + 0x38) as usize,
                    clear: 0xFFFF,
                    set: 0,
                })
            }
        }),
{
    let n = old(ops)@.len() as int;
    let written = old(sdhci).clock_running(fast, value).2;
    assert(final(ops)@ == old(ops)@ + written);
    assert(final(ops)@[n] == written[0]);
    if !fast {
        assert(final(ops)@[n + 1] == written[1]);
        assert(final(ops)@[n + 2] == written[2]);
        assert(final(ops)@[n + 3] == written[3]);
        assert(final(ops)@[n + 4] == written[4]);
    }
}

/// The command has a response of this kind.
pub open spec fn expects(action: SetupAction, response_type: ResponseType) -> bool {
    action matches SetupAction::Command { command, .. } && command.response_type == response_type
}

/// The commands of the setup have the responses that the card gives: none for 0, a long one for 2, an
/// unchecked one for 41, a busy one for 7, and a short one for the others.
pub proof fn sd_commands_have_their_responses(
    sdhci: &mut Sdhci,
    stage: SetupStage,
    reply: &SetupReply,
    ops: &mut Vec<RegisterOp>,
    next: (SetupStage, SetupAction),
)
    requires
        old(sdhci).wf(),
        call_ensures(Sdhci::initialize_card, (sdhci, stage, reply, ops), next),
    ensures
        next.1 matches SetupAction::Command { command, delay_us } ==> {
            &&& expects(
                next.1,
                if command.index == 0 {
                    ResponseType::Absent
                } else if command.index == 2 {
                    ResponseType::R136
                } else if command.index == 41 {
                    ResponseType::R48NoCrc
                } else if command.index == 7 {
                    ResponseType::R48Busy
                } else {
                    ResponseType::R48
                },
            )
            &&& delay_us == if command.index == 55 {
                1000int
            } else {
                0
            }
        },
{
}

/// A card that does not answer cannot be set up, but for command 8, which an older card does not know.
pub proof fn sd_card_has_to_answer(
    sdhci: &mut Sdhci,
    stage: SetupStage,
    ops: &mut Vec<RegisterOp>,
    next: (SetupStage, SetupAction),
)
    requires
        old(sdhci).wf(),
        call_ensures(Sdhci::initialize_card, (sdhci, stage, &SetupReply::Failed, ops), next),
    ensures
        !(stage is Ready) && !(stage is IfCond) ==> next.0 is Failed && next.1 is Failed,
        stage is IfCond ==> next.0 == (SetupStage::OpCondPrefix { is_v2: false, tries: 0 })
            && crate::laws::storage::sends(
            next.1,
            55,
            ((old(sdhci).rca % 0x1_0000) * 0x1_0000) as u32,
        ),
        stage is Ready ==> next.0 is Ready && next.1 is Ready,
        final(ops)@ == old(ops)@,
        *final(sdhci) == *old(sdhci),
{
    assert(old(ops)@ + Seq::<RegisterOp>::empty() =~= old(ops)@);
}

/// A card that is asked for twenty thousand times and is never ready cannot be set up. One that is not
/// ready yet is asked again by command 55 and 41. The clock is stopped before it is changed.
pub proof fn sd_card_is_asked_so_often(
    sdhci: &mut Sdhci,
    stage: SetupStage,
    words: [u32; 4],
    ops: &mut Vec<RegisterOp>,
    next: (SetupStage, SetupAction),
)
    requires
        old(sdhci).wf(),
        call_ensures(
            Sdhci::initialize_card,
            (sdhci, stage, &SetupReply::Response(words), ops),
            next,
        ),
    ensures
        stage matches SetupStage::OpCond { tries, .. } ==> {
            &&& words@[0] < 0x8000_0000 && tries >= 19_999 ==> next.0 is Failed && next.1 is Failed
            &&& words@[0] < 0x8000_0000 && tries < 19_999 ==> crate::laws::storage::sends(
                next.1,
                55,
                ((old(sdhci).rca % 0x1_0000) * 0x1_0000) as u32,
            )
        },
        stage is Width ==> (next.1 matches SetupAction::Read(read) && read.offset == 0x28
            && read.width == 1),
        stage is BlockLength ==> {
            &&& next.1 matches SetupAction::Read(read) && read.offset == 0x40 && read.width == 4
            &&& final(ops)@ == old(ops)@.push(
                RegisterOp::Modify {
                    address: (old(sdhci).base_address + 0x2C) as usize,
                    clear: 0xFFFF,
                    set: 0,
                },
            )
        },
        Sdhci::awaits_command(stage) && !(stage is BlockLength) ==> final(ops)@ == old(ops)@,
{
    assert(old(ops)@ + Seq::<RegisterOp>::empty() =~= old(ops)@);
    if stage is BlockLength {
        let written = seq![old(sdhci).write16_op(0x2C, 0)];
        assert(old(ops)@ + written =~= old(ops)@.push(written[0]));
    }
}

/// The clock is stopped, too, before a card that counts blocks gets its faster one.
pub proof fn sd_clock_is_stopped_first(
    sdhci: &mut Sdhci,
    value: u32,
    ops: &mut Vec<RegisterOp>,
    next: (SetupStage, SetupAction),
)
    requires
        old(sdhci).wf(),
        old(sdhci).is_high_capacity,
        call_ensures(
            Sdhci::initialize_card,
            (sdhci, SetupStage::HostControl, &SetupReply::Register(value), ops),
            next,
        ),
    ensures
        final(ops)@.len() == old(ops)@.len() + 2,
        final(ops)@.last() == (RegisterOp::Modify {
            address: (old(sdhci).base_address + 0x2C) as usize,
            clear: 0xFFFF,
            set: 0,
        }),
{
    let written = old(sdhci).register_next(SetupStage::HostControl, value).2;
    assert(final(ops)@ == old(ops)@ + written);
    assert(final(ops)@.last() == written[1]);
}

/// A command first reads the state of the lines at 0x24, up to two million times, and the interrupt status
/// at 0x30 afterwards, as often.
pub proof fn sd_command_is_waited_for(
    sdhci: &Sdhci,
    command: &SdCommand,
    start: (CommandState, CommandAction),
    tries: u32,
    value: u32,
    ops: &mut Vec<RegisterOp>,
    next: (CommandState, CommandAction),
    later: &mut Vec<RegisterOp>,
    answer: (CommandState, CommandAction),
)
    requires
        sdhci.wf(),
        call_ensures(Sdhci::start_command, (), start),
        call_ensures(
            Sdhci::send_command,
            (sdhci, command, CommandState::Inhibited { tries }, value, ops),
            next,
        ),
        call_ensures(
            Sdhci::send_command,
            (sdhci, command, CommandState::Response { tries }, value, later),
            answer,
        ),
    ensures
        start.0 == (CommandState::Inhibited { tries: 0 }),
        start.1 matches CommandAction::Read(read) && read.offset == 0x24 && read.width == 4,
        value % 4 != 0 ==> if tries < 1_999_999 {
            &&& next.0 == (CommandState::Inhibited { tries: (tries + 1) as u32 })
            &&& next.1 matches CommandAction::Read(read) && read.offset == 0x24 && read.width == 4
        } else {
            next.0 is Done && next.1 is Failed
        },
        value % 4 == 0 ==> (next.1 matches CommandAction::Read(read) && read.offset == 0x30
            && read.width == 2),
        value % 0x1_0000 < 0x8000 && value % 2 == 0 ==> {
            &&& final(later)@ == old(later)@
            &&& if tries < 1_999_999 {
                answer.1 matches CommandAction::Read(read) && read.offset == 0x30 && read.width == 2
            } else {
                answer.0 is Done && answer.1 is Failed
            }
        },
{
    crate::bits::lemma_halve((value % 0x1_0000) as u64);
    assert(((value % 0x1_0000) as u16) & 1 == ((value % 0x1_0000) as u64) & 1);
    assert(value % 0x1_0000 % 2 == value % 2);
    assert(old(later)@ + Seq::<RegisterOp>::empty() =~= old(later)@);
}

/// What a command has seen in the interrupt status is acknowledged there, at 0x30: the end of the command by
/// bit 0 alone, and a failure with all that came with it.
pub proof fn sd_response_is_acknowledged(
    sdhci: &Sdhci,
    command: &SdCommand,
    tries: u32,
    value: u32,
    ops: &mut Vec<RegisterOp>,
    next: (CommandState, CommandAction),
)
    requires
        sdhci.wf(),
        call_ensures(
            Sdhci::send_command,
            (sdhci, command, CommandState::Response { tries }, value, ops),
            next,
        ),
        value % 2 == 1 || value % 0x1_0000 >= 0x8000,
    ensures
        final(ops)@ == old(ops)@.push(
            RegisterOp::Modify {
                address: (sdhci.base_address + 0x30) as usize,
                clear: 0xFFFF,
                set: if value % 0x1_0000 >= 0x8000 {
                    value % 0x1_0000
                } else {
                    1
                },
            },
        ),
{
    crate::bits::lemma_halve((value % 0x1_0000) as u64);
    let status = (value % 0x1_0000) as u16;
    assert(status & 1 == ((value % 0x1_0000) as u64) & 1);
    assert(value % 0x1_0000 % 2 == value % 2);
    let written = sdhci.command_next(*command, CommandState::Response { tries }, value).2;
    assert(final(ops)@ == old(ops)@ + written);
    assert(old(ops)@ + written =~= old(ops)@.push(written[0]));
}

/// The blocks of an operation are moved from the first on; one without blocks only ends. Each is waited
/// for two million times, by reading the interrupt status at 0x30.
pub proof fn sd_blocks_are_waited_for(
    sdhci: &Sdhci,
    operation: &Operation,
    start: PioState,
    state: PioState,
    status: u16,
    ops: &mut Vec<RegisterOp>,
    next: (PioState, PioAction),
)
    requires
        sdhci.wf(),
        state matches PioState::Block { block, .. } ==> block < operation.number_of_blocks,
        call_ensures(Sdhci::start_transfer, (operation,), start),
        call_ensures(Sdhci::pio_transfer, (sdhci, operation, state, status, ops), next),
    ensures
        start == if operation.number_of_blocks > 0 {
            PioState::Block { block: 0, tries: 0 }
        } else {
            PioState::End { tries: 0 }
        },
        next.1 matches PioAction::Read(read) ==> read.offset == 0x30 && read.width == 2,
        state matches PioState::Block { block, tries } ==> (!(next.1 is MoveBlock) && status
            < 0x8000 ==> {
            &&& final(ops)@ == old(ops)@
            &&& if tries < 1_999_999 {
                next.1 is Read && next.0 == (PioState::Block { block, tries: (tries + 1) as u32 })
            } else {
                next.0 is Done && next.1 is Failed
            }
        }),
        state matches PioState::End { tries } ==> (!(next.1 is Finished) && status < 0x8000 ==> {
            &&& final(ops)@ == old(ops)@
            &&& if tries < 1_999_999 {
                next.1 is Read && next.0 == (PioState::End { tries: (tries + 1) as u32 })
            } else {
                next.0 is Done && next.1 is Failed
            }
        }),
{
}

} // verus!
