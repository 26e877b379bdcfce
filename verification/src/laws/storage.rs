//! Reading and writing blocks.

use crate::device::RegisterOp;
use crate::block_backend::{BlockBackend, BlockPlan};
use crate::drivers::sdhci::{
    CommandAction, CommandState, Operation, PioAction, PioState, ResponseType, SdCommand, Sdhci,
    SetupAction, SetupReply, SetupStage,
};
use crate::drivers::usb_mass_storage::{
    command_block_wrapper, command_status, BlockRequest, CommandOutcome, CommandStage, RequestStep,
    ScsiCommand, StorageStage, UsbMassStorage,
};
use vstd::prelude::*;

verus! {

/// A read of the SD card is planned with command 17 for one block and 18 for several, of a write with
/// 24 and 25. The argument is the number of the first block, or of the first byte where the card counts
/// bytes.
pub proof fn sd_operation_has_its_command(
    read: bool,
    sdhci: &mut Sdhci,
    block_address: u64,
    length: u64,
    ops: &mut Vec<RegisterOp>,
    result: Result<Option<Operation>, ()>,
)
    requires
        old(sdhci).wf(),
        read ==> call_ensures(Sdhci::read, (sdhci, block_address, length, ops), result),
        !read ==> call_ensures(Sdhci::write, (sdhci, block_address, length, ops), result),
        length < 0x200_0000_0000,
    ensures
        result is Err <==> block_address % 512 != 0 || length % 512 != 0,
        result matches Ok(None) ==> length == 0,
        result matches Ok(Some(operation)) ==> {
            &&& operation.number_of_blocks * 512 == length
            &&& operation.is_write == !read
            &&& operation.command.data_present
            &&& read && length == 512 ==> operation.command.index == 17
            &&& read && length > 512 ==> operation.command.index == 18
            &&& !read && length == 512 ==> operation.command.index == 24
            &&& !read && length > 512 ==> operation.command.index == 25
            &&& block_address <= u32::MAX ==> operation.command.argument == if old(
                sdhci,
            ).is_high_capacity {
                block_address as int / 512
            } else {
                block_address as int
            }
        },
        final(sdhci).is_high_capacity == old(sdhci).is_high_capacity,
        final(sdhci).rca == old(sdhci).rca,
{
}

/// The command of a write starts with 0x2A, that of a read with 0x28. The bytes behind name the first
/// block and the number of blocks, the most significant byte first.
pub proof fn usb_command_has_its_bytes(
    storage: &mut UsbMassStorage,
    request: &BlockRequest,
    step: RequestStep,
)
    requires
        old(storage).wf(),
        request.fits(old(storage).block_size),
        call_ensures(UsbMassStorage::next_command, (storage, request), step),
    ensures
        step is Finished <==> request.blocks == 0,
        step matches RequestStep::Command(command) ==> {
            let count = 0x100 * command.cdb@[7] + command.cdb@[8];
            &&& command.cdb@.len() == 10
            &&& command.cdb@[0] == if request.is_write {
                0x2Au8
            } else {
                0x28u8
            }
            &&& command.direction_in <==> !request.is_write
            &&& command.cdb@[1] == 0 && command.cdb@[6] == 0 && command.cdb@[9] == 0
            &&& 0x100_0000 * command.cdb@[2] + 0x1_0000 * command.cdb@[3] + 0x100
                * command.cdb@[4] + command.cdb@[5] == request.lba % 0x1_0000_0000
            &&& count == if request.blocks < 0xFFFF {
                request.blocks as int
            } else {
                0xFFFF
            }
            &&& command.length == count * old(storage).block_size
            &&& request.lba + count <= old(storage).last_lba + 1
            &&& command.tag == old(storage).tag
            &&& final(storage).tag == old(storage).tag.wrapping_add(1)
        },
{
}

/// A read asks for blocks to be read and a write for blocks to be written, all of them and no more.
pub proof fn usb_request_covers_its_bytes(
    read: bool,
    storage: &UsbMassStorage,
    buffer_address: u64,
    block_address: u64,
    length: u64,
    request: Result<BlockRequest, ()>,
)
    requires
        storage.wf(),
        buffer_address + length <= u64::MAX,
        read ==> call_ensures(
            UsbMassStorage::read,
            (storage, buffer_address, block_address, length),
            request,
        ),
        !read ==> call_ensures(
            UsbMassStorage::write,
            (storage, buffer_address, block_address, length),
            request,
        ),
    ensures
        request is Ok <==> block_address as int % storage.block_size as int == 0 && length as int
            % storage.block_size as int == 0,
        request matches Ok(r) ==> {
            &&& r.is_write == !read
            &&& r.buffer_address == buffer_address
            &&& r.lba * storage.block_size == block_address
            &&& r.blocks * storage.block_size == length
        },
{
    if request is Ok {
        let size = storage.block_size as int;
        vstd::arithmetic::div_mod::lemma_fundamental_div_mod(block_address as int, size);
        vstd::arithmetic::div_mod::lemma_fundamental_div_mod(length as int, size);
        vstd::arithmetic::mul::lemma_mul_is_commutative(block_address as int / size, size);
        vstd::arithmetic::mul::lemma_mul_is_commutative(length as int / size, size);
        vstd::arithmetic::div_mod::lemma_div_pos_is_pos(block_address as int, size);
        vstd::arithmetic::div_mod::lemma_div_pos_is_pos(length as int, size);
        vstd::arithmetic::div_mod::lemma_div_is_ordered_by_denominator(
            block_address as int,
            1,
            size,
        );
        vstd::arithmetic::div_mod::lemma_div_is_ordered_by_denominator(length as int, 1, size);
    }
}

/// What an operation tells the controller: blocks of 512 bytes at offset 4, and how many in the half
/// word behind. The transfer mode has bit 4 set for a read, bits 5 and 2 for several blocks, and bit 1.
pub proof fn sd_operation_sets_the_controller_up(
    read: bool,
    sdhci: &mut Sdhci,
    block_address: u64,
    length: u64,
    ops: &mut Vec<RegisterOp>,
    operation: Operation,
)
    requires
        old(sdhci).wf(),
        read ==> call_ensures(
            Sdhci::read,
            (sdhci, block_address, length, ops),
            Ok(Some(operation)),
        ),
        !read ==> call_ensures(
            Sdhci::write,
            (sdhci, block_address, length, ops),
            Ok(Some(operation)),
        ),
        length <= 0x1FF_FE00,
    ensures
        final(ops)@.len() == old(ops)@.len() + 2,
        ({
            let base = old(sdhci).base_address;
            let size = final(ops)@[old(ops)@.len() as int];
            let count = final(ops)@[old(ops)@.len() as int + 1];
            &&& size == (RegisterOp::Modify {
                address: (base + 4) as usize,
                clear: 0xFFFF,
                set: 512,
            })
            &&& count == (RegisterOp::Modify {
                address: (base + 4) as usize,
                clear: 0xFFFF_0000,
                set: (length / 512 * 0x1_0000) as u32,
            })
        }),
        ({
            let mode = final(sdhci).transfer_mode_shadow;
            &&& mode / 2 % 2 == 1
            &&& mode / 0x10 % 2 == 1 <==> read
            &&& mode / 0x20 % 2 == 1 <==> length > 512
            &&& mode / 4 % 2 == 1 <==> length > 512
            &&& mode % 2 == 0 && mode / 8 % 2 == 0 && mode / 0x40 == 0
        }),
        final(sdhci).base_address == old(sdhci).base_address,
{
}

/// A command waits until the lines are free. It then clears the interrupt status, writes its argument to
/// offset 8, and its index and the kind of its response to the half word behind the transfer mode.
pub proof fn sd_command_is_issued(
    sdhci: &Sdhci,
    command: &SdCommand,
    tries: u32,
    value: u32,
    ops: &mut Vec<RegisterOp>,
    next: (CommandState, CommandAction),
)
    requires
        sdhci.wf(),
        call_ensures(
            Sdhci::send_command,
            (sdhci, command, CommandState::Inhibited { tries }, value, ops),
            next,
        ),
    ensures
        value % 4 != 0 ==> final(ops)@ == old(ops)@ && !(next.0 is Response),
        value % 4 == 0 ==> {
            let n = old(ops)@.len() as int;
            &&& next.0 == (CommandState::Response { tries: 0 })
            &&& final(ops)@.len() == n + 3
            &&& final(ops)@[n] == (RegisterOp::Modify {
                address: (sdhci.base_address + 0x30) as usize,
                clear: 0xFFFF,
                set: 0xFFFF,
            })
            &&& final(ops)@[n + 1] == (RegisterOp::Write {
                address: (sdhci.base_address + 8) as usize,
                value: command.argument,
            })
            &&& final(ops)@[n + 2] matches RegisterOp::Write { address, value: word }
            &&& address == sdhci.base_address + 0xC
            &&& word % 0x1_0000 == sdhci.transfer_mode_shadow
            &&& word / 0x100_0000 == command.index
            &&& word / 0x20_0000 % 2 == 1 <==> command.data_present
            &&& word / 0x1_0000 % 0x20 == match command.response_type {
                ResponseType::Absent => 0int,
                ResponseType::R136 => 0x09,
                ResponseType::R48 => 0x1A,
                ResponseType::R48Busy => 0x1B,
                ResponseType::R48NoCrc => 0x02,
            }
        },
{
    let n = old(ops)@.len() as int;
    if value % 4 == 0 {
        assert(final(ops)@ == old(ops)@ + sdhci.issue_ops(*command));
        assert(final(ops)@[n] == sdhci.issue_ops(*command)[0]);
        assert(final(ops)@[n + 1] == sdhci.issue_ops(*command)[1]);
        assert(final(ops)@[n + 2] == sdhci.issue_ops(*command)[2]);
    }
}

/// A response is taken once bit 0 of the interrupt status is set; bit 15 tells a failure.
pub proof fn sd_response_is_awaited(
    sdhci: &Sdhci,
    command: &SdCommand,
    tries: u32,
    value: u32,
    ops: &mut Vec<RegisterOp>,
    next: (CommandState, CommandAction),
)
    requires
        sdhci.wf(),
        call_ensures(
            Sdhci::send_command,
            (sdhci, command, CommandState::Response { tries }, value, ops),
            next,
        ),
    ensures
        value / 0x8000 % 2 == 1 ==> next.1 is Failed,
        next.1 is ReadResponse <==> value / 0x8000 % 2 == 0 && value % 2 == 1,
        value / 0x8000 % 2 == 0 && value % 2 == 0 && tries < 1_999_999 ==> next.0 == (
        CommandState::Response { tries: (tries + 1) as u32 }),
{
    crate::bits::lemma_halve((value % 0x1_0000) as u64);
    assert(((value % 0x1_0000) as u16) & 1 == ((value % 0x1_0000) as u64) & 1);
    assert(value % 0x1_0000 % 2 == value % 2);
    assert(value / 0x8000 % 2 == 1 <==> value % 0x1_0000 >= 0x8000);
}

/// A long response is the 120 bits that the four registers hold, moved up by a byte. Another one is the
/// first register.
pub proof fn sd_response_is_what_the_registers_hold(
    response_type: ResponseType,
    raw: [u32; 4],
    response: [u32; 4],
)
    requires
        call_ensures(Sdhci::read_response, (response_type, raw), response),
    ensures
        response_type == ResponseType::R136 ==> {
            let held = raw@[0] + 0x1_0000_0000 * raw@[1] + 0x1_0000_0000_0000_0000 * raw@[2]
                + 0x1_0000_0000_0000_0000_0000_0000 * (raw@[3] % 0x100_0000);
            0x100 * held == response@[3] + 0x1_0000_0000 * response@[2] + 0x1_0000_0000_0000_0000
                * response@[1] + 0x1_0000_0000_0000_0000_0000_0000 * response@[0]
        },
        response_type != ResponseType::R136 ==> response@[0] == raw@[0],
{
    assert(response@[0] == response@[0] && response@[1] == response@[1] && response@[2]
        == response@[2] && response@[3] == response@[3]);
}

/// A block is moved once the controller says that its buffer is ready: by bit 5 for a read, by bit 4 for
/// a write. The operation is over with bit 1, once all the blocks were moved.
pub proof fn sd_blocks_are_moved_when_ready(
    sdhci: &Sdhci,
    operation: &Operation,
    state: PioState,
    status: u16,
    ops: &mut Vec<RegisterOp>,
    next: (PioState, PioAction),
)
    requires
        sdhci.wf(),
        state matches PioState::Block { block, .. } ==> block < operation.number_of_blocks,
        call_ensures(Sdhci::pio_transfer, (sdhci, operation, state, status, ops), next),
    ensures
        status >= 0x8000 ==> next.1 is Failed,
        next.1 is MoveBlock <==> state is Block && status < 0x8000 && (if operation.is_write {
            status / 0x10 % 2 == 1
        } else {
            status / 0x20 % 2 == 1
        }),
        state matches PioState::Block { block, .. } ==> (next.1 is MoveBlock ==> next.1
            == PioAction::MoveBlock { block } && match next.0 {
            PioState::Block { block: b, .. } => b == block + 1 && b < operation.number_of_blocks,
            PioState::End { .. } => block + 1 == operation.number_of_blocks,
            PioState::Done => false,
        }),
        next.1 is Finished <==> state is End && status < 0x8000 && status / 2 % 2 == 1,
{
    crate::laws::fields::lemma_status(status);
}

/// How a card is set up, command by command: it is reset by command 0, asked for its voltage by 8, and
/// by 55 and 41 until it is ready. It gives its identification (2) and its address (3), is selected (7),
/// and told by 55 and 6 to use four lines. One that counts bytes is told the length of a block (16).
pub proof fn sd_card_is_set_up_in_order(
    sdhci: &mut Sdhci,
    stage: SetupStage,
    words: [u32; 4],
    ops: &mut Vec<RegisterOp>,
    next: (SetupStage, SetupAction),
)
    requires
        old(sdhci).wf(),
        call_ensures(
            Sdhci::initialize_card,
            (sdhci, stage, &SetupReply::Response(words), ops),
            next,
        ),
    ensures
        stage is GoIdle ==> next.0 is IfCond && sends(next.1, 8, 0x1AA),
        stage is IfCond ==> next.0 == (SetupStage::OpCondPrefix { is_v2: true, tries: 0 }) && sends(
            next.1,
            55,
            ((old(sdhci).rca % 0x1_0000) * 0x1_0000) as u32,
        ),
        stage matches SetupStage::OpCondPrefix { is_v2, tries } ==> next.0 == (SetupStage::OpCond {
            is_v2,
            tries,
        }) && sends(
            next.1,
            41,
            if is_v2 {
                0x40FF_8000
            } else {
                0x00FF_8000
            },
        ),
        stage matches SetupStage::OpCond { is_v2, tries } ==> {
            &&& words@[0] / 0x8000_0000 == 1 ==> next.0 is SendCid && sends(next.1, 2, 0) && (final(
                sdhci
            ).is_high_capacity <==> is_v2 && words@[0] / 0x4000_0000 % 2 == 1)
            &&& words@[0] / 0x8000_0000 == 0 && tries < 19_999 ==> next.0 == (
            SetupStage::OpCondPrefix { is_v2, tries: (tries + 1) as u32 }) && final(
                sdhci
            ).is_high_capacity == old(sdhci).is_high_capacity
        },
        stage is SendCid ==> next.0 is RelativeAddress && sends(next.1, 3, 0),
        stage is RelativeAddress ==> next.0 is Select && final(sdhci).rca == words@[0] / 0x1_0000
            && sends(next.1, 7, (words@[0] / 0x1_0000 * 0x1_0000) as u32),
        stage is Select ==> next.0 is WidthPrefix && sends(
            next.1,
            55,
            ((old(sdhci).rca % 0x1_0000) * 0x1_0000) as u32,
        ),
        stage is WidthPrefix ==> next.0 is Width && sends(next.1, 6, 2),
        stage is Width ==> next.0 is HostControl && final(ops)@ == old(ops)@,
        stage is BlockLength ==> next.0 == (SetupStage::Capabilities { fast: true }),
        !(stage is OpCond) ==> final(sdhci).is_high_capacity == old(sdhci).is_high_capacity,
        !(stage is RelativeAddress) ==> final(sdhci).rca == old(sdhci).rca,
{
}

/// The action sends this command with this argument.
pub open spec fn sends(action: SetupAction, index: u8, argument: u32) -> bool {
    action matches SetupAction::Command { command, .. } && command.index == index
        && command.argument == argument && !command.data_present
}

/// What follows on the registers during the setup: the controller is powered once it is reset, the
/// clock is enabled once it is stable, and four lines are used. A card that counts bytes is told the
/// length of a block, 512.
pub proof fn sd_controller_is_set_up_in_order(
    sdhci: &mut Sdhci,
    stage: SetupStage,
    value: u32,
    ops: &mut Vec<RegisterOp>,
    next: (SetupStage, SetupAction),
)
    requires
        old(sdhci).wf(),
        call_ensures(
            Sdhci::initialize_card,
            (sdhci, stage, &SetupReply::Register(value), ops),
            next,
        ),
    ensures
        stage matches SetupStage::Reset { tries } ==> {
            &&& value % 2 == 0 ==> {
                &&& next.0 == (SetupStage::Capabilities { fast: false })
                &&& final(ops)@.len() == old(ops)@.len() + 2
                &&& final(ops)@[old(ops)@.len() as int] == (RegisterOp::Modify {
                    address: (old(sdhci).base_address + 0x28) as usize,
                    clear: 0xFF00,
                    set: 0x0F00,
                })
                &&& final(ops)@[old(ops)@.len() as int + 1] == (RegisterOp::Modify {
                    address: (old(sdhci).base_address + 0x2C) as usize,
                    clear: 0xFFFF,
                    set: 0,
                })
            }
            &&& value % 2 == 1 ==> final(ops)@ == old(ops)@
        },
        stage matches SetupStage::Stable { fast, .. } ==> (value / 2 % 2 == 1 <==> next.0 == (
        SetupStage::EnableClock { fast })),
        stage matches SetupStage::EnableClock { fast } ==> {
            &&& fast ==> next.0 is Ready && next.1 is Ready
            &&& !fast ==> next.0 is GoIdle && sends(next.1, 0, 0)
        },
        stage is HostControl ==> {
            &&& old(sdhci).is_high_capacity ==> next.0 == (SetupStage::Capabilities { fast: true })
            &&& !old(sdhci).is_high_capacity ==> next.0 is BlockLength && sends(next.1, 16, 512)
            &&& final(ops)@[old(ops)@.len() as int] matches RegisterOp::Modify {
                address,
                clear,
                set,
            } && address == old(sdhci).base_address + 0x28 && clear == 0xFF && set == (value
                % 0x100) as u8 | 2
        },
{
    if stage is HostControl {
        let set = ((value % 0x100) as u8) | 2;
        assert(set * 1 == set);
    }
}

/// Two register writes are at least six microseconds apart.
pub proof fn sd_writes_are_apart(last_write: u64, now: u64, frequency: u64, may: bool)
    requires
        6 * frequency <= u64::MAX,
        last_write <= now,
        frequency > 0,
        call_ensures(Sdhci::may_write, (last_write, now, frequency), may),
    ensures
        may <==> (now - last_write) * 1_000_000 >= 6 * frequency,
{
}

/// The wrapper of a command: "USBC", the tag, the length, the direction and the bytes of the command,
/// filled up with zeros to 31.
pub proof fn usb_wrapper_holds_its_command(
    tag: u32,
    length: u32,
    direction_in: bool,
    cdb: &[u8],
    wrapper: Vec<u8>,
    i: int,
)
    requires
        1 <= cdb@.len() <= 16,
        call_ensures(command_block_wrapper, (tag, length, direction_in, cdb), Some(wrapper)),
        0 <= i < 16,
    ensures
        wrapper@.len() == 31,
        wrapper@[0] == 0x55 && wrapper@[1] == 0x53 && wrapper@[2] == 0x42 && wrapper@[3] == 0x43,
        wrapper@[4] + 0x100 * wrapper@[5] + 0x1_0000 * wrapper@[6] + 0x100_0000 * wrapper@[7] == tag,
        wrapper@[8] + 0x100 * wrapper@[9] + 0x1_0000 * wrapper@[10] + 0x100_0000 * wrapper@[11]
            == length,
        wrapper@[12] == if direction_in {
            0x80u8
        } else {
            0
        },
        wrapper@[13] == 0,
        wrapper@[14] == cdb@.len(),
        wrapper@[15 + i] == if i < cdb@.len() {
            cdb@[i]
        } else {
            0
        },
{
}

/// An empty command, or one of more than sixteen bytes, has no wrapper.
pub proof fn usb_wrapper_takes_sixteen_bytes(
    tag: u32,
    length: u32,
    direction_in: bool,
    cdb: &[u8],
    wrapper: Option<Vec<u8>>,
)
    requires
        call_ensures(command_block_wrapper, (tag, length, direction_in, cdb), wrapper),
    ensures
        wrapper is Some <==> 1 <= cdb@.len() <= 16,
{
}

/// The status of a command: thirteen bytes that start with "USBS" and the tag of the command. The last
/// one is zero where the device has done it, and the residue is what it has not moved.
pub proof fn usb_status_is_that_of_the_command(
    csw: &[u8],
    moved: u64,
    tag: u32,
    transferred: u64,
    outcome: CommandOutcome,
)
    requires
        call_ensures(command_status, (csw, moved, tag, transferred), outcome),
    ensures
        ({
            let b = csw@;
            let is_answer = moved == 13 && b.len() == 13 && b[0] == 0x55 && b[1] == 0x53 && b[2]
                == 0x42 && b[3] == 0x53 && b[4] + 0x100 * b[5] + 0x1_0000 * b[6] + 0x100_0000 * b[7]
                == tag;
            let residue = b[8] + 0x100 * b[9] + 0x1_0000 * b[10] + 0x100_0000 * b[11];
            &&& outcome is Invalid <==> !is_answer
            &&& outcome is Refused <==> is_answer && b[12] != 0
            &&& outcome matches CommandOutcome::Done(n) ==> is_answer && b[12] == 0 && (if residue
                <= transferred {
                n == transferred - residue
            } else {
                n == 0
            })
        }),
{
    lemma_signature(csw@[0], csw@[1], csw@[2], csw@[3]);
}

proof fn lemma_signature(a: u8, b: u8, c: u8, d: u8)
    ensures
        a + 0x100 * b + 0x1_0000 * c + 0x100_0000 * d == 0x5342_5355 <==> a == 0x55 && b == 0x53 && c
            == 0x42 && d == 0x53,
{
    let n = a + 0x100 * b + 0x1_0000 * c + 0x100_0000 * d;
    if n == 0x5342_5355 {
        assert(n % 0x100 == a);
        assert(n / 0x100 % 0x100 == b);
        assert(n / 0x1_0000 % 0x100 == c);
        assert(n / 0x100_0000 == d);
    }
}

/// A command has a wrapper, its data where it has some, and a status, in this order.
pub proof fn usb_command_has_its_stages(
    command: &ScsiCommand,
    stage: CommandStage,
    moved: u64,
    next: CommandStage,
)
    requires
        call_ensures(ScsiCommand::execute_scsi_command, (command, stage, moved), next),
    ensures
        stage is Wrapper && command.length > 0 ==> next is Data,
        stage is Wrapper && command.length == 0 ==> next == (CommandStage::Status { transferred: 0 }),
        stage is Data ==> next == (CommandStage::Status { transferred: moved }),
{
}

/// What each step of setting the device up sends: INQUIRY, TEST UNIT READY, REQUEST SENSE, READ
/// CAPACITY(10) and READ CAPACITY(16), each with the room for its answer.
pub proof fn usb_setup_sends_its_commands(stage: StorageStage, command: Option<ScsiCommand>)
    requires
        call_ensures(UsbMassStorage::setup_command, (stage,), command),
    ensures
        stage is Inquiry ==> (command matches Some(c) && c.cdb@.len() == 6 && c.cdb@[0] == 0x12
            && c.cdb@[4] == 36 && c.length == 36 && c.direction_in),
        stage is TestReady ==> (command matches Some(c) && c.cdb@.len() == 6 && c.cdb@[0] == 0
            && c.length == 0),
        stage is Sense ==> (command matches Some(c) && c.cdb@.len() == 6 && c.cdb@[0] == 3
            && c.cdb@[4] == 18 && c.length == 18 && c.direction_in),
        stage is Capacity ==> (command matches Some(c) && c.cdb@.len() == 10 && c.cdb@[0] == 0x25
            && c.length == 8 && c.direction_in),
        stage is LongCapacity ==> (command matches Some(c) && c.cdb@.len() == 16 && c.cdb@[0] == 0x9E
            && c.cdb@[1] == 0x10 && c.cdb@[13] == 32 && c.length == 32 && c.direction_in),
        stage is Ready || stage is Failed ==> command is None,
{
}

/// How the device is set up: it is asked what it is, up to four times whether it is ready, and for its
/// capacity. The last block and the size of a block are the numbers that it answers, the most
/// significant byte first; a device of more than 32 bits of blocks is asked again.
pub proof fn usb_setup_takes_the_capacity(
    stage: StorageStage,
    bytes: &[u8],
    next: (StorageStage, Option<UsbMassStorage>),
)
    requires
        call_ensures(UsbMassStorage::new, (stage, Some(bytes)), next),
    ensures
        stage is Inquiry ==> next.0 == (StorageStage::TestReady { round: 0 }),
        stage is TestReady ==> next.0 is Capacity,
        stage is Capacity && bytes@.len() == 8 ==> {
            let b = bytes@;
            let last = 0x100_0000 * b[0] + 0x1_0000 * b[1] + 0x100 * b[2] + b[3];
            let size = 0x100_0000 * b[4] + 0x1_0000 * b[5] + 0x100 * b[6] + b[7];
            if last == 0xFFFF_FFFF {
                next.0 is LongCapacity && next.1 is None
            } else if size == 0 {
                next.0 is Failed && next.1 is None
            } else {
                next.0 is Ready && (next.1 matches Some(s) && s.last_lba == last && s.block_size
                    == size)
            }
        },
        stage is LongCapacity && bytes@.len() == 32 ==> {
            let b = bytes@;
            let last = 0x1_0000_0000 * (0x100_0000 * b[0] + 0x1_0000 * b[1] + 0x100 * b[2] + b[3])
                + 0x100_0000 * b[4] + 0x1_0000 * b[5] + 0x100 * b[6] + b[7];
            let size = 0x100_0000 * b[8] + 0x1_0000 * b[9] + 0x100 * b[10] + b[11];
            if size == 0 {
                next.0 is Failed && next.1 is None
            } else {
                next.0 is Ready && (next.1 matches Some(s) && s.last_lba == last && s.block_size
                    == size)
            }
        },
        stage is Capacity && bytes@.len() != 8 || stage is LongCapacity && bytes@.len() != 32
            ==> next.0 is Failed,
{
}

/// What follows where the device does not answer.
pub proof fn usb_setup_asks_again(
    stage: StorageStage,
    next: (StorageStage, Option<UsbMassStorage>),
)
    requires
        call_ensures(UsbMassStorage::new, (stage, None::<&[u8]>), next),
    ensures
        stage is Inquiry || stage is Capacity || stage is LongCapacity ==> next.0 is Failed,
        stage matches StorageStage::TestReady { round } ==> next.0 == (StorageStage::Sense { round }),
        stage matches StorageStage::Sense { round } ==> next.0 == if round < 3 {
            StorageStage::TestReady { round: (round + 1) as u32 }
        } else {
            StorageStage::Capacity
        },
        next.1 is None,
{
}

/// Once a command has moved all its blocks, the request goes on behind them, on the device and in the
/// buffer; otherwise it has failed.
pub proof fn usb_request_goes_on_behind_its_command(
    storage: &mut UsbMassStorage,
    request: &BlockRequest,
    command: ScsiCommand,
    moved: u64,
    result: Result<BlockRequest, ()>,
)
    requires
        old(storage).wf(),
        request.fits(old(storage).block_size),
        call_ensures(
            UsbMassStorage::next_command,
            (storage, request),
            RequestStep::Command(command),
        ),
        request.lba + request.count() <= u64::MAX,
        call_ensures(UsbMassStorage::advance, (&*final(storage), request, moved), result),
    ensures
        result is Ok <==> moved == command.length,
        result matches Ok(rest) ==> {
            let count = 0x100 * command.cdb@[7] + command.cdb@[8];
            &&& rest.lba == request.lba + count
            &&& rest.blocks == request.blocks - count
            &&& rest.buffer_address == request.buffer_address + command.length
            &&& rest.is_write == request.is_write
        },
{
    crate::drivers::usb_mass_storage::commands_cover_the_request(
        *request,
        old(storage).block_size,
    );
}

/// A Virtio device is used before an SD card, and that before USB storage.
pub proof fn backend_is_the_first_that_is_there(
    virtio: Option<u64>,
    sdhci: Option<Sdhci>,
    usb: Option<UsbMassStorage>,
    backend: Option<BlockBackend>,
)
    requires
        call_ensures(BlockBackend::select, (virtio, sdhci, usb), backend),
    ensures
        virtio is Some ==> backend == Some(BlockBackend::Virtio(virtio->0)),
        virtio is None && sdhci is Some ==> backend == Some(BlockBackend::Sdhci(sdhci->0)),
        virtio is None && sdhci is None && usb is Some ==> backend == Some(
            BlockBackend::Usb(usb->0),
        ),
        virtio is None && sdhci is None && usb is None ==> backend is None,
{
}

/// Every backend plans what it was asked for: a read as a read and a write as a write.
pub proof fn backend_plans_what_was_asked_for(
    read: bool,
    backend: &mut BlockBackend,
    buffer_address: u64,
    block_address: u64,
    length: u64,
    ops: &mut Vec<RegisterOp>,
    plan: BlockPlan,
)
    requires
        old(backend).wf(),
        buffer_address + length <= u64::MAX,
        length < 0x200_0000_0000,
        read ==> call_ensures(
            BlockBackend::read,
            (backend, buffer_address, block_address, length, ops),
            Ok(plan),
        ),
        !read ==> call_ensures(
            BlockBackend::write,
            (backend, buffer_address, block_address, length, ops),
            Ok(plan),
        ),
    ensures
        match plan {
            BlockPlan::Virtio { base_address, buffer_address: b, block_address: a, length: l } => *old(
                backend,
            ) == BlockBackend::Virtio(base_address) && b == buffer_address && a == block_address
                && l == length,
            BlockPlan::Sdhci(None) => *old(backend) is Sdhci && length == 0,
            BlockPlan::Sdhci(Some(operation)) => *old(backend) is Sdhci && operation.is_write
                == !read && operation.number_of_blocks * 512 == length,
            BlockPlan::Usb(request) => *old(backend) is Usb && request.is_write == !read
                && request.buffer_address == buffer_address,
        },
        !(*old(backend) is Invalid),
{
}

} // verus!
