//! USB Mass Storage (Bulk-Only Transport / SCSI) driver.
//!
//! The minimal subset of commands that makes a USB flash drive a block device. The transfers
//! themselves are those of the xHCI driver.

use vstd::prelude::*;

verus! {

pub const CBW_SIGNATURE: u32 = 0x4342_5355;

pub const CSW_SIGNATURE: u32 = 0x5342_5355;

pub const SCSI_TEST_UNIT_READY: u8 = 0x00;

pub const SCSI_REQUEST_SENSE: u8 = 0x03;

pub const SCSI_INQUIRY: u8 = 0x12;

pub const SCSI_READ_CAPACITY_10: u8 = 0x25;

pub const SCSI_READ_10: u8 = 0x28;

pub const SCSI_WRITE_10: u8 = 0x2A;

pub const SCSI_SERVICE_ACTION_IN_16: u8 = 0x9E;

pub const SCSI_SAI_READ_CAPACITY_16: u8 = 0x10;

/// How many blocks one command moves at most.
pub const MAX_BLOCKS_PER_COMMAND: u64 = 0xFFFF;

/// The four bytes of a number, the least significant first.
pub open spec fn le_bytes(value: u32) -> Seq<u8> {
    seq![
        (value % 0x100) as u8,
        ((value / 0x100) % 0x100) as u8,
        ((value / 0x1_0000) % 0x100) as u8,
        (value / 0x100_0000) as u8,
    ]
}

/// The number in four bytes, the least significant first.
pub open spec fn le32(bytes: Seq<u8>, i: int) -> int {
    bytes[i] + 0x100 * bytes[i + 1] + 0x1_0000 * bytes[i + 2] + 0x100_0000 * bytes[i + 3]
}

/// The number in four bytes, the most significant first.
pub open spec fn be32(bytes: Seq<u8>, i: int) -> int {
    0x100_0000 * bytes[i] + 0x1_0000 * bytes[i + 1] + 0x100 * bytes[i + 2] + bytes[i + 3]
}

fn push_le32(bytes: &mut Vec<u8>, value: u32)
    ensures
        final(bytes)@ == old(bytes)@ + le_bytes(value),
{
    bytes.push((value % 0x100) as u8);
    bytes.push(((value / 0x100) % 0x100) as u8);
    bytes.push(((value / 0x1_0000) % 0x100) as u8);
    bytes.push((value / 0x100_0000) as u8);
    assert(bytes@ =~= old(bytes)@ + le_bytes(value));
}

fn read_le32(bytes: &[u8], i: usize) -> (value: u32)
    requires
        i + 4 <= bytes@.len(),
    ensures
        value == le32(bytes@, i as int),
{
    bytes[i] as u32 + 0x100 * (bytes[i + 1] as u32) + 0x1_0000 * (bytes[i + 2] as u32)
        + 0x100_0000 * (bytes[i + 3] as u32)
}

fn read_be32(bytes: &[u8], i: usize) -> (value: u32)
    requires
        i + 4 <= bytes@.len(),
    ensures
        value == be32(bytes@, i as int),
{
    0x100_0000 * (bytes[i] as u32) + 0x1_0000 * (bytes[i + 1] as u32) + 0x100 * (bytes[i + 2]
        as u32) + bytes[i + 3] as u32
}

/// A number reads back from its bytes.
pub proof fn le_bytes_read_back(value: u32)
    ensures
        le32(le_bytes(value), 0) == value,
{
}

/// The wrapper of a command: its signature, tag, length, direction and bytes, filled up with zeros.
pub open spec fn wrapper_of(tag: u32, length: u32, direction_in: bool, cdb: Seq<u8>) -> Seq<u8> {
    le_bytes(CBW_SIGNATURE) + le_bytes(tag) + le_bytes(length) + seq![
        if direction_in {
            0x80u8
        } else {
            0u8
        },
        0u8,
        cdb.len() as u8,
    ] + cdb + Seq::new((16 - cdb.len()) as nat, |i: int| 0u8)
}

/// The wrapper of a command.
pub fn command_block_wrapper(tag: u32, transfer_length: u32, direction_in: bool, cdb: &[u8]) -> (wrapper:
    Option<Vec<u8>>)
    ensures
        match wrapper {
            Some(bytes) => {
                &&& 1 <= cdb@.len() <= 16
                &&& bytes@ == wrapper_of(tag, transfer_length, direction_in, cdb@)
                &&& bytes@.len() == 31
            },
            None => !(1 <= cdb@.len() <= 16),
        },
{
    let length: usize = cdb.len();
    if length == 0 || length > 16 {
        return None;
    }
    let mut bytes: Vec<u8> = Vec::new();
    push_le32(&mut bytes, CBW_SIGNATURE);
    push_le32(&mut bytes, tag);
    push_le32(&mut bytes, transfer_length);
    bytes.push(
        if direction_in {
            0x80
        } else {
            0
        },
    );
    bytes.push(0);
    bytes.push(length as u8);
    let ghost header = bytes@;
    let ghost padded = cdb@ + Seq::new((16 - cdb@.len()) as nat, |i: int| 0u8);
    let mut i: usize = 0;
    while i < 16
        invariant
            i <= 16,
            length == cdb@.len(),
            length <= 16,
            padded == cdb@ + Seq::new((16 - cdb@.len()) as nat, |i: int| 0u8),
            bytes@ == header + padded.take(i as int),
        decreases 16 - i,
    {
        let byte: u8 = if i < length {
            cdb[i]
        } else {
            0
        };
        bytes.push(byte);
        i = i + 1;
        assert(padded.take(i as int) =~= padded.take(i - 1).push(byte));
        assert(bytes@ =~= header + padded.take(i as int));
    }
    assert(bytes@ =~= wrapper_of(tag, transfer_length, direction_in, cdb@));
    Some(bytes)
}

/// What the status wrapper of a command says.
#[derive(Clone, Copy, PartialEq, Eq, Debug, Structural)]
pub enum CommandOutcome {
    /// This many bytes were moved.
    Done(u64),
    /// The answer is not one to this command.
    Invalid,
    /// The device has refused the command. It is to be asked for the reason, under this tag.
    Refused { sense_tag: u32 },
}

/// What the status wrapper `csw`, of which `moved` bytes arrived, says of the command with this tag,
/// whose data stage moved `transferred` bytes.
pub open spec fn outcome_of(csw: Seq<u8>, moved: int, tag: u32, transferred: u64) -> CommandOutcome {
    if moved != 13 || csw.len() != 13 || le32(csw, 0) != CSW_SIGNATURE || le32(csw, 4) != tag {
        CommandOutcome::Invalid
    } else if csw[12] != 0 {
        CommandOutcome::Refused { sense_tag: tag.wrapping_add(0x1000) }
    } else if transferred < le32(csw, 8) {
        CommandOutcome::Done(0)
    } else {
        CommandOutcome::Done((transferred - le32(csw, 8)) as u64)
    }
}

/// What the status wrapper says of a command.
pub fn command_status(csw: &[u8], moved: u64, tag: u32, transferred: u64) -> (outcome: CommandOutcome)
    ensures
        outcome == outcome_of(csw@, moved as int, tag, transferred),
{
    if moved != 13 || csw.len() != 13 {
        return CommandOutcome::Invalid;
    }
    if read_le32(csw, 0) != CSW_SIGNATURE || read_le32(csw, 4) != tag {
        return CommandOutcome::Invalid;
    }
    if csw[12] != 0 {
        return CommandOutcome::Refused { sense_tag: tag.wrapping_add(0x1000) };
    }
    CommandOutcome::Done(transferred.saturating_sub(read_le32(csw, 8) as u64))
}

/// A command for the device.
pub struct ScsiCommand {
    pub tag: u32,
    pub cdb: Vec<u8>,
    pub length: u64,
    pub direction_in: bool,
}

/// How far a command is. A command has up to three transfers.
#[derive(Clone, Copy, PartialEq, Eq, Debug, Structural)]
pub enum CommandStage {
    /// The wrapper goes out.
    Wrapper,
    /// The data goes in or out.
    Data,
    /// The status comes in, after this many bytes of data.
    Status { transferred: u64 },
}

/// The stage behind the one that moved `moved` bytes.
pub open spec fn stage_after(stage: CommandStage, length: u64, moved: u64) -> CommandStage {
    match stage {
        CommandStage::Wrapper => if length != 0 {
            CommandStage::Data
        } else {
            CommandStage::Status { transferred: 0 }
        },
        CommandStage::Data => CommandStage::Status { transferred: moved },
        CommandStage::Status { .. } => stage,
    }
}

impl ScsiCommand {
    /// The stage behind the one that moved `moved` bytes.
    pub fn execute_scsi_command(&self, stage: CommandStage, moved: u64) -> (next: CommandStage)
        ensures
            next == stage_after(stage, self.length, moved),
    {
        match stage {
            CommandStage::Wrapper => if self.length != 0 {
                CommandStage::Data
            } else {
                CommandStage::Status { transferred: 0 }
            },
            CommandStage::Data => CommandStage::Status { transferred: moved },
            CommandStage::Status { .. } => stage,
        }
    }

    /// Asks the device for the reason of a failure.
    pub fn request_sense(tag: u32) -> (command: Self)
        ensures
            command.tag == tag,
            command.cdb@ == seq![3u8, 0, 0, 0, 18, 0],
            command.length == 18,
            command.direction_in,
    {
        let cdb: Vec<u8> = vec![SCSI_REQUEST_SENSE, 0, 0, 0, 18, 0];
        assert(cdb@ =~= seq![3u8, 0, 0, 0, 18, 0]);
        Self { tag, cdb, length: 18, direction_in: true }
    }
}

pub struct UsbMassStorage {
    pub tag: u32,
    pub block_size: u32,
    pub last_lba: u64,
}

/// How far the setup of the device is.
#[derive(Clone, Copy, PartialEq, Eq, Debug, Structural)]
pub enum StorageStage {
    Inquiry,
    TestReady { round: u32 },
    Sense { round: u32 },
    Capacity,
    LongCapacity,
    Ready,
    Failed,
}

/// What follows on the answer to a command: the data that it read, or `None` where it failed. The
/// device is asked up to four times whether it is ready, and used even if it never says so.
pub open spec fn stage_next(stage: StorageStage, data: Option<Seq<u8>>) -> (
    StorageStage,
    Option<(u64, u32)>,
) {
    match stage {
        StorageStage::Inquiry => match data {
            Some(_) => (StorageStage::TestReady { round: 0 }, None),
            None => (StorageStage::Failed, None),
        },
        StorageStage::TestReady { round } => match data {
            Some(_) => (StorageStage::Capacity, None),
            None => (StorageStage::Sense { round }, None),
        },
        StorageStage::Sense { round } => if round < 3 {
            (StorageStage::TestReady { round: (round + 1) as u32 }, None)
        } else {
            (StorageStage::Capacity, None)
        },
        StorageStage::Capacity => match data {
            Some(bytes) => if bytes.len() != 8 {
                (StorageStage::Failed, None)
            } else if be32(bytes, 0) == 0xFFFF_FFFF {
                (StorageStage::LongCapacity, None)
            } else {
                ready(be32(bytes, 0) as u64, be32(bytes, 4) as u32)
            },
            None => (StorageStage::Failed, None),
        },
        StorageStage::LongCapacity => match data {
            Some(bytes) => if bytes.len() != 32 {
                (StorageStage::Failed, None)
            } else {
                ready(
                    (0x1_0000_0000 * be32(bytes, 0) + be32(bytes, 4)) as u64,
                    be32(bytes, 8) as u32,
                )
            },
            None => (StorageStage::Failed, None),
        },
        _ => (stage, None),
    }
}

/// The last block and the size of a block are known. A device without block size is of no use.
pub open spec fn ready(last_lba: u64, block_size: u32) -> (StorageStage, Option<(u64, u32)>) {
    if block_size == 0 {
        (StorageStage::Failed, None)
    } else {
        (StorageStage::Ready, Some((last_lba, block_size)))
    }
}

/// The command bytes, length and direction of the command that a stage waits for, and its tag.
pub open spec fn command_of(stage: StorageStage) -> Option<(u32, Seq<u8>, u64, bool)> {
    match stage {
        StorageStage::Inquiry => Some((1, seq![0x12u8, 0, 0, 0, 36, 0], 36, true)),
        StorageStage::TestReady { .. } => Some((2, seq![0u8, 0, 0, 0, 0, 0], 0, false)),
        StorageStage::Sense { .. } => Some((3, seq![3u8, 0, 0, 0, 18, 0], 18, true)),
        StorageStage::Capacity => Some((4, seq![0x25u8, 0, 0, 0, 0, 0, 0, 0, 0, 0], 8, true)),
        StorageStage::LongCapacity => Some(
            (
                5,
                seq![0x9Eu8, 0x10, 0, 0, 0, 0, 0, 0, 0, 0, 0, 0, 0, 32, 0, 0],
                32,
                true,
            ),
        ),
        _ => None,
    }
}

/// Blocks that are still to be moved.
#[derive(Clone, Copy, PartialEq, Eq, Debug, Structural)]
pub struct BlockRequest {
    pub lba: u64,
    pub blocks: u64,
    pub buffer_address: u64,
    pub is_write: bool,
}

impl BlockRequest {
    /// How many blocks the next command moves.
    pub open spec fn count(self) -> int {
        if self.blocks < MAX_BLOCKS_PER_COMMAND {
            self.blocks as int
        } else {
            MAX_BLOCKS_PER_COMMAND as int
        }
    }

    /// The command that moves `count` blocks from `lba` on. The block number has 32 bits.
    pub open spec fn cdb(self) -> Seq<u8> {
        let lba = self.lba as int % 0x1_0000_0000;
        seq![
            if self.is_write {
                0x2Au8
            } else {
                0x28u8
            },
            0u8,
            (lba / 0x100_0000) as u8,
            ((lba / 0x1_0000) % 0x100) as u8,
            ((lba / 0x100) % 0x100) as u8,
            (lba % 0x100) as u8,
            0u8,
            (self.count() / 0x100) as u8,
            (self.count() % 0x100) as u8,
            0u8,
        ]
    }

    /// What is left once the next command has moved its blocks.
    pub open spec fn rest(self, block_size: u32) -> BlockRequest {
        BlockRequest {
            lba: (self.lba + self.count()) as u64,
            blocks: (self.blocks - self.count()) as u64,
            buffer_address: (self.buffer_address + self.count() * block_size) as u64,
            ..self
        }
    }
}

/// The next command of a request.
pub enum RequestStep {
    Finished,
    /// The request reaches behind the last block.
    Refused,
    Command(ScsiCommand),
}

impl UsbMassStorage {
    /// Takes the data that the command of a stage has read, and tells the next stage. The device is
    /// there once its capacity is known.
    pub fn new(stage: StorageStage, data: Option<&[u8]>) -> (next: (StorageStage, Option<Self>))
        ensures
            ({
                let (after, capacity) = stage_next(
                    stage,
                    match data {
                        Some(bytes) => Some(bytes@),
                        None => None,
                    },
                );
                &&& next.0 == after
                &&& match capacity {
                    Some((last_lba, block_size)) => {
                        &&& next.1 matches Some(storage) && storage.tag == 5
                            && storage.last_lba == last_lba && storage.block_size == block_size
                            && storage.wf()
                    },
                    None => next.1 is None,
                }
            }),
    {
        match stage {
            StorageStage::Inquiry => if data.is_some() {
                (StorageStage::TestReady { round: 0 }, None)
            } else {
                (StorageStage::Failed, None)
            },
            StorageStage::TestReady { round } => if data.is_some() {
                (StorageStage::Capacity, None)
            } else {
                (StorageStage::Sense { round }, None)
            },
            StorageStage::Sense { round } => if round < 3 {
                (StorageStage::TestReady { round: round + 1 }, None)
            } else {
                (StorageStage::Capacity, None)
            },
            StorageStage::Capacity => match data {
                Some(bytes) => {
                    if bytes.len() != 8 {
                        return (StorageStage::Failed, None);
                    }
                    let last_lba: u32 = read_be32(bytes, 0);
                    if last_lba == u32::MAX {
                        return (StorageStage::LongCapacity, None);
                    }
                    Self::with_capacity(last_lba as u64, read_be32(bytes, 4))
                },
                None => (StorageStage::Failed, None),
            },
            StorageStage::LongCapacity => match data {
                Some(bytes) => {
                    if bytes.len() != 32 {
                        return (StorageStage::Failed, None);
                    }
                    let last_lba: u64 = 0x1_0000_0000 * (read_be32(bytes, 0) as u64) + read_be32(
                        bytes,
                        4,
                    ) as u64;
                    Self::with_capacity(last_lba, read_be32(bytes, 8))
                },
                None => (StorageStage::Failed, None),
            },
            _ => (stage, None),
        }
    }

    fn with_capacity(last_lba: u64, block_size: u32) -> (next: (StorageStage, Option<Self>))
        ensures
            next.0 == ready(last_lba, block_size).0,
            match ready(last_lba, block_size).1 {
                Some(_) => next.1 matches Some(storage) && storage.tag == 5 && storage.last_lba
                    == last_lba && storage.block_size == block_size && storage.wf(),
                None => next.1 is None,
            },
    {
        if block_size == 0 {
            (StorageStage::Failed, None)
        } else {
            (StorageStage::Ready, Some(Self { tag: 5, block_size, last_lba }))
        }
    }

    /// The command that a stage of the setup waits for.
    pub fn setup_command(stage: StorageStage) -> (command: Option<ScsiCommand>)
        ensures
            match command_of(stage) {
                Some((tag, cdb, length, direction_in)) => command matches Some(c) && c.tag == tag
                    && c.cdb@ == cdb && c.length == length && c.direction_in == direction_in,
                None => command is None,
            },
    {
        match stage {
            StorageStage::Inquiry => {
                let cdb: Vec<u8> = vec![SCSI_INQUIRY, 0, 0, 0, 36, 0];
                assert(cdb@ =~= seq![0x12u8, 0, 0, 0, 36, 0]);
                Some(ScsiCommand { tag: 1, cdb, length: 36, direction_in: true })
            },
            StorageStage::TestReady { .. } => {
                let cdb: Vec<u8> = vec![SCSI_TEST_UNIT_READY, 0, 0, 0, 0, 0];
                assert(cdb@ =~= seq![0u8, 0, 0, 0, 0, 0]);
                Some(ScsiCommand { tag: 2, cdb, length: 0, direction_in: false })
            },
            StorageStage::Sense { .. } => Some(ScsiCommand::request_sense(3)),
            StorageStage::Capacity => {
                let cdb: Vec<u8> = vec![SCSI_READ_CAPACITY_10, 0, 0, 0, 0, 0, 0, 0, 0, 0];
                assert(cdb@ =~= seq![0x25u8, 0, 0, 0, 0, 0, 0, 0, 0, 0]);
                Some(ScsiCommand { tag: 4, cdb, length: 8, direction_in: true })
            },
            StorageStage::LongCapacity => {
                let cdb: Vec<u8> = vec![
                    SCSI_SERVICE_ACTION_IN_16,
                    SCSI_SAI_READ_CAPACITY_16,
                    0,
                    0,
                    0,
                    0,
                    0,
                    0,
                    0,
                    0,
                    0,
                    0,
                    0,
                    32,
                    0,
                    0,
                ];
                assert(cdb@ =~= seq![0x9Eu8, 0x10, 0, 0, 0, 0, 0, 0, 0, 0, 0, 0, 0, 32, 0, 0]);
                Some(ScsiCommand { tag: 5, cdb, length: 32, direction_in: true })
            },
            _ => None,
        }
    }

    pub open spec fn wf(&self) -> bool {
        self.block_size > 0
    }

    /// The blocks of a read or write of `length` bytes at the byte `block_address`. `None` where it
    /// is not made of whole blocks.
    pub open spec fn requested(
        &self,
        buffer_address: u64,
        block_address: u64,
        length: u64,
        is_write: bool,
    ) -> Option<BlockRequest> {
        if block_address as int % self.block_size as int != 0 || length as int
            % self.block_size as int != 0 {
            None
        } else {
            Some(
                BlockRequest {
                    lba: (block_address as int / self.block_size as int) as u64,
                    blocks: (length as int / self.block_size as int) as u64,
                    buffer_address,
                    is_write,
                },
            )
        }
    }

    fn request(&self, buffer_address: u64, block_address: u64, length: u64, is_write: bool) -> (request:
        Option<BlockRequest>)
        requires
            self.wf(),
            buffer_address + length <= u64::MAX,
        ensures
            request == self.requested(buffer_address, block_address, length, is_write),
            request matches Some(r) ==> r.fits(self.block_size),
    {
        let block_size: u64 = self.block_size as u64;
        if block_address % block_size != 0 || length % block_size != 0 {
            return None;
        }
        proof {
            vstd::arithmetic::div_mod::lemma_fundamental_div_mod(
                length as int,
                block_size as int,
            );
            vstd::arithmetic::div_mod::lemma_fundamental_div_mod(
                block_address as int,
                block_size as int,
            );
            vstd::arithmetic::mul::lemma_mul_is_commutative(
                length as int / block_size as int,
                block_size as int,
            );
            lemma_quotient(block_address as int, block_size as int);
            lemma_quotient(length as int, block_size as int);
        }
        Some(
            BlockRequest {
                lba: block_address / block_size,
                blocks: length / block_size,
                buffer_address,
                is_write,
            },
        )
    }

    /// The blocks of a read.
    pub fn read(&self, buffer_address: u64, block_address: u64, length: u64) -> (request: Result<
        BlockRequest,
        (),
    >)
        requires
            self.wf(),
            buffer_address + length <= u64::MAX,
        ensures
            match self.requested(buffer_address, block_address, length, false) {
                Some(r) => request == Ok::<BlockRequest, ()>(r) && r.fits(self.block_size),
                None => request is Err,
            },
    {
        match self.request(buffer_address, block_address, length, false) {
            Some(request) => Ok(request),
            None => Err(()),
        }
    }

    /// The blocks of a write.
    pub fn write(&self, buffer_address: u64, block_address: u64, length: u64) -> (request: Result<
        BlockRequest,
        (),
    >)
        requires
            self.wf(),
            buffer_address + length <= u64::MAX,
        ensures
            match self.requested(buffer_address, block_address, length, true) {
                Some(r) => request == Ok::<BlockRequest, ()>(r) && r.fits(self.block_size),
                None => request is Err,
            },
    {
        match self.request(buffer_address, block_address, length, true) {
            Some(request) => Ok(request),
            None => Err(()),
        }
    }

    /// The next command of a request, if there is one, under the next tag.
    pub fn next_command(&mut self, request: &BlockRequest) -> (step: RequestStep)
        requires
            old(self).wf(),
            request.fits(old(self).block_size),
        ensures
            final(self).wf(),
            final(self).block_size == old(self).block_size,
            final(self).last_lba == old(self).last_lba,
            if request.blocks == 0 {
                step is Finished && final(self).tag == old(self).tag
            } else if request.lba + request.count() - 1 > old(self).last_lba {
                step is Refused && final(self).tag == old(self).tag
            } else {
                &&& step matches RequestStep::Command(command) && command.tag == old(self).tag
                    && command.cdb@ == request.cdb() && command.length == request.count() * old(
                    self,
                ).block_size && command.direction_in == !request.is_write
                &&& final(self).tag == old(self).tag.wrapping_add(1)
            },
    {
        if request.blocks == 0 {
            return RequestStep::Finished;
        }
        let blocks: u64 = if request.blocks < MAX_BLOCKS_PER_COMMAND {
            request.blocks
        } else {
            MAX_BLOCKS_PER_COMMAND
        };
        match request.lba.checked_add(blocks - 1) {
            Some(end) => if end > self.last_lba {
                return RequestStep::Refused;
            },
            None => {
                return RequestStep::Refused;
            },
        }
        let lba: u64 = request.lba % 0x1_0000_0000;
        let cdb: Vec<u8> = vec![
            if request.is_write {
                SCSI_WRITE_10
            } else {
                SCSI_READ_10
            },
            0,
            (lba / 0x100_0000) as u8,
            ((lba / 0x1_0000) % 0x100) as u8,
            ((lba / 0x100) % 0x100) as u8,
            (lba % 0x100) as u8,
            0,
            (blocks / 0x100) as u8,
            (blocks % 0x100) as u8,
            0,
        ];
        assert(cdb@ =~= request.cdb());
        proof {
            assert(blocks * self.block_size <= 0xFFFF * 0xFFFF_FFFF) by (nonlinear_arith)
                requires
                    0 <= blocks <= 0xFFFF,
                    0 <= self.block_size <= 0xFFFF_FFFF,
            ;
            assert(0 <= blocks * self.block_size) by (nonlinear_arith)
                requires
                    0 <= blocks,
                    0 <= self.block_size,
            ;
        }
        let tag: u32 = self.tag;
        self.tag = self.tag.wrapping_add(1);
        RequestStep::Command(
            ScsiCommand {
                tag,
                cdb,
                length: blocks * (self.block_size as u64),
                direction_in: !request.is_write,
            },
        )
    }

    /// What is left once the command of a request has moved `moved` bytes. `Err` where that is not
    /// all of them.
    pub fn advance(&self, request: &BlockRequest, moved: u64) -> (result: Result<BlockRequest, ()>)
        requires
            self.wf(),
            request.fits(self.block_size),
            request.lba + request.count() <= u64::MAX,
        ensures
            if moved == request.count() * self.block_size {
                result == Ok::<BlockRequest, ()>(request.rest(self.block_size)) && request.rest(
                    self.block_size,
                ).fits(self.block_size)
            } else {
                result is Err
            },
    {
        let blocks: u64 = if request.blocks < MAX_BLOCKS_PER_COMMAND {
            request.blocks
        } else {
            MAX_BLOCKS_PER_COMMAND
        };
        proof {
            lemma_rest_fits(*request, self.block_size);
            assert(blocks * self.block_size <= 0xFFFF * 0xFFFF_FFFF) by (nonlinear_arith)
                requires
                    0 <= blocks <= 0xFFFF,
                    0 <= self.block_size <= 0xFFFF_FFFF,
            ;
            assert(0 <= blocks * self.block_size) by (nonlinear_arith)
                requires
                    0 <= blocks,
                    0 <= self.block_size,
            ;
        }
        let bytes: u64 = blocks * (self.block_size as u64);
        if moved != bytes {
            return Err(());
        }
        Ok(
            BlockRequest {
                lba: request.lba + blocks,
                blocks: request.blocks - blocks,
                buffer_address: request.buffer_address + bytes,
                is_write: request.is_write,
            },
        )
    }
}

impl BlockRequest {
    /// The buffer is inside the address space.
    pub open spec fn fits(self, block_size: u32) -> bool {
        self.buffer_address + self.blocks * block_size <= u64::MAX
    }
}

/// A number divided by a positive one.
proof fn lemma_quotient(x: int, y: int)
    requires
        0 <= x <= u64::MAX,
        0 < y,
        x % y == 0,
    ensures
        0 <= x / y <= x,
        y >= 2 ==> x / y <= u64::MAX / 2,
{
    vstd::arithmetic::div_mod::lemma_div_pos_is_pos(x, y);
    vstd::arithmetic::div_mod::lemma_div_is_ordered_by_denominator(x, 1, y);
    vstd::arithmetic::div_mod::lemma_div_by_self(1);
    if y >= 2 {
        vstd::arithmetic::div_mod::lemma_div_is_ordered_by_denominator(x, 2, y);
    }
}

/// The rest of a request fits where the request does.
proof fn lemma_rest_fits(request: BlockRequest, block_size: u32)
    requires
        request.fits(block_size),
    ensures
        request.rest(block_size).fits(block_size),
        request.buffer_address + request.count() * block_size <= u64::MAX,
{
    let a = request.count();
    let b = request.blocks - a;
    assert(request.blocks * block_size == a * block_size + b * block_size) by (nonlinear_arith)
        requires
            request.blocks == a + b,
    ;
    assert(0 <= b * block_size) by (nonlinear_arith)
        requires
            0 <= b,
            0 <= block_size,
    ;
    assert(0 <= a * block_size) by (nonlinear_arith)
        requires
            0 <= a,
            0 <= block_size,
    ;
}

/// The commands of a request move its blocks one after the other: the rest starts where the command
/// ends, in the device and in the buffer, and is shorter.
pub proof fn commands_cover_the_request(request: BlockRequest, block_size: u32)
    requires
        request.fits(block_size),
        request.lba + request.count() <= u64::MAX,
        request.blocks > 0,
    ensures
        ({
            let rest = request.rest(block_size);
            &&& rest.lba == request.lba + request.count()
            &&& rest.lba + rest.blocks == request.lba + request.blocks
            &&& rest.buffer_address == request.buffer_address + request.count() * block_size
            &&& rest.blocks < request.blocks
        }),
{
    lemma_rest_fits(request, block_size);
    assert(0 <= request.count() * block_size) by (nonlinear_arith)
        requires
            0 <= request.count(),
            0 <= block_size,
    ;
}

/// The block number and count of a command read back from its bytes.
#[verifier::rlimit(40)]
pub proof fn command_names_its_blocks(request: BlockRequest)
    requires
        request.lba <= u32::MAX,
    ensures
        be32(request.cdb(), 2) == request.lba,
        0x100 * request.cdb()[7] + request.cdb()[8] == request.count(),
{
}

} // verus!
