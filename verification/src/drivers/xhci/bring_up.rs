//! How the controller is brought up: it is halted, reset, told where its memory is, and started.
//!
//! The controller has been seen to report a Host System Error, or to stay halted, on a first
//! attempt. A reset clears that state, so the whole sequence is tried a few times.

use crate::dma::{DmaRegion, IoOp};
use crate::drivers::xhci::controller::{
    Xhci, HALT_TIMEOUT_US, MAX_ATTEMPTS, RESET_TIMEOUT_US, USBCMD_RESET, USBCMD_RUN, USBSTS_CNR,
    USBSTS_HALT, USBSTS_HSE,
};
use crate::free_memory::FreeMemory;
use crate::memory_allocator::MemoryAllocator;
use vstd::prelude::*;

verus! {

/// How far the controller is, and what it is waited for.
#[derive(Clone, Copy, PartialEq, Eq, Debug, Structural)]
pub enum BringUpState {
    /// The status register, whose bits are to be cleared.
    ClearStatus { attempt: u32 },
    /// The status register, which says whether the controller runs.
    CheckHalted { attempt: u32 },
    /// The command register of a controller that is to halt.
    StopRunning { attempt: u32 },
    AwaitHalted { attempt: u32 },
    /// The command register of a controller that is to be reset.
    ResetCommand { attempt: u32 },
    AwaitReset { attempt: u32 },
    AwaitReady { attempt: u32 },
    /// The configuration register.
    Configure { attempt: u32 },
    /// The command register of a controller that is to start.
    StartCommand { attempt: u32 },
    /// The status register shortly after the start.
    Settle { attempt: u32, round: u32 },
    AwaitRunning { attempt: u32 },
    Done,
    Failed,
}

/// What is to be done next, once the accesses are made.
#[derive(Clone, Copy, PartialEq, Eq, Debug, Structural)]
pub enum BringUpAction {
    /// The register is read, after a delay.
    Read { address: u64, delay_us: u64 },
    /// The register is read until the bits of `mask` are those of `expected`, or the time is over.
    /// The answer is 1 or 0.
    Wait { address: u64, mask: u32, expected: u32, timeout_us: u64 },
    Ready,
    Failed,
}

/// How many pages the controller wants for itself.
pub open spec fn scratchpad_count(hcsparams2: u32) -> int {
    (hcsparams2 as int / 0x20_0000) % 32 * 32 + hcsparams2 as int / 0x800_0000
}

/// The first `n` entries of the scratchpad array.
pub open spec fn scratchpad_entries(
    array: DmaRegion,
    buffers: DmaRegion,
    page_size: int,
    dma_offset: u64,
    n: nat,
) -> Seq<IoOp>
    decreases n,
{
    if n == 0 {
        Seq::empty()
    } else {
        scratchpad_entries(array, buffers, page_size, dma_offset, (n - 1) as nat)
            + crate::dma::write64_ops(
            array.address + 8 * (n - 1),
            (buffers.address + (n - 1) * page_size + dma_offset) as u64,
        )
    }
}

/// What came of giving the controller its pages.
pub struct Scratchpads {
    pub success: bool,
    pub memory: FreeMemory,
    pub regions: Option<(DmaRegion, DmaRegion)>,
    pub ops: Seq<IoOp>,
}

/// What came of one step.
pub struct BringUpStep {
    pub state: BringUpState,
    pub action: BringUpAction,
    pub memory: FreeMemory,
    pub regions: Option<(DmaRegion, DmaRegion)>,
    pub ops: Seq<IoOp>,
}

/// The largest multiple of `unit` that is not above `value`.
pub open spec fn masked(value: int, unit: int) -> u64 {
    (value - value % unit) as u64
}

impl Xhci {
    pub open spec fn page_size(&self) -> int {
        vstd::arithmetic::power2::pow2(self.page_order as nat) as int
    }

    pub open spec fn scratchpads(&self, memory: FreeMemory) -> Scratchpads {
        let n = scratchpad_count(self.hcsparams2);
        if n == 0 {
            Scratchpads { success: true, memory, regions: None, ops: Seq::empty() }
        } else {
            match crate::dma::dma_allocated(memory, crate::dma::pages_for(8 * n), 12) {
                None => Scratchpads { success: false, memory, regions: None, ops: Seq::empty() },
                Some((address, middle)) => {
                    let array = DmaRegion {
                        address: address as u64,
                        size: (8 * n) as u64,
                        pages: crate::dma::pages_for(8 * n) as u64,
                    };
                    let size = n * self.page_size();
                    match crate::dma::dma_allocated(
                        middle,
                        crate::dma::pages_for(size),
                        self.page_order as nat,
                    ) {
                        None => Scratchpads {
                            success: false,
                            memory: middle,
                            regions: None,
                            ops: array.prepare_ops(),
                        },
                        Some((address, after)) => {
                            let buffers = DmaRegion {
                                address: address as u64,
                                size: size as u64,
                                pages: crate::dma::pages_for(size) as u64,
                            };
                            Scratchpads {
                                success: true,
                                memory: after,
                                regions: Some((array, buffers)),
                                ops: array.prepare_ops() + buffers.prepare_ops() + seq![
                                    IoOp::Zero { address: array.address, size: array.size },
                                    IoOp::Zero { address: buffers.address, size: buffers.size },
                                ] + scratchpad_entries(
                                    array,
                                    buffers,
                                    self.page_size(),
                                    self.dma_offset,
                                    n as nat,
                                ) + seq![buffers.clean_op(), array.clean_op()]
                                    + crate::dma::write64_ops(
                                    self.dcbaa.address as int,
                                    array.bus_address(self.dma_offset),
                                ) + seq![self.dcbaa.clean_op()],
                            }
                        },
                    }
                },
            }
        }
    }

    /// The accesses that tell the controller where its memory is.
    pub open spec fn structure_ops(&self) -> Seq<IoOp> {
        let command = self.command_ring.region.bus_address(self.dma_offset) as int;
        let events = self.event_ring.region.bus_address(self.dma_offset);
        let erst = self.erst.bus_address(self.dma_offset) as int;
        seq![
            IoOp::Zero { address: self.dcbaa.address, size: self.dcbaa.size },
            self.dcbaa.clean_op(),
        ] + crate::dma::write64_ops(
            self.operational_base + 0x30,
            self.dcbaa.bus_address(self.dma_offset),
        ) + crate::dma::write64_ops(
            self.operational_base + 0x18,
            (masked(command, 64) + self.command_ring@.cycle) as u64,
        ) + seq![IoOp::Zero { address: self.erst.address, size: self.erst.size }]
            + crate::dma::write64_ops(self.erst.address as int, events) + seq![
            IoOp::Write { address: (self.erst.address + 8) as u64, value: 64 },
            IoOp::Write { address: (self.erst.address + 12) as u64, value: 0 },
            self.erst.clean_op(),
        ] + crate::dma::write64_ops(self.runtime_base + 0x38, masked(events as int, 16)) + seq![
            IoOp::Write { address: (self.runtime_base + 0x28) as u64, value: 1 },
        ] + crate::dma::write64_ops(self.runtime_base + 0x30, masked(erst, 16))
    }

    pub open spec fn write_op(&self, offset: int, value: u32) -> IoOp {
        IoOp::Write { address: (self.operational_base + offset) as u64, value }
    }

    pub open spec fn read_action(&self, offset: int, delay_us: u64) -> BringUpAction {
        BringUpAction::Read { address: (self.operational_base + offset) as u64, delay_us }
    }

    pub open spec fn wait_action(
        &self,
        offset: int,
        mask: u32,
        expected: u32,
        timeout_us: u64,
    ) -> BringUpAction {
        BringUpAction::Wait {
            address: (self.operational_base + offset) as u64,
            mask,
            expected,
            timeout_us,
        }
    }

    /// An attempt has failed: the next one starts after a while, unless it was the last.
    pub open spec fn failed_attempt(&self, attempt: u32) -> (BringUpState, BringUpAction) {
        if attempt >= 4 {
            (BringUpState::Failed, BringUpAction::Failed)
        } else {
            (
                BringUpState::ClearStatus { attempt: (attempt + 1) as u32 },
                self.read_action(0x04, 50_000),
            )
        }
    }

    /// What follows where the controller does not touch memory.
    pub open spec fn register_step(&self, state: BringUpState, reply: u32) -> (
        BringUpState,
        BringUpAction,
        Seq<IoOp>,
    ) {
        let none = Seq::<IoOp>::empty();
        match state {
            BringUpState::ClearStatus { attempt } => (
                BringUpState::CheckHalted { attempt },
                self.read_action(0x04, 0),
                seq![self.write_op(0x04, reply)],
            ),
            BringUpState::CheckHalted { attempt } => if reply & USBSTS_HALT == 0 {
                (BringUpState::StopRunning { attempt }, self.read_action(0x00, 0), none)
            } else {
                (
                    BringUpState::AwaitHalted { attempt },
                    self.wait_action(0x04, USBSTS_HALT, USBSTS_HALT, HALT_TIMEOUT_US),
                    none,
                )
            },
            BringUpState::StopRunning { attempt } => (
                BringUpState::AwaitHalted { attempt },
                self.wait_action(0x04, USBSTS_HALT, USBSTS_HALT, HALT_TIMEOUT_US),
                seq![self.write_op(0x00, reply & !USBCMD_RUN)],
            ),
            BringUpState::AwaitHalted { attempt } => if reply == 0 {
                let failed = self.failed_attempt(attempt);
                (failed.0, failed.1, none)
            } else {
                (BringUpState::ResetCommand { attempt }, self.read_action(0x00, 0), none)
            },
            BringUpState::ResetCommand { attempt } => (
                BringUpState::AwaitReset { attempt },
                self.wait_action(0x00, USBCMD_RESET, 0, RESET_TIMEOUT_US),
                seq![self.write_op(0x00, reply | USBCMD_RESET)],
            ),
            BringUpState::AwaitReset { attempt } => if reply == 0 {
                let failed = self.failed_attempt(attempt);
                (failed.0, failed.1, none)
            } else {
                (
                    BringUpState::AwaitReady { attempt },
                    self.wait_action(0x04, USBSTS_CNR, 0, RESET_TIMEOUT_US),
                    none,
                )
            },
            BringUpState::AwaitReady { attempt } => if reply == 0 {
                let failed = self.failed_attempt(attempt);
                (failed.0, failed.1, none)
            } else {
                (BringUpState::Configure { attempt }, self.read_action(0x38, 0), none)
            },
            BringUpState::StartCommand { attempt } => (
                BringUpState::Settle { attempt, round: 0 },
                self.read_action(0x04, 1_000),
                seq![self.write_op(0x00, reply | USBCMD_RUN)],
            ),
            BringUpState::Settle { attempt, round } => if round < 9 && reply & USBSTS_HSE == 0
                && reply & USBSTS_HALT != 0 {
                (
                    BringUpState::Settle { attempt, round: (round + 1) as u32 },
                    self.read_action(0x04, 1_000),
                    none,
                )
            } else {
                (
                    BringUpState::AwaitRunning { attempt },
                    self.wait_action(0x04, USBSTS_HALT, 0, HALT_TIMEOUT_US),
                    none,
                )
            },
            BringUpState::AwaitRunning { attempt } => if reply == 0 {
                let failed = self.failed_attempt(attempt);
                (failed.0, failed.1, none)
            } else {
                (
                    BringUpState::Done,
                    BringUpAction::Ready,
                    seq![
                        IoOp::Write { address: (self.runtime_base + 0x20) as u64, value: 0 },
                        IoOp::Write { address: (self.runtime_base + 0x1C) as u64, value: 0 },
                    ],
                )
            },
            BringUpState::Done => (BringUpState::Done, BringUpAction::Ready, none),
            _ => (BringUpState::Failed, BringUpAction::Failed, none),
        }
    }

    /// What follows once the number of slots can be set: the controller gets its memory.
    pub open spec fn configure_step(
        &self,
        attempt: u32,
        reply: u32,
        memory: FreeMemory,
    ) -> BringUpStep {
        let slots = seq![self.write_op(0x38, (reply & !0xFFu32) | (self.hcsparams1 & 0xFF))];
        let pads = self.scratchpads(memory);
        let done = slots + self.structure_ops() + pads.ops;
        if pads.success {
            let array = match pads.regions {
                Some(regions) => Some(regions.0),
                None => self.scratchpad_array,
            };
            BringUpStep {
                state: BringUpState::StartCommand { attempt },
                action: self.read_action(0x00, 0),
                memory: pads.memory,
                regions: pads.regions,
                ops: done + seq![self.write_op(0x14, 0)] + self.start_ops(array),
            }
        } else {
            let failed = self.failed_attempt(attempt);
            BringUpStep {
                state: failed.0,
                action: failed.1,
                memory: pads.memory,
                regions: None,
                ops: done,
            }
        }
    }

    /// What the CPU has cached of the controller's memory is dropped before the start.
    pub open spec fn start_ops(&self, array: Option<DmaRegion>) -> Seq<IoOp> {
        let pads = match array {
            Some(array) => seq![array.invalidate_op()],
            None => Seq::empty(),
        };
        seq![self.dcbaa.invalidate_op()] + pads + seq![self.erst.invalidate_op()]
    }

    /// One step of bringing the controller up.
    pub open spec fn bring_up_step(
        &self,
        state: BringUpState,
        reply: u32,
        memory: FreeMemory,
    ) -> BringUpStep {
        match state {
            BringUpState::Configure { attempt } => self.configure_step(attempt, reply, memory),
            _ => {
                let (state, action, ops) = self.register_step(state, reply);
                BringUpStep { state, action, memory, regions: None, ops }
            },
        }
    }

    fn operational_write(&self, offset: u64, value: u32) -> (op: IoOp)
        requires
            self.wf(),
            offset < 0x2000,
        ensures
            op == self.write_op(offset as int, value),
    {
        IoOp::Write { address: self.operational_base + offset, value }
    }

    fn read(&self, offset: u64, delay_us: u64) -> (action: BringUpAction)
        requires
            self.wf(),
            offset < 0x2000,
        ensures
            action == self.read_action(offset as int, delay_us),
    {
        BringUpAction::Read { address: self.operational_base + offset, delay_us }
    }

    fn wait(&self, offset: u64, mask: u32, expected: u32, timeout_us: u64) -> (action: BringUpAction)
        requires
            self.wf(),
            offset < 0x2000,
        ensures
            action == self.wait_action(offset as int, mask, expected, timeout_us),
    {
        BringUpAction::Wait {
            address: self.operational_base + offset,
            mask,
            expected,
            timeout_us,
        }
    }

    fn fail(&self, attempt: u32) -> (next: (BringUpState, BringUpAction))
        requires
            self.wf(),
        ensures
            next == self.failed_attempt(attempt),
    {
        if attempt >= MAX_ATTEMPTS {
            (BringUpState::Failed, BringUpAction::Failed)
        } else {
            (BringUpState::ClearStatus { attempt: attempt + 1 }, self.read(0x04, 50_000))
        }
    }

    /// Starts to bring the controller up.
    pub fn start_bring_up(&self) -> (next: (BringUpState, BringUpAction))
        requires
            self.wf(),
        ensures
            next.0 == (BringUpState::ClearStatus { attempt: 1 }),
            next.1 == self.read_action(0x04, 0),
    {
        (BringUpState::ClearStatus { attempt: 1 }, self.read(0x04, 0))
    }

    /// The registers' part of a step.
    fn step_registers(&self, state: BringUpState, reply: u32, ops: &mut Vec<IoOp>) -> (next: (
        BringUpState,
        BringUpAction,
    ))
        requires
            self.wf(),
        ensures
            next.0 == self.register_step(state, reply).0,
            next.1 == self.register_step(state, reply).1,
            final(ops)@ == old(ops)@ + self.register_step(state, reply).2,
    {
        let ghost first = ops@;
        assert(first + Seq::<IoOp>::empty() =~= first);
        match state {
            BringUpState::ClearStatus { attempt } => {
                ops.push(self.operational_write(0x04, reply));
                assert(ops@ =~= first + seq![self.write_op(0x04, reply)]);
                (BringUpState::CheckHalted { attempt }, self.read(0x04, 0))
            },
            BringUpState::CheckHalted { attempt } => if reply & USBSTS_HALT == 0 {
                (BringUpState::StopRunning { attempt }, self.read(0x00, 0))
            } else {
                (
                    BringUpState::AwaitHalted { attempt },
                    self.wait(0x04, USBSTS_HALT, USBSTS_HALT, HALT_TIMEOUT_US),
                )
            },
            BringUpState::StopRunning { attempt } => {
                ops.push(self.operational_write(0x00, reply & !USBCMD_RUN));
                assert(ops@ =~= first + seq![self.write_op(0x00, reply & !USBCMD_RUN)]);
                (
                    BringUpState::AwaitHalted { attempt },
                    self.wait(0x04, USBSTS_HALT, USBSTS_HALT, HALT_TIMEOUT_US),
                )
            },
            BringUpState::AwaitHalted { attempt } => if reply == 0 {
                self.fail(attempt)
            } else {
                (BringUpState::ResetCommand { attempt }, self.read(0x00, 0))
            },
            BringUpState::ResetCommand { attempt } => {
                ops.push(self.operational_write(0x00, reply | USBCMD_RESET));
                assert(ops@ =~= first + seq![self.write_op(0x00, reply | USBCMD_RESET)]);
                (
                    BringUpState::AwaitReset { attempt },
                    self.wait(0x00, USBCMD_RESET, 0, RESET_TIMEOUT_US),
                )
            },
            BringUpState::AwaitReset { attempt } => if reply == 0 {
                self.fail(attempt)
            } else {
                (
                    BringUpState::AwaitReady { attempt },
                    self.wait(0x04, USBSTS_CNR, 0, RESET_TIMEOUT_US),
                )
            },
            BringUpState::AwaitReady { attempt } => if reply == 0 {
                self.fail(attempt)
            } else {
                (BringUpState::Configure { attempt }, self.read(0x38, 0))
            },
            BringUpState::StartCommand { attempt } => {
                ops.push(self.operational_write(0x00, reply | USBCMD_RUN));
                assert(ops@ =~= first + seq![self.write_op(0x00, reply | USBCMD_RUN)]);
                (BringUpState::Settle { attempt, round: 0 }, self.read(0x04, 1_000))
            },
            BringUpState::Settle { attempt, round } => if round < 9 && reply & USBSTS_HSE == 0
                && reply & USBSTS_HALT != 0 {
                (BringUpState::Settle { attempt, round: round + 1 }, self.read(0x04, 1_000))
            } else {
                (
                    BringUpState::AwaitRunning { attempt },
                    self.wait(0x04, USBSTS_HALT, 0, HALT_TIMEOUT_US),
                )
            },
            BringUpState::AwaitRunning { attempt } => if reply == 0 {
                self.fail(attempt)
            } else {
                ops.push(IoOp::Write { address: self.runtime_base + 0x20, value: 0 });
                ops.push(IoOp::Write { address: self.runtime_base + 0x1C, value: 0 });
                assert(ops@ =~= first + self.register_step(state, reply).2);
                (BringUpState::Done, BringUpAction::Ready)
            },
            BringUpState::Done => (BringUpState::Done, BringUpAction::Ready),
            _ => (BringUpState::Failed, BringUpAction::Failed),
        }
    }

    /// Tells the controller where its memory is.
    fn initialize_memory_structures(&self, ops: &mut Vec<IoOp>)
        requires
            self.wf(),
        ensures
            final(ops)@ == old(ops)@ + self.structure_ops(),
    {
        let command: u64 = self.command_ring.region.to_bus(self.dma_offset);
        let events: u64 = self.event_ring.region.to_bus(self.dma_offset);
        let erst: u64 = self.erst.to_bus(self.dma_offset);
        ops.push(IoOp::Zero { address: self.dcbaa.address, size: self.dcbaa.size });
        ops.push(self.dcbaa.clean());
        crate::dma::write64(
            ops,
            self.operational_base + 0x30,
            self.dcbaa.to_bus(self.dma_offset),
        );
        crate::dma::write64(
            ops,
            self.operational_base + 0x18,
            command - command % 64 + self.command_ring.cycle_state as u64,
        );
        ops.push(IoOp::Zero { address: self.erst.address, size: self.erst.size });
        crate::dma::write64(ops, self.erst.address, events);
        ops.push(IoOp::Write { address: self.erst.address + 8, value: 64 });
        ops.push(IoOp::Write { address: self.erst.address + 12, value: 0 });
        ops.push(self.erst.clean());
        crate::dma::write64(ops, self.runtime_base + 0x38, events - events % 16);
        ops.push(IoOp::Write { address: self.runtime_base + 0x28, value: 1 });
        crate::dma::write64(ops, self.runtime_base + 0x30, erst - erst % 16);
        assert(ops@ =~= old(ops)@ + self.structure_ops());
    }

    /// The controller's page size.
    fn get_page_size(&self) -> (size: u64)
        requires
            self.wf(),
        ensures
            size == self.page_size(),
            0x1000 <= size <= 0x800_0000,
    {
        proof {
            vstd::arithmetic::power2::lemma2_to64();
            crate::bits::lemma_mask_aligns_down_u64(0, self.page_order as u64);
            if self.page_order < 27 {
                vstd::arithmetic::power2::lemma_pow2_strictly_increases(
                    self.page_order as nat,
                    27,
                );
            }
            if self.page_order > 12 {
                vstd::arithmetic::power2::lemma_pow2_strictly_increases(
                    12,
                    self.page_order as nat,
                );
            }
        }
        1u64 << self.page_order as u64
    }

    /// Gives the controller the pages that it wants for itself.
    fn allocate_scratchpads(&mut self, allocator: &mut MemoryAllocator, ops: &mut Vec<IoOp>) -> (result:
        Result<(), ()>)
        requires
            old(self).wf(),
            old(allocator).wf(),
        ensures
            final(self).wf(),
            final(allocator).wf(),
            final(self).same_controller(old(self)),
            final(self).command_ring == old(self).command_ring,
            final(self).event_ring == old(self).event_ring,
            ({
                let pads = old(self).scratchpads(old(allocator)@);
                &&& result is Ok <==> pads.success
                &&& final(allocator)@ == pads.memory
                &&& final(ops)@ == old(ops)@ + pads.ops
                &&& match pads.regions {
                    Some((array, buffers)) => {
                        &&& final(self).scratchpad_array == Some(array)
                        &&& final(self).scratchpad_buffers == Some(buffers)
                        &&& array.bytes() <= u64::MAX
                    },
                    None => final(self).same_scratchpads(old(self)),
                }
            }),
    {
        let ghost first = ops@;
        let ghost memory = allocator@;
        assert(first + Seq::<IoOp>::empty() =~= first);
        let count: u64 = ((self.hcsparams2 / 0x20_0000) % 32 * 32 + self.hcsparams2 / 0x800_0000)
            as u64;
        if count == 0 {
            return Ok(());
        }
        proof {
            crate::allocator_laws::allocator_is_consistent(*allocator);
        }
        let array: DmaRegion = match DmaRegion::new(allocator, 8 * count, 12, ops) {
            Ok(region) => region,
            Err(_) => {
                return Err(());
            },
        };
        let page_size: u64 = self.get_page_size();
        proof {
            crate::drivers::xhci::controller::lemma_region_fits(
                memory,
                crate::dma::pages_for(8 * count as int),
                12,
                self.dma_offset,
            );
            assert(count * page_size <= 1023 * 0x800_0000) by (nonlinear_arith)
                requires
                    count <= 1023,
                    0 <= page_size <= 0x800_0000,
            ;
            assert(0 <= count * page_size) by (nonlinear_arith)
                requires
                    0 <= count,
                    0 <= page_size,
            ;
        }
        let ghost middle = allocator@;
        let buffers: DmaRegion = match DmaRegion::new(
            allocator,
            count * page_size,
            self.page_order as usize,
            ops,
        ) {
            Ok(region) => region,
            Err(_) => {
                return Err(());
            },
        };
        proof {
            crate::drivers::xhci::controller::lemma_region_fits(
                middle,
                crate::dma::pages_for(count * page_size),
                self.page_order as nat,
                self.dma_offset,
            );
        }
        ops.push(IoOp::Zero { address: array.address, size: array.size });
        ops.push(IoOp::Zero { address: buffers.address, size: buffers.size });
        let ghost second = ops@;
        assert(second =~= first + (array.prepare_ops() + buffers.prepare_ops() + seq![
            IoOp::Zero { address: array.address, size: array.size },
            IoOp::Zero { address: buffers.address, size: buffers.size },
        ]));
        self.write_entries(&array, &buffers, count, page_size, ops);
        ops.push(buffers.clean());
        ops.push(array.clean());
        crate::dma::write64(ops, self.dcbaa.address, array.to_bus(self.dma_offset));
        ops.push(self.dcbaa.clean());
        assert(ops@ =~= first + old(self).scratchpads(memory).ops);
        self.scratchpad_array = Some(array);
        self.scratchpad_buffers = Some(buffers);
        Ok(())
    }

    /// Writes the scratchpad array.
    fn write_entries(
        &self,
        array: &DmaRegion,
        buffers: &DmaRegion,
        count: u64,
        page_size: u64,
        ops: &mut Vec<IoOp>,
    )
        requires
            self.wf(),
            array.address + 8 * count <= u64::MAX,
            count * page_size <= buffers.bytes(),
            buffers.fits(self.dma_offset),
        ensures
            final(ops)@ == old(ops)@ + scratchpad_entries(
                *array,
                *buffers,
                page_size as int,
                self.dma_offset,
                count as nat,
            ),
    {
        let ghost first = ops@;
        let mut i: u64 = 0;
        assert(first + Seq::<IoOp>::empty() =~= first);
        while i < count
            invariant
                self.wf(),
                i <= count,
                first == old(ops)@,
                array.address + 8 * count <= u64::MAX,
                count * page_size <= buffers.bytes(),
                buffers.fits(self.dma_offset),
                ops@ == first + scratchpad_entries(
                    *array,
                    *buffers,
                    page_size as int,
                    self.dma_offset,
                    i as nat,
                ),
            decreases count - i,
        {
            proof {
                assert(i * page_size <= count * page_size) by (nonlinear_arith)
                    requires
                        i <= count,
                        0 <= page_size,
                ;
                assert(0 <= i * page_size) by (nonlinear_arith)
                    requires
                        0 <= i,
                        0 <= page_size,
                ;
            }
            let entry: u64 = buffers.address + i * page_size + self.dma_offset;
            crate::dma::write64(ops, array.address + 8 * i, entry);
            i = i + 1;
            assert(ops@ =~= first + scratchpad_entries(
                *array,
                *buffers,
                page_size as int,
                self.dma_offset,
                i as nat,
            ));
        }
    }

    /// Takes the answer to the last action, and tells what is to be done next.
    pub fn bring_up(
        &mut self,
        state: BringUpState,
        reply: u32,
        allocator: &mut MemoryAllocator,
        ops: &mut Vec<IoOp>,
    ) -> (next: (BringUpState, BringUpAction))
        requires
            old(self).wf(),
            old(allocator).wf(),
            old(self).scratchpad_array is Some ==> old(self).scratchpad_array->0.bytes()
                <= u64::MAX,
        ensures
            final(self).wf(),
            final(allocator).wf(),
            final(self).same_controller(old(self)),
            final(self).command_ring == old(self).command_ring,
            final(self).event_ring == old(self).event_ring,
            final(self).scratchpad_array is Some ==> final(self).scratchpad_array->0.bytes()
                <= u64::MAX,
            ({
                let step = old(self).bring_up_step(state, reply, old(allocator)@);
                &&& next.0 == step.state
                &&& next.1 == step.action
                &&& final(allocator)@ == step.memory
                &&& final(ops)@ == old(ops)@ + step.ops
                &&& match step.regions {
                    Some((array, buffers)) => {
                        &&& final(self).scratchpad_array == Some(array)
                        &&& final(self).scratchpad_buffers == Some(buffers)
                    },
                    None => final(self).same_scratchpads(old(self)),
                }
            }),
    {
        let ghost first = ops@;
        match state {
            BringUpState::Configure { attempt } => {
                ops.push(
                    self.operational_write(0x38, (reply & !0xFFu32) | (self.hcsparams1 & 0xFF)),
                );
                self.initialize_memory_structures(ops);
                if self.allocate_scratchpads(allocator, ops).is_err() {
                    assert(ops@ =~= first + old(self).bring_up_step(
                        state,
                        reply,
                        old(allocator)@,
                    ).ops);
                    return self.fail(attempt);
                }
                ops.push(self.operational_write(0x14, 0));
                ops.push(self.dcbaa.invalidate());
                match &self.scratchpad_array {
                    Some(array) => {
                        ops.push(array.invalidate());
                    },
                    None => {},
                }
                ops.push(self.erst.invalidate());
                assert(ops@ =~= first + old(self).bring_up_step(
                    state,
                    reply,
                    old(allocator)@,
                ).ops);
                (BringUpState::StartCommand { attempt }, self.read(0x00, 0))
            },
            _ => self.step_registers(state, reply, ops),
        }
    }
}

/// How many steps an attempt still takes at most.
pub open spec fn steps_left(state: BringUpState) -> (int, int) {
    match state {
        BringUpState::ClearStatus { attempt } => (5 - attempt, 30),
        BringUpState::CheckHalted { attempt } => (5 - attempt, 29),
        BringUpState::StopRunning { attempt } => (5 - attempt, 28),
        BringUpState::AwaitHalted { attempt } => (5 - attempt, 27),
        BringUpState::ResetCommand { attempt } => (5 - attempt, 26),
        BringUpState::AwaitReset { attempt } => (5 - attempt, 25),
        BringUpState::AwaitReady { attempt } => (5 - attempt, 24),
        BringUpState::Configure { attempt } => (5 - attempt, 23),
        BringUpState::StartCommand { attempt } => (5 - attempt, 22),
        BringUpState::Settle { attempt, round } => (5 - attempt, 21 - round),
        BringUpState::AwaitRunning { attempt } => (5 - attempt, 1),
        _ => (0, 0),
    }
}

/// An attempt between the first and the last.
pub open spec fn is_running(state: BringUpState) -> bool {
    match state {
        BringUpState::ClearStatus { attempt } => 1 <= attempt <= 4,
        BringUpState::CheckHalted { attempt } => 1 <= attempt <= 4,
        BringUpState::StopRunning { attempt } => 1 <= attempt <= 4,
        BringUpState::AwaitHalted { attempt } => 1 <= attempt <= 4,
        BringUpState::ResetCommand { attempt } => 1 <= attempt <= 4,
        BringUpState::AwaitReset { attempt } => 1 <= attempt <= 4,
        BringUpState::AwaitReady { attempt } => 1 <= attempt <= 4,
        BringUpState::Configure { attempt } => 1 <= attempt <= 4,
        BringUpState::StartCommand { attempt } => 1 <= attempt <= 4,
        BringUpState::Settle { attempt, round } => 1 <= attempt <= 4 && round <= 9,
        BringUpState::AwaitRunning { attempt } => 1 <= attempt <= 4,
        BringUpState::Done => false,
        BringUpState::Failed => false,
    }
}

/// Whatever the controller answers, it is up or given up after a bounded number of steps: each step
/// comes nearer to the end of the attempt, or starts the next of at most four.
pub proof fn bring_up_ends(
    controller: Xhci,
    state: BringUpState,
    reply: u32,
    memory: FreeMemory,
)
    requires
        is_running(state),
    ensures
        ({
            let next = controller.bring_up_step(state, reply, memory).state;
            let (attempts, steps) = steps_left(state);
            let (next_attempts, next_steps) = steps_left(next);
            &&& is_running(next) || next == BringUpState::Done || next == BringUpState::Failed
            &&& next_attempts < attempts || next_attempts == attempts && next_steps < steps
            &&& 0 <= next_attempts
            &&& 0 <= next_steps
        }),
{
}

} // verus!
