//! Finding a storage device on the USB host controller, and moving its data.

use crate::dma::{DmaRegion, IoOp};
use crate::drivers::xhci::bring_up::{BringUpAction, BringUpState};
use crate::drivers::xhci::context::XhciDevice;
use crate::drivers::xhci::controller::{Awaited, Xhci};
use crate::drivers::xhci::descriptor::{
    endpoint_index, parse_mass_storage_configuration, HubDescriptor, HubPortStatus,
    MassStorageConfiguration, SetupPacket, UsbSpeed,
};
use crate::drivers::xhci::probe::{
    reset_root_port, Probe, ProbeAction, ProbeReply, ProbeStage, RootPortAction, RootPortState,
};
use crate::drivers::xhci::request::{
    needs_bounce_buffer, BulkStep, BulkTransfer, Transfer, XhciMassStorageDevice,
};
use crate::drivers::xhci::ring::{Trb, TrbRing};
use crate::drivers::xhci::transfer::{max_wave_length, Wave};
use crate::laws::network::store;
use crate::laws::usb::block_stores;
use crate::memory_allocator::MemoryAllocator;
use vstd::prelude::*;

verus! {

/// A request, by its fields.
pub open spec fn request(request_type: int, request: int, value: int, index: int, length: int) -> SetupPacket {
    SetupPacket {
        request_type: request_type as u8,
        request: request as u8,
        value: value as u16,
        index: index as u16,
        length: length as u16,
    }
}

/// A root port that has no power and can be given it gets it. One with a device is reset, behind its reported changes.
/// Its speed counts once it is enabled.
pub proof fn root_port_is_reset(
    state: RootPortState,
    status: u32,
    power_control: bool,
    writes: &mut Vec<u32>,
    next: (RootPortState, RootPortAction),
)
    requires
        call_ensures(reset_root_port, (state, status, power_control, writes), next),
    ensures
        ({
            let kept = status & 0x4E00_FFE9;
            let code = status as int / 0x400 % 16;
            let unpowered = state is Status && power_control && status & 0x200 == 0;
            let looks = (state is Status || state is Powered) && !unpowered;
            &&& unpowered ==> next.0 is Powered && next.1 == (RootPortAction::Read { delay_us: 20_000 })
                && final(writes)@ == old(writes)@.push(kept | 0x200)
            &&& looks && status & 1 == 0 ==> next.0 is Done && next.1 == RootPortAction::Speed(None)
                && final(writes)@ == old(writes)@
            &&& looks && status & 1 != 0 ==> next.0 is Reset && next.1 is AwaitReset && final(writes)@ == old(writes)@.push(kept | 0xFE_0000).push(kept | 0x10)
            &&& state is Reset && status == 0 ==> next.0 is Done && next.1 == RootPortAction::Speed(None)
            &&& state is Reset && status != 0 ==> next.0 is Enabled && next.1 == (RootPortAction::Read {
                delay_us: 0,
            })
            &&& state is Enabled ==> next.0 is Done && final(writes)@ == old(writes)@.push(
                kept | 0xFE_0000,
            )
            &&& state is Enabled && status & 2 == 0 ==> next.1 == RootPortAction::Speed(None)
            &&& state is Enabled && status & 2 != 0 ==> {
                &&& code == 1 ==> next.1 == RootPortAction::Speed(Some(UsbSpeed::Full))
                &&& code == 2 ==> next.1 == RootPortAction::Speed(Some(UsbSpeed::Low))
                &&& code == 3 ==> next.1 == RootPortAction::Speed(Some(UsbSpeed::High))
                &&& code == 4 ==> next.1 == RootPortAction::Speed(Some(UsbSpeed::Super))
                &&& code == 0 || code > 4 ==> next.1 == RootPortAction::Speed(None)
            }
        }),
{
    let kept = status & 0x4E00_FFE9;
    let first = old(writes)@;
    assert(first + Seq::<u32>::empty() =~= first);
    assert(first + seq![kept | 0x200] =~= first.push(kept | 0x200));
    assert(first + seq![kept | 0xFE_0000] =~= first.push(kept | 0xFE_0000));
    assert(first + seq![kept | 0xFE_0000, kept | 0x10] =~= first.push(kept | 0xFE_0000).push(
        kept | 0x10,
    ));
}

/// An attempt to bring the controller up has failed: there are four.
pub open spec fn tries_again(
    base: int,
    attempt: u32,
    next: (BringUpState, BringUpAction),
) -> bool {
    if attempt < 4 {
        &&& next.0 == (BringUpState::ClearStatus { attempt: (attempt + 1) as u32 })
        &&& next.1 == (BringUpAction::Read { address: (base + 4) as u64, delay_us: 50_000 })
    } else {
        next.0 is Failed && next.1 is Failed
    }
}

/// The controller is halted, then reset, and ready before it is told anything: each is awaited in its register and
/// for its time.
pub proof fn controller_is_halted_and_reset(
    controller: &mut Xhci,
    state: BringUpState,
    attempt: u32,
    reply: u32,
    allocator: &mut MemoryAllocator,
    ops: &mut Vec<IoOp>,
    next: (BringUpState, BringUpAction),
    start: (BringUpState, BringUpAction),
)
    requires
        old(controller).wf(),
        old(allocator).wf(),
        call_ensures(Xhci::start_bring_up, (&*old(controller),), start),
        call_ensures(Xhci::bring_up, (controller, state, reply, allocator, ops), next),
    ensures
        ({
            let base = old(controller).operational_base as int;
            let halted = BringUpAction::Wait {
                address: (base + 4) as u64,
                mask: 1,
                expected: 1,
                timeout_us: 16_000,
            };
            let before = old(ops)@;
            let after = final(ops)@;
            &&& start.0 == (BringUpState::ClearStatus { attempt: 1 })
            &&& start.1 == (BringUpAction::Read { address: (base + 4) as u64, delay_us: 0 })
            &&& state == (BringUpState::ClearStatus { attempt }) ==> {
                &&& next.0 == (BringUpState::CheckHalted { attempt })
                &&& next.1 == (BringUpAction::Read { address: (base + 4) as u64, delay_us: 0 })
                &&& after == before.push(store(base + 4, reply as int))
            }
            &&& state == (BringUpState::CheckHalted { attempt }) && reply & 1 == 0 ==> {
                &&& next.0 == (BringUpState::StopRunning { attempt })
                &&& next.1 == (BringUpAction::Read { address: base as u64, delay_us: 0 })
                &&& after == before
            }
            &&& state == (BringUpState::CheckHalted { attempt }) && reply & 1 != 0 ==> {
                &&& next.0 == (BringUpState::AwaitHalted { attempt })
                &&& next.1 == halted
                &&& after == before
            }
            &&& state == (BringUpState::StopRunning { attempt }) ==> {
                &&& next.0 == (BringUpState::AwaitHalted { attempt })
                &&& next.1 == halted
                &&& after == before.push(store(base, (reply & !1u32) as int))
            }
            &&& state == (BringUpState::AwaitHalted { attempt }) && reply == 0 ==> tries_again(
                base,
                attempt,
                next,
            )
            &&& state == (BringUpState::AwaitHalted { attempt }) && reply != 0 ==> {
                &&& next.0 == (BringUpState::ResetCommand { attempt })
                &&& next.1 == (BringUpAction::Read { address: base as u64, delay_us: 0 })
            }
            &&& state == (BringUpState::ResetCommand { attempt }) ==> {
                &&& next.0 == (BringUpState::AwaitReset { attempt })
                &&& next.1 == (BringUpAction::Wait {
                    address: base as u64,
                    mask: 2,
                    expected: 0,
                    timeout_us: 250_000,
                })
                &&& after == before.push(store(base, (reply | 2) as int))
            }
            &&& state == (BringUpState::AwaitReset { attempt }) && reply == 0 ==> tries_again(
                base,
                attempt,
                next,
            )
            &&& state == (BringUpState::AwaitReset { attempt }) && reply != 0 ==> {
                &&& next.0 == (BringUpState::AwaitReady { attempt })
                &&& next.1 == (BringUpAction::Wait {
                    address: (base + 4) as u64,
                    mask: 0x800,
                    expected: 0,
                    timeout_us: 250_000,
                })
            }
            &&& state == (BringUpState::AwaitReady { attempt }) && reply == 0 ==> tries_again(
                base,
                attempt,
                next,
            )
            &&& state == (BringUpState::AwaitReady { attempt }) && reply != 0 ==> {
                &&& next.0 == (BringUpState::Configure { attempt })
                &&& next.1 == (BringUpAction::Read { address: (base + 0x38) as u64, delay_us: 0 })
            }
        }),
{
    let before = old(ops)@;
    let base = old(controller).operational_base as int;
    assert(before + Seq::<IoOp>::empty() =~= before);
    assert(before + seq![store(base + 4, reply as int)] =~= before.push(store(base + 4, reply as int)));
    assert(before + seq![store(base, (reply & !1u32) as int)] =~= before.push(
        store(base, (reply & !1u32) as int),
    ));
    assert(before + seq![store(base, (reply | 2) as int)] =~= before.push(
        store(base, (reply | 2) as int),
    ));
}

/// The controller is started, and has to run in time. It is looked at ten times before.
pub proof fn controller_is_started(
    controller: &mut Xhci,
    state: BringUpState,
    attempt: u32,
    round: u32,
    reply: u32,
    allocator: &mut MemoryAllocator,
    ops: &mut Vec<IoOp>,
    next: (BringUpState, BringUpAction),
)
    requires
        old(controller).wf(),
        old(allocator).wf(),
        call_ensures(Xhci::bring_up, (controller, state, reply, allocator, ops), next),
    ensures
        ({
            let base = old(controller).operational_base as int;
            let look = BringUpAction::Read { address: (base + 4) as u64, delay_us: 1_000 };
            let before = old(ops)@;
            let after = final(ops)@;
            &&& state == (BringUpState::StartCommand { attempt }) ==> {
                &&& next.0 == (BringUpState::Settle { attempt, round: 0 })
                &&& next.1 == look
                &&& after == before.push(store(base, (reply | 1) as int))
            }
            &&& state == (BringUpState::Settle { attempt, round }) ==> {
                let again = round < 9 && reply & 4 == 0 && reply & 1 != 0;
                &&& again ==> next.0 == (BringUpState::Settle { attempt, round: (round + 1) as u32 })
                    && next.1 == look
                &&& !again ==> next.0 == (BringUpState::AwaitRunning { attempt }) && next.1 == (
                BringUpAction::Wait {
                    address: (base + 4) as u64,
                    mask: 1,
                    expected: 0,
                    timeout_us: 16_000,
                })
            }
            &&& state == (BringUpState::AwaitRunning { attempt }) && reply == 0 ==> tries_again(
                base,
                attempt,
                next,
            )
            &&& state == (BringUpState::AwaitRunning { attempt }) && reply != 0 ==> {
                &&& next.0 is Done && next.1 is Ready
                &&& after == before + seq![
                    store(old(controller).runtime_base + 0x20, 0),
                    store(old(controller).runtime_base + 0x1C, 0),
                ]
            }
        }),
{
    let before = old(ops)@;
    let base = old(controller).operational_base as int;
    assert(before + seq![store(base, (reply | 1) as int)] =~= before.push(
        store(base, (reply | 1) as int),
    ));
}

/// The controller is told how many slots there are, where its context array, its command ring and its event ring are, and
/// that the event ring has 64 places. One that wants no pages for itself is then started.
pub proof fn controller_is_told_its_memory(
    controller: &mut Xhci,
    attempt: u32,
    reply: u32,
    allocator: &mut MemoryAllocator,
    ops: &mut Vec<IoOp>,
    next: (BringUpState, BringUpAction),
)
    requires
        old(controller).wf(),
        old(allocator).wf(),
        call_ensures(
            Xhci::bring_up,
            (controller, BringUpState::Configure { attempt }, reply, allocator, ops),
            next,
        ),
        old(controller).hcsparams2 as int / 0x800_0000 == 0,
        old(controller).hcsparams2 as int / 0x20_0000 % 32 == 0,
        old(controller).scratchpad_array is None,
    ensures
        ({
            let c = old(controller);
            let base = c.operational_base as int;
            let run = c.runtime_base as int;
            let array = c.dcbaa.address + c.dma_offset;
            let command = c.command_ring.region.address + c.dma_offset;
            let pointer = command / 64 * 64 + c.command_ring.cycle_state;
            let events = c.event_ring.region.address + c.dma_offset;
            let table = c.erst.address + c.dma_offset;
            let half = 0x1_0000_0000int;
            &&& next.0 == (BringUpState::StartCommand { attempt })
            &&& next.1 == (BringUpAction::Read { address: base as u64, delay_us: 0 })
            &&& final(allocator)@ == old(allocator)@
            &&& final(ops)@ == old(ops)@ + seq![
                store(base + 0x38, ((reply & !0xFFu32) | (c.hcsparams1 & 0xFF)) as int),
                IoOp::Zero { address: c.dcbaa.address, size: 2048 },
                IoOp::Clean { address: c.dcbaa.address, size: 4096 },
                store(base + 0x30, array % half),
                store(base + 0x34, array / half),
                store(base + 0x18, pointer % half),
                store(base + 0x1C, pointer / half),
                IoOp::Zero { address: c.erst.address, size: 16 },
                store(c.erst.address as int, events % half),
                store(c.erst.address + 4, events / half),
                store(c.erst.address + 8, 64),
                store(c.erst.address + 12, 0),
                IoOp::Clean { address: c.erst.address, size: 4096 },
                store(run + 0x38, (events / 16 * 16) % half),
                store(run + 0x3C, (events / 16 * 16) / half),
                store(run + 0x28, 1),
                store(run + 0x30, (table / 16 * 16) % half),
                store(run + 0x34, (table / 16 * 16) / half),
                store(base + 0x14, 0),
                IoOp::Invalidate { address: c.dcbaa.address, size: 4096 },
                IoOp::Invalidate { address: c.erst.address, size: 4096 },
            ]
        }),
{
    let c = old(controller);
    let base = c.operational_base as int;
    let run = c.runtime_base as int;
    let array = c.dcbaa.address + c.dma_offset;
    let command = c.command_ring.region.address + c.dma_offset;
    let pointer = command / 64 * 64 + c.command_ring.cycle_state;
    let events = c.event_ring.region.address + c.dma_offset;
    let table = c.erst.address + c.dma_offset;
    let half = 0x1_0000_0000int;
    assert(c.structure_ops() =~= seq![
        IoOp::Zero { address: c.dcbaa.address, size: 2048 },
        IoOp::Clean { address: c.dcbaa.address, size: 4096 },
        store(base + 0x30, array % half),
        store(base + 0x34, array / half),
        store(base + 0x18, pointer % half),
        store(base + 0x1C, pointer / half),
        IoOp::Zero { address: c.erst.address, size: 16 },
        store(c.erst.address as int, events % half),
        store(c.erst.address + 4, events / half),
        store(c.erst.address + 8, 64),
        store(c.erst.address + 12, 0),
        IoOp::Clean { address: c.erst.address, size: 4096 },
        store(run + 0x38, (events / 16 * 16) % half),
        store(run + 0x3C, (events / 16 * 16) / half),
        store(run + 0x28, 1),
        store(run + 0x30, (table / 16 * 16) % half),
        store(run + 0x34, (table / 16 * 16) / half),
    ]);
    assert(c.scratchpads(old(allocator)@).ops =~= Seq::empty());
    assert(c.start_ops(None) =~= seq![
        IoOp::Invalidate { address: c.dcbaa.address, size: 4096 },
        IoOp::Invalidate { address: c.erst.address, size: 4096 },
    ]);
    assert(final(ops)@ =~= old(ops)@ + seq![
        store(base + 0x38, ((reply & !0xFFu32) | (c.hcsparams1 & 0xFF)) as int),
        IoOp::Zero { address: c.dcbaa.address, size: 2048 },
        IoOp::Clean { address: c.dcbaa.address, size: 4096 },
        store(base + 0x30, array % half),
        store(base + 0x34, array / half),
        store(base + 0x18, pointer % half),
        store(base + 0x1C, pointer / half),
        IoOp::Zero { address: c.erst.address, size: 16 },
        store(c.erst.address as int, events % half),
        store(c.erst.address + 4, events / half),
        store(c.erst.address + 8, 64),
        store(c.erst.address + 12, 0),
        IoOp::Clean { address: c.erst.address, size: 4096 },
        store(run + 0x38, (events / 16 * 16) % half),
        store(run + 0x3C, (events / 16 * 16) / half),
        store(run + 0x28, 1),
        store(run + 0x30, (table / 16 * 16) % half),
        store(run + 0x34, (table / 16 * 16) / half),
        store(base + 0x14, 0),
        IoOp::Invalidate { address: c.dcbaa.address, size: 4096 },
        IoOp::Invalidate { address: c.erst.address, size: 4096 },
    ]);
}

/// The search starts with root port 1, where there is one.
pub proof fn search_starts_with_the_first_port(controller: &Xhci, start: (Probe, ProbeAction))
    requires
        call_ensures(Xhci::probe_mass_storage, (controller,), start),
    ensures
        start.0.max_ports == controller.hcsparams1 as int / 0x100_0000,
        controller.hcsparams1 >= 0x100_0000 ==> start.1 == (ProbeAction::ResetRootPort { port: 1 }),
        controller.hcsparams1 < 0x100_0000 ==> start.1 is NotFound,
{
}

/// The search goes on with the next root port.
pub open spec fn goes_to_the_next_root_port(before: Probe, after: Probe, action: ProbeAction) -> bool {
    if before.port < before.max_ports {
        &&& action == (ProbeAction::ResetRootPort { port: (before.port + 1) as u8 })
        &&& after.port == before.port + 1
        &&& after.stage is RootReset
        &&& !after.child
    } else {
        action is NotFound && after.stage is NotFound
    }
}

/// The search goes on with the next port of the hub, or else with the next root port.
pub open spec fn goes_to_the_next_port(before: Probe, after: Probe, action: ProbeAction) -> bool {
    if before.downstream < before.hub.num_ports {
        &&& after.stage is PortStatus
        &&& after.downstream == before.downstream + 1
        &&& after.port == before.port
        &&& !after.child
        &&& action matches ProbeAction::Control { child, setup, .. } && !child && setup == request(
            0xA3,
            0,
            0,
            before.downstream + 1,
            4,
        )
    } else {
        goes_to_the_next_root_port(before, after, action)
    }
}

/// The device cannot be used: behind a hub its next port is tried, at a root port the next one.
pub open spec fn goes_on(before: Probe, after: Probe, action: ProbeAction) -> bool {
    if before.child {
        goes_to_the_next_port(before, after, action)
    } else {
        goes_to_the_next_root_port(before, after, action)
    }
}

/// A transfer without a delay at the device that is looked at.
pub open spec fn asks(before: Probe, action: ProbeAction, setup: SetupPacket) -> bool {
    action == (ProbeAction::Control { child: before.child, setup, delay_us: 0, restart: false })
}

/// A device gets a slot, memory and an address, in this order, and then is asked for the 18 bytes of its descriptor. A
/// device that fails is left, and the search goes on.
pub proof fn device_gets_its_address(probe: &mut Probe, reply: &ProbeReply, action: ProbeAction)
    requires
        call_ensures(Probe::step, (probe, reply), action),
    ensures
        ({
            let before = *old(probe);
            let after = *final(probe);
            &&& before.stage is RootReset ==> match *reply {
                ProbeReply::Speed(speed) => action is EnableSlot && after.stage is EnableSlot
                    && after.speed == speed && !after.child,
                _ => goes_to_the_next_root_port(before, after, action),
            }
            &&& before.stage is EnableSlot ==> match *reply {
                ProbeReply::Slot(slot_id) => {
                    &&& after.stage is Allocate
                    &&& action matches ProbeAction::AllocateDevice { child, placement } && child
                        == before.child && placement.slot_id == slot_id && placement.root_hub_port
                        == before.port && placement.speed == if before.child {
                        before.downstream_speed
                    } else {
                        before.speed
                    }
                    &&& !before.child ==> after.slot_id == slot_id
                    &&& before.child ==> after.slot_id == before.slot_id
                },
                _ => goes_on(before, after, action),
            }
            &&& before.stage is Allocate ==> if *reply is Done {
                action == (ProbeAction::AddressDevice { child: before.child }) && after.stage is Address
            } else {
                goes_on(before, after, action)
            }
            &&& before.stage is Address ==> if *reply is Done {
                asks(before, action, request(0x80, 6, 0x100, 0, 18))
                    && after.stage is DeviceDescriptor
            } else {
                goes_on(before, after, action)
            }
        }),
{
}

/// A device behind a hub is reached over the hub's port, up to 15. A slow one behind a fast hub is reached through the
/// hub's translator.
pub proof fn device_is_placed_behind_its_hub(
    probe: &mut Probe,
    slot_id: u8,
    action: ProbeAction,
)
    requires
        old(probe).stage is EnableSlot,
        call_ensures(Probe::step, (probe, &ProbeReply::Slot(slot_id)), action),
    ensures
        action is AllocateDevice,
        ({
            let before = *old(probe);
            let placement = action->placement;
            let slow = before.downstream_speed is Low || before.downstream_speed is Full;
            let translated = before.child && slow && before.speed is High;
            &&& !before.child ==> placement.route_string == 0
            &&& before.child && before.downstream < 15 ==> placement.route_string == before.downstream
            &&& before.child && before.downstream >= 15 ==> placement.route_string == 15
            &&& translated ==> placement.tt_hub_slot_id == before.slot_id && placement.tt_port_number
                == before.downstream && placement.multi_tt == before.hub.multi_tt
            &&& !translated ==> placement.tt_hub_slot_id == 0 && placement.tt_port_number == 0
                && !placement.multi_tt
        }),
{
}

/// A hub is class 9. Any other device is asked for its configuration: first the nine bytes that state how long it is,
/// then all of it. One with the endpoints of a storage device is configured and found.
pub proof fn storage_device_is_configured(
    probe: &mut Probe,
    bytes: Vec<u8>,
    slice: &[u8],
    moved: u64,
    late: bool,
    action: ProbeAction,
    speed: UsbSpeed,
    parsed: Option<MassStorageConfiguration>,
)
    requires
        slice@ == bytes@,
        call_ensures(Probe::step, (probe, &ProbeReply::Data { bytes, moved, late }), action),
        speed == if old(probe).child {
            old(probe).downstream_speed
        } else {
            old(probe).speed
        },
        call_ensures(parse_mass_storage_configuration, (slice, speed), parsed),
    ensures
        ({
            let before = *old(probe);
            let after = *final(probe);
            let total = bytes@[2] + 256 * bytes@[3];
            &&& before.stage is DeviceDescriptor && bytes@.len() == 18 && bytes@[4] != 9 ==> asks(
                before,
                action,
                request(0x80, 6, 0x200, 0, 9),
            ) && after.stage is ConfigHeader
            &&& before.stage is DeviceDescriptor && bytes@.len() == 18 && bytes@[4] == 9
                && before.child ==> goes_on(before, after, action)
            &&& before.stage is DeviceDescriptor && bytes@.len() == 18 && bytes@[4] == 9
                && !before.child ==> {
                &&& asks(before, action, request(0x80, 6, 0x200, 0, 9))
                &&& after.stage is HubConfigHeader
                &&& after.multi_tt_protocol == (before.speed is High && bytes@[6] == 2)
            }
            &&& before.stage is ConfigHeader && bytes@.len() == 9 && 9 <= total <= 512 ==> asks(
                before,
                action,
                request(0x80, 6, 0x200, 0, total),
            ) && after.stage == (ProbeStage::Configuration { total_length: total as u16 })
            &&& before.stage is ConfigHeader && (bytes@.len() != 9 || total < 9 || total > 512)
                ==> goes_on(before, after, action)
            &&& before.stage matches ProbeStage::Configuration { total_length } ==> {
                let whole = bytes@.len() == total_length && total_length >= 9;
                &&& whole && parsed is Some ==> asks(
                    before,
                    action,
                    request(0, 9, bytes@[5] as int, 0, 0),
                ) && after.stage == (ProbeStage::SetConfiguration { configuration: parsed->0 })
                &&& !whole || parsed is None ==> goes_on(before, after, action)
            }
            &&& before.stage matches ProbeStage::SetConfiguration { configuration } ==> action == (
            ProbeAction::ConfigureEndpoints { child: before.child, configuration }) && after.stage == (
            ProbeStage::ConfigureEndpoints { configuration })
        }),
{
}

/// The search ends with a device once its endpoints are configured.
pub proof fn search_ends_with_the_configured_device(
    probe: &mut Probe,
    configuration: MassStorageConfiguration,
    reply: &ProbeReply,
    action: ProbeAction,
)
    requires
        old(probe).stage == (ProbeStage::ConfigureEndpoints { configuration }),
        call_ensures(Probe::step, (probe, reply), action),
    ensures
        *reply is Done ==> action == (ProbeAction::Found { child: old(probe).child, configuration }),
        !(*reply is Done) ==> goes_on(*old(probe), *final(probe), action),
{
}

/// A hub is configured, asked for its descriptor, and made known to the controller. One that can translate for each port
/// is switched to that first. The descriptor comes in two steps: its first seven bytes state its length.
pub proof fn hub_is_configured(
    probe: &mut Probe,
    bytes: Vec<u8>,
    slice: &[u8],
    moved: u64,
    late: bool,
    action: ProbeAction,
    hub: HubDescriptor,
)
    requires
        slice@ == bytes@,
        call_ensures(Probe::step, (probe, &ProbeReply::Data { bytes, moved, late }), action),
        bytes@.len() >= 7 ==> call_ensures(
            HubDescriptor::parse,
            (slice, old(probe).multi_tt),
            hub,
        ),
    ensures
        ({
            let before = *old(probe);
            let after = *final(probe);
            let kind = if before.speed is Super {
                0x2A00int
            } else {
                0x2900
            };
            &&& before.stage is HubConfigHeader && bytes@.len() == 9 ==> asks(
                before,
                action,
                request(0, 9, bytes@[5] as int, 0, 0),
            ) && after.stage is HubSetConfiguration
            &&& before.stage is HubSetConfiguration ==> action == (ProbeAction::Control {
                child: before.child,
                setup: if before.multi_tt_protocol {
                    request(1, 11, 1, 0, 0)
                } else {
                    request(0xA0, 6, kind, 0, 7)
                },
                delay_us: 10_000,
                restart: false,
            })
            &&& before.stage is HubSetInterface ==> asks(before, action, request(0xA0, 6, kind, 0, 7))
                && after.multi_tt && after.stage is HubHeader
            &&& before.stage is HubHeader && bytes@.len() == 7 && moved >= 7 && 7 <= bytes@[0] <= 32
                ==> asks(before, action, request(0xA0, 6, kind, 0, bytes@[0] as int)) && after.stage == (
            ProbeStage::HubDescriptor { length: bytes@[0] })
            &&& before.stage is HubHeader && !(bytes@.len() == 7 && moved >= 7 && 7 <= bytes@[0] <= 32)
                ==> goes_to_the_next_root_port(before, after, action)
            &&& before.stage matches ProbeStage::HubDescriptor { length } ==> {
                let whole = bytes@.len() == length && length >= 7 && moved >= length;
                &&& whole ==> action == (ProbeAction::UpdateHub { hub }) && after.hub == hub
                    && after.stage is HubUpdate
                &&& !whole ==> goes_to_the_next_root_port(before, after, action)
            }
        }),
{
}

/// Every port of a hub is powered, feature 8, and at super speed reset before, feature 4. The ports are looked at once
/// the power is good, after a tenth of a second at least.
pub proof fn hub_ports_are_powered(
    probe: &mut Probe,
    reply: &ProbeReply,
    action: ProbeAction,
    port: u8,
)
    requires
        call_ensures(Probe::step, (probe, reply), action),
    ensures
        ({
            let before = *old(probe);
            let after = *final(probe);
            let feature = if before.speed is Super {
                4int
            } else {
                8
            };
            let wait = if before.hub.power_on_to_good_ms < 100 {
                100_000int
            } else {
                1000 * before.hub.power_on_to_good_ms
            };
            &&& before.stage is HubUpdate && *reply is Done && before.hub.num_ports > 0 ==> asks(
                before,
                action,
                request(0x23, 3, feature, 1, 0),
            )
            &&& before.stage is HubUpdate && !(*reply is Done) ==> goes_to_the_next_root_port(
                before,
                after,
                action,
            )
            &&& before.stage == (ProbeStage::HubResetPort { port }) && *reply is Data ==> asks(
                before,
                action,
                request(0x23, 3, 8, port as int, 0),
            ) && after.stage == (ProbeStage::HubPowerPort { port })
            &&& before.stage == (ProbeStage::HubPowerPort { port }) && *reply is Data && port
                < before.hub.num_ports ==> asks(before, action, request(0x23, 3, feature, port + 1, 0))
            &&& before.stage == (ProbeStage::HubPowerPort { port }) && *reply is Data && port
                >= before.hub.num_ports && before.hub.num_ports > 0 ==> action == (
            ProbeAction::Control {
                child: false,
                setup: request(0xA3, 0, 0, 1, 4),
                delay_us: wait as u64,
                restart: false,
            }) && after.downstream == 1 && after.stage is PortStatus
        }),
{
}

/// A port with a device is reset, feature 4, and looked at until the reset is over: up to five times, and the first time
/// after 20 ms, then after 200 ms. The report of the reset is cleared, feature 20, and the device gets a slot.
pub proof fn hub_port_is_reset(
    probe: &mut Probe,
    bytes: Vec<u8>,
    slice: &[u8],
    moved: u64,
    late: bool,
    action: ProbeAction,
    status: Option<HubPortStatus>,
    connected: bool,
    enabled: bool,
    done: bool,
)
    requires
        slice@ == bytes@,
        call_ensures(Probe::step, (probe, &ProbeReply::Data { bytes, moved, late }), action),
        bytes@.len() == 4,
        moved >= 4,
        call_ensures(HubPortStatus::parse, (slice,), status),
        status matches Some(s) ==> {
            &&& call_ensures(HubPortStatus::is_connected, (&s,), connected)
            &&& call_ensures(HubPortStatus::is_enabled, (&s,), enabled)
            &&& call_ensures(HubPortStatus::is_reset_done, (&s,), done)
        },
    ensures
        ({
            let before = *old(probe);
            let after = *final(probe);
            let port = before.downstream as int;
            let reset = request(0x23, 3, 4, port, 0);
            &&& before.stage is PortStatus && connected ==> asks(before, action, reset)
                && after.attempt == 1 && after.stage is PortReset
            &&& before.stage is PortStatus && !connected ==> goes_to_the_next_port(
                before,
                after,
                action,
            )
            &&& before.stage is PortReset ==> after.stage is PortResetStatus && action == (
            ProbeAction::Control {
                child: before.child,
                setup: request(0xA3, 0, 0, port, 4),
                delay_us: if before.attempt == 1 {
                    20_000
                } else {
                    200_000
                },
                restart: true,
            })
            &&& before.stage is PortResetStatus && done && enabled ==> asks(
                before,
                action,
                request(0x23, 1, 20, port, 0),
            ) && after.stage == (ProbeStage::PortClear { status: status->0 })
            &&& before.stage is PortResetStatus && done && !enabled && before.attempt < 5 ==> asks(
                before,
                action,
                reset,
            ) && after.attempt == before.attempt + 1
            &&& before.stage is PortResetStatus && done && !enabled && before.attempt >= 5
                ==> goes_to_the_next_port(before, after, action)
            &&& before.stage is PortResetStatus && !done && late ==> goes_to_the_next_port(
                before,
                after,
                action,
            )
            &&& before.stage is PortResetStatus && !done && !late ==> asks(
                before,
                action,
                request(0xA3, 0, 0, port, 4),
            )
        }),
{
}

/// The device at a port that was reset gets a slot, with the speed that the port states.
pub proof fn device_at_the_port_is_taken(
    probe: &mut Probe,
    status: HubPortStatus,
    reply: &ProbeReply,
    action: ProbeAction,
    connected: bool,
    enabled: bool,
    speed: UsbSpeed,
)
    requires
        old(probe).stage == (ProbeStage::PortClear { status }),
        call_ensures(Probe::step, (probe, reply), action),
        call_ensures(HubPortStatus::is_connected, (&status,), connected),
        call_ensures(HubPortStatus::is_enabled, (&status,), enabled),
        call_ensures(HubPortStatus::hub_port_speed, (&status, old(probe).speed), speed),
    ensures
        *reply is Data && connected && enabled ==> {
            &&& action is EnableSlot
            &&& final(probe).child
            &&& final(probe).downstream_speed == speed
            &&& final(probe).stage is EnableSlot
        },
        !(*reply is Data && connected && enabled) ==> goes_to_the_next_port(
            *old(probe),
            *final(probe),
            action,
        ),
{
}

/// A hub is made known to the controller: what the controller keeps of it, with the hub bit, the number of its ports, and
/// for a fast one the think time of its translator, before command 12 for it.
pub proof fn hub_is_made_known(
    controller: &mut Xhci,
    device: &XhciDevice,
    hub: &HubDescriptor,
    slot: [u32; 3],
    ops: &mut Vec<IoOp>,
    other: &mut Xhci,
    other_ops: &mut Vec<IoOp>,
    context: u64,
)
    requires
        old(controller).wf(),
        device.wf(old(controller)),
        call_ensures(Xhci::update_hub_device, (controller, device, hub, slot, ops), ()),
        call_ensures(Xhci::context_size, (&*old(controller),), context),
        *old(other) == *old(controller),
        ({
            let base = device.in_ctx.address as int;
            let input = base + context;
            old(other_ops)@ == old(ops)@ + seq![
                IoOp::Zero { address: device.in_ctx.address, size: device.in_ctx.size },
                IoOp::Copy { from: device.out_ctx.address, to: input as u64, size: 32 },
                store(base, 0),
                store(base + 4, 1),
                store(
                    input,
                    (if hub.multi_tt {
                        slot[0] | 0x400_0000 | 0x200_0000
                    } else {
                        (slot[0] | 0x400_0000) & !0x200_0000u32
                    }) as int,
                ),
                store(input + 4, (slot[1] | (0x100_0000 * hub.num_ports) as u32) as int),
                store(
                    input + 8,
                    (if device.placement.speed is High {
                        slot[2] | (0x1_0000 * hub.tt_think_time) as u32
                    } else {
                        slot[2]
                    }) as int,
                ),
                store(input + 12, 0),
                IoOp::Clean {
                    address: device.in_ctx.address,
                    size: (device.in_ctx.pages * 4096) as u64,
                },
            ]
        }),
        call_ensures(
            Xhci::queue_command,
            (
                other,
                (device.in_ctx.address + old(controller).dma_offset) as u64,
                device.placement.slot_id,
                0usize,
                12u32,
                other_ops,
            ),
            (),
        ),
    ensures
        final(controller).command_ring@ == final(other).command_ring@,
        final(ops)@ == final(other_ops)@,
{
    assert(old(other_ops)@ =~= old(ops)@ + old(controller).hub_context_ops(device, *hub, slot@));
    assert(final(ops)@ =~= final(other_ops)@);
}

/// A buffer needs another one in its place unless it has its cache lines to itself.
pub proof fn shared_cache_lines_need_a_bounce_buffer(
    buffer: u64,
    length: u64,
    line_size: u64,
    needed: bool,
)
    requires
        line_size > 0,
        call_ensures(needs_bounce_buffer, (buffer, length, line_size), needed),
    ensures
        needed <==> !(buffer as int % line_size as int == 0 && (buffer + length) % (line_size as int) == 0),
{
    vstd::arithmetic::div_mod::lemma_add_mod_noop(buffer as int, length as int, line_size as int);
    vstd::arithmetic::div_mod::lemma_mod_twice(length as int, line_size as int);
}

/// A transfer goes to the endpoint that has the address, in its direction, and to no other. It is for the slot of the
/// device and with the packets of the endpoint.
pub proof fn transfer_goes_to_its_endpoint(
    device: &mut XhciMassStorageDevice,
    endpoint: u8,
    buffer: u64,
    length: u64,
    line_size: u64,
    allocator: &mut MemoryAllocator,
    ops: &mut Vec<IoOp>,
    result: Result<BulkStep, ()>,
    needed: bool,
    awaited: Awaited,
    wave: u64,
)
    requires
        old(device).wf(),
        old(allocator).wf(),
        line_size > 0,
        length > 0,
        buffer + length + old(device).controller.dma_offset <= u64::MAX,
        old(device).bulk_in_ep != old(device).bulk_out_ep,
        call_ensures(
            XhciMassStorageDevice::bulk_transfer,
            (device, endpoint, buffer, length, line_size, allocator, ops),
            result,
        ),
        call_ensures(needs_bounce_buffer, (buffer, length, line_size), needed),
        result matches Ok(BulkStep::Waiting(bulk)) ==> {
            &&& call_ensures(BulkTransfer::awaited, (&bulk,), awaited)
            &&& call_ensures(
                max_wave_length,
                (
                    match bulk.transfer.bounce {
                        Some(region) => region.address,
                        None => buffer,
                    },
                    length,
                ),
                wave,
            )
        },
    ensures
        ({
            let is_in = endpoint == old(device).bulk_in_ep;
            &&& !is_in && endpoint != old(device).bulk_out_ep ==> result is Err && final(ops)@ == old(ops)@
            &&& is_in ==> final(device).device.bulk_out_ring == old(device).device.bulk_out_ring
            &&& !is_in ==> final(device).device.bulk_in_ring == old(device).device.bulk_in_ring
            &&& result is Ok ==> result->Ok_0 is Waiting
            &&& result matches Ok(BulkStep::Waiting(bulk)) ==> {
                &&& bulk.transfer.buffer_address == buffer && bulk.transfer.length == length
                &&& bulk.transfer.is_in == is_in
                &&& bulk.transfer.bounce is Some <==> needed
                &&& bulk.slot_id == old(device).device.placement.slot_id
                &&& bulk.ep_index == if is_in {
                    old(device).bulk_in_index
                } else {
                    old(device).bulk_out_index
                }
                &&& bulk.max_packet == if is_in {
                    old(device).max_packet_in
                } else {
                    old(device).max_packet_out
                }
                &&& bulk.offset == 0 && bulk.transferred == 0 && bulk.wave_length == wave
                &&& awaited == (Awaited::Transfer {
                    slot_id: bulk.slot_id,
                    ep_index: bulk.ep_index,
                })
            }
        }),
{
}

/// Bytes for the device are copied to the bounce buffer and cleaned before the transfer is handed over and the doorbell
/// of the endpoint is rung.
pub proof fn transfer_is_handed_over(
    controller: &Xhci,
    slot_id: u8,
    ep_index: usize,
    ring: &mut TrbRing,
    buffer: u64,
    length: u64,
    max_packet: u16,
    is_in: bool,
    line_size: u64,
    allocator: &mut MemoryAllocator,
    ops: &mut Vec<IoOp>,
    bulk: BulkTransfer,
    other: &mut TrbRing,
    other_ops: &mut Vec<IoOp>,
    doorbell: IoOp,
)
    requires
        controller.wf(),
        old(ring).wf(),
        old(allocator).wf(),
        line_size > 0,
        ep_index < 32,
        length > 0,
        buffer + length + controller.dma_offset <= u64::MAX,
        call_ensures(
            Xhci::submit_bulk_transfer,
            (
                controller,
                slot_id,
                ep_index,
                ring,
                buffer,
                length,
                max_packet,
                is_in,
                line_size,
                allocator,
                ops,
            ),
            Ok(BulkStep::Waiting(bulk)),
        ),
        call_ensures(Xhci::ring_doorbell, (controller, slot_id, ep_index), doorbell),
        *old(other) == *old(ring),
        old(other_ops)@ == match bulk.transfer.bounce {
            None => old(ops)@.push(IoOp::Clean { address: buffer, size: length }),
            Some(region) => {
                let prepared = old(ops)@.push(
                    IoOp::Zero { address: region.address, size: (region.pages * 4096) as u64 },
                ).push(IoOp::Clean { address: region.address, size: (region.pages * 4096) as u64 });
                let copied = if is_in {
                    prepared
                } else {
                    prepared.push(IoOp::Copy { from: buffer, to: region.address, size: length })
                };
                copied.push(IoOp::Clean { address: region.address, size: length })
            },
        },
        call_ensures(
            Wave::submit,
            (
                &Wave {
                    address: match bulk.transfer.bounce {
                        Some(region) => region.address,
                        None => buffer,
                    },
                    length: bulk.wave_length,
                    max_packet,
                    is_in,
                    dma_offset: controller.dma_offset,
                },
                other,
                other_ops,
            ),
            (),
        ),
    ensures
        final(ring)@ == final(other)@,
        final(ops)@ == final(other_ops)@.push(doorbell),
{
    assert(final(ops)@ =~= final(other_ops)@.push(doorbell));
}

/// A transfer goes on behind what was moved, until all was or less came than was asked for. What came from the device is
/// then seen by the CPU and copied from the bounce buffer.
pub proof fn transfer_goes_on_to_its_end(
    controller: &mut Xhci,
    bulk: &BulkTransfer,
    ring: &mut TrbRing,
    event: &Trb,
    allocator: &mut MemoryAllocator,
    ops: &mut Vec<IoOp>,
    step: BulkStep,
)
    requires
        old(controller).wf(),
        old(ring).wf(),
        old(allocator).wf(),
        bulk.wf(old(controller).dma_offset),
        call_ensures(
            Xhci::continue_bulk_transfer,
            (controller, bulk, ring, event, allocator, ops),
            step,
        ),
    ensures
        ({
            let code = event.status as int / 0x100_0000;
            let left = event.status as int % 0x100_0000;
            let fine = code == 1 || code == 13;
            let moved = if left < bulk.wave_length {
                bulk.wave_length - left
            } else {
                0
            };
            let whole = left == 0;
            let behind = bulk.offset + bulk.wave_length;
            let n = old(ops)@.len() as int;
            let end = final(ops)@.len() as int;
            &&& step is Failed <==> !fine
            &&& step is Waiting <==> fine && whole && behind < bulk.transfer.length
            &&& step matches BulkStep::Finished(bytes) ==> bytes == bulk.transferred + moved
            &&& step matches BulkStep::Waiting(next) ==> {
                &&& next.offset == behind
                &&& next.transferred == bulk.transferred + bulk.wave_length
                &&& next.transfer == bulk.transfer
                &&& next.slot_id == bulk.slot_id && next.ep_index == bulk.ep_index
                &&& next.max_packet == bulk.max_packet
            }
            &&& !(step is Waiting) && bulk.transfer.is_in ==> match bulk.transfer.bounce {
                None => end == n + 3 && final(ops)@[n + 2] == (IoOp::Invalidate {
                    address: bulk.transfer.buffer_address,
                    size: bulk.transfer.length,
                }),
                Some(region) => end == n + 4 && final(ops)@[n + 2] == (IoOp::Invalidate {
                    address: region.address,
                    size: bulk.transfer.length,
                }) && final(ops)@[n + 3] == (IoOp::Copy {
                    from: region.address,
                    to: bulk.transfer.buffer_address,
                    size: bulk.transfer.length,
                }),
            }
            &&& !(step is Waiting) && !bulk.transfer.is_in ==> end == n + 2
        }),
{
    crate::drivers::xhci::transfer::wave_fits_the_ring(
        bulk.transfer.dma_address() + bulk.offset,
        bulk.transfer.length - bulk.offset,
    );
}

/// A control transfer has moved what is not left, and what it has read is copied to the caller's buffer.
pub proof fn control_transfer_gives_its_bytes(
    controller: &mut Xhci,
    transfer: &Transfer,
    event: &Trb,
    allocator: &mut MemoryAllocator,
    ops: &mut Vec<IoOp>,
    result: Result<u64, ()>,
)
    requires
        old(controller).wf(),
        old(allocator).wf(),
        transfer.wf(old(controller).dma_offset),
        call_ensures(
            Xhci::finish_control_transfer,
            (controller, transfer, event, allocator, ops),
            result,
        ),
    ensures
        ({
            let code = event.status as int / 0x100_0000;
            let left = event.status as int % 0x100_0000;
            let n = old(ops)@.len() as int;
            let end = final(ops)@.len() as int;
            &&& result is Ok <==> code == 1 || code == 13
            &&& result matches Ok(bytes) ==> bytes == if left <= transfer.length {
                transfer.length - left
            } else {
                0
            }
            &&& result is Ok && transfer.is_in && transfer.length > 0 ==> match transfer.bounce {
                None => end == n + 3 && final(ops)@[n + 2] == (IoOp::Invalidate {
                    address: transfer.buffer_address,
                    size: transfer.length,
                }),
                Some(region) => end == n + 4 && final(ops)@[n + 2] == (IoOp::Invalidate {
                    address: region.address,
                    size: transfer.length,
                }) && final(ops)@[n + 3] == (IoOp::Copy {
                    from: region.address,
                    to: transfer.buffer_address,
                    size: transfer.length,
                }),
            }
            &&& result is Err || !transfer.is_in ==> end == n + 2
        }),
{
}

/// The accesses that make a page a new ring.
pub open spec fn new_ring(region: DmaRegion, dma_offset: u64) -> Seq<IoOp> {
    seq![
        IoOp::Zero { address: region.address, size: (region.pages * 4096) as u64 },
        IoOp::Clean { address: region.address, size: (region.pages * 4096) as u64 },
    ] + block_stores(
        region.address + 16 * 63,
        Trb { parameter: (region.address + dma_offset) as u64, status: 0, control: 0x1802 },
    )
}

/// The accesses that describe an endpoint at `address`: its kind, its packets and bursts, and its ring.
pub open spec fn endpoint_stores(
    address: int,
    kind: int,
    max_packet: u16,
    max_burst: u8,
    ring: u64,
) -> Seq<IoOp> {
    seq![
        store(address, 0),
        store(address + 4, 6 + 8 * kind + 0x100 * max_burst + 0x1_0000 * max_packet),
        store(address + 8, ring as int % 0x1_0000_0000),
        store(address + 12, ring as int / 0x1_0000_0000),
        store(address + 16, max_packet as int),
    ]
}

/// The two bulk endpoints of a storage device get new rings, and are described to the controller at their places: kind 2
/// to the device and kind 6 from it. What the controller keeps of the device is taken over, and command 12 follows.
pub proof fn bulk_endpoints_are_described(
    controller: &mut Xhci,
    device: &mut XhciDevice,
    configuration: &MassStorageConfiguration,
    dev_info: u32,
    allocator: &mut MemoryAllocator,
    ops: &mut Vec<IoOp>,
    indices: (usize, usize),
    out_index: usize,
    in_index: usize,
    other: &mut Xhci,
    other_ops: &mut Vec<IoOp>,
    context: u64,
)
    requires
        old(controller).wf(),
        old(device).wf(old(controller)),
        old(allocator).wf(),
        configuration.max_ep_index <= 30,
        call_ensures(
            Xhci::configure_mass_storage_endpoints,
            (controller, device, configuration, dev_info, allocator, ops),
            Ok(indices),
        ),
        call_ensures(endpoint_index, (configuration.bulk_out_ep,), out_index),
        call_ensures(endpoint_index, (configuration.bulk_in_ep,), in_index),
        call_ensures(Xhci::context_size, (&*old(controller),), context),
        *old(other) == *old(controller),
        final(device).bulk_out_ring matches Some(out_ring) ==> final(device).bulk_in_ring matches Some(
            in_ring,
        ) ==> {
            let base = old(device).in_ctx.address as int;
            let kept = old(device).out_ctx.address as int;
            let offset = old(controller).dma_offset;
            old(other_ops)@ == old(ops)@ + new_ring(out_ring.region, offset) + new_ring(
                in_ring.region,
                offset,
            ) + seq![
                IoOp::Zero { address: base as u64, size: old(device).in_ctx.size },
                IoOp::Copy { from: kept as u64, to: (base + context) as u64, size: 32 },
                IoOp::Copy {
                    from: (kept + context) as u64,
                    to: (base + 2 * context) as u64,
                    size: 32,
                },
                store(base, 0),
                store(
                    base + 4,
                    (1u32 | (1u32 << ((out_index + 1) as u32)) | (1u32 << ((in_index + 1) as u32)))
                        as int,
                ),
                store(
                    base + context,
                    dev_info as int % 0x800_0000 + 0x800_0000 * (configuration.max_ep_index + 1),
                ),
            ] + endpoint_stores(
                base + (out_index + 2) * context,
                2,
                configuration.max_packet_out,
                configuration.max_burst_out,
                (out_ring.region.address + offset) as u64 | 1,
            ) + endpoint_stores(
                base + (in_index + 2) * context,
                6,
                configuration.max_packet_in,
                configuration.max_burst_in,
                (in_ring.region.address + offset) as u64 | 1,
            ) + seq![
                IoOp::Clean {
                    address: base as u64,
                    size: (old(device).in_ctx.pages * 4096) as u64,
                },
            ]
        },
        call_ensures(
            Xhci::queue_command,
            (
                other,
                (old(device).in_ctx.address + old(controller).dma_offset) as u64,
                old(device).placement.slot_id,
                0usize,
                12u32,
                other_ops,
            ),
            (),
        ),
    ensures
        indices == (out_index, in_index),
        final(device).bulk_out_ring is Some,
        final(device).bulk_in_ring is Some,
        final(controller).command_ring@ == final(other).command_ring@,
        final(ops)@ == final(other_ops)@,
{
    let out_ring = final(device).bulk_out_ring->0;
    let in_ring = final(device).bulk_in_ring->0;
    let c = old(controller);
    let offset = c.dma_offset;
    assert(out_ring@.region == out_ring.region);
    assert(in_ring@.region == in_ring.region);
    assert(c.ring_ops(out_ring.region) =~= new_ring(out_ring.region, offset));
    assert(c.ring_ops(in_ring.region) =~= new_ring(in_ring.region, offset));
    let base = old(device).in_ctx.address as int;
    let out_place = base + (out_index + 2) * context;
    let in_place = base + (in_index + 2) * context;
    assert(crate::drivers::xhci::context::endpoint_ops(
        out_place,
        crate::drivers::xhci::context::endpoint_info(
            2,
            configuration.max_packet_out,
            configuration.max_burst_out as int,
        ),
        crate::drivers::xhci::context::dequeue_of(out_ring@, offset),
        configuration.max_packet_out as u32,
    ) =~= endpoint_stores(
        out_place,
        2,
        configuration.max_packet_out,
        configuration.max_burst_out,
        (out_ring.region.address + offset) as u64 | 1,
    ));
    assert(crate::drivers::xhci::context::endpoint_ops(
        in_place,
        crate::drivers::xhci::context::endpoint_info(
            6,
            configuration.max_packet_in,
            configuration.max_burst_in as int,
        ),
        crate::drivers::xhci::context::dequeue_of(in_ring@, offset),
        configuration.max_packet_in as u32,
    ) =~= endpoint_stores(
        in_place,
        6,
        configuration.max_packet_in,
        configuration.max_burst_in,
        (in_ring.region.address + offset) as u64 | 1,
    ));
    assert(final(ops)@ =~= final(other_ops)@);
}

} // verus!
