//! The search for a mass-storage device on the root ports and behind a hub.
//!
//! Every root port is tried, not just the first with a connection: a hub that handles both USB 2.0
//! and USB 3.0 shows up on two root ports, and a device is behind the one of its own speed. For the
//! same reason every port of a hub is tried.

use crate::drivers::xhci::context::Placement;
use crate::drivers::xhci::controller::Xhci;
use crate::drivers::xhci::descriptor::{
    HubDescriptor, HubPortStatus, MassStorageConfiguration, SetupPacket, UsbSpeed, USB_CLASS_HUB,
    USB_DT_CONFIG, USB_DT_DEVICE, USB_HUB_PR_HS_MULTI_TT, USB_PORT_FEAT_C_RESET,
    USB_PORT_FEAT_POWER, USB_PORT_FEAT_RESET,
};
use vstd::prelude::*;

verus! {

pub const HUB_SHORT_RESET_DELAY_US: u64 = 20_000;

pub const HUB_LONG_RESET_DELAY_US: u64 = 200_000;

pub const PORT_CONNECT: u32 = 0x1;

pub const PORT_PE: u32 = 0x2;

pub const PORT_RESET: u32 = 0x10;

pub const PORT_POWER: u32 = 0x200;

/// The bits that report a change, and are cleared by writing them.
pub const PORT_CHANGES: u32 = 0xFE_0000;

/// The bits that can be written back without an effect.
pub const PORT_NEUTRAL: u32 = 0x4E00_FFE9;

/// What is awaited of a root port.
#[derive(Clone, Copy, PartialEq, Eq, Debug, Structural)]
pub enum RootPortState {
    /// Its status.
    Status,
    /// Its status after it was powered.
    Powered,
    /// The end of its reset.
    Reset,
    /// Its status after the reset.
    Enabled,
    Done,
}

#[derive(Clone, Copy, PartialEq, Eq, Debug, Structural)]
pub enum RootPortAction {
    /// The status register of the port is read, after a delay.
    Read { delay_us: u64 },
    /// The status register of the port is read until the reset is over and a device is there, or
    /// the time is over. The answer is 1 or 0.
    AwaitReset,
    /// The speed of the device at the port, where there is one that can be used.
    Speed(Option<UsbSpeed>),
}

/// The speed that the status of a root port reports.
pub open spec fn port_speed(status: u32) -> Option<UsbSpeed> {
    let code = (status as int / 0x400) % 16;
    if code == 1 {
        Some(UsbSpeed::Full)
    } else if code == 2 {
        Some(UsbSpeed::Low)
    } else if code == 3 {
        Some(UsbSpeed::High)
    } else if code == 4 {
        Some(UsbSpeed::Super)
    } else {
        None
    }
}

/// What follows on an answer of a root port, and what is written to its status register.
pub open spec fn root_port_next(
    state: RootPortState,
    status: u32,
    power_control: bool,
) -> (RootPortState, RootPortAction, Seq<u32>) {
    let neutral = status & PORT_NEUTRAL;
    let none = Seq::<u32>::empty();
    let nothing = (RootPortState::Done, RootPortAction::Speed(None), none);
    let connected = if status & PORT_CONNECT == 0 {
        nothing
    } else {
        (
            RootPortState::Reset,
            RootPortAction::AwaitReset,
            seq![neutral | PORT_CHANGES, neutral | PORT_RESET],
        )
    };
    match state {
        RootPortState::Status => if power_control && status & PORT_POWER == 0 {
            (
                RootPortState::Powered,
                RootPortAction::Read { delay_us: 20_000 },
                seq![neutral | PORT_POWER],
            )
        } else {
            connected
        },
        RootPortState::Powered => connected,
        RootPortState::Reset => if status == 0 {
            nothing
        } else {
            (RootPortState::Enabled, RootPortAction::Read { delay_us: 0 }, none)
        },
        RootPortState::Enabled => (
            RootPortState::Done,
            RootPortAction::Speed(
                if status & PORT_PE == 0 {
                    None
                } else {
                    port_speed(status)
                },
            ),
            seq![neutral | PORT_CHANGES],
        ),
        RootPortState::Done => nothing,
    }
}

/// The speed that the status of a root port reports.
fn get_port_speed(status: u32) -> (speed: Option<UsbSpeed>)
    ensures
        speed == port_speed(status),
{
    let code: u32 = (status / 0x400) % 16;
    if code == 1 {
        Some(UsbSpeed::Full)
    } else if code == 2 {
        Some(UsbSpeed::Low)
    } else if code == 3 {
        Some(UsbSpeed::High)
    } else if code == 4 {
        Some(UsbSpeed::Super)
    } else {
        None
    }
}

/// Takes the answer of a root port, and tells what is to be done next. What is appended to `writes`
/// goes to the status register of the port.
pub fn reset_root_port(
    state: RootPortState,
    status: u32,
    power_control: bool,
    writes: &mut Vec<u32>,
) -> (next: (RootPortState, RootPortAction))
    ensures
        next.0 == root_port_next(state, status, power_control).0,
        next.1 == root_port_next(state, status, power_control).1,
        final(writes)@ == old(writes)@ + root_port_next(state, status, power_control).2,
{
    let ghost first = writes@;
    let neutral: u32 = status & PORT_NEUTRAL;
    assert(first + Seq::<u32>::empty() =~= first);
    match state {
        RootPortState::Status | RootPortState::Powered => {
            if state == RootPortState::Status && power_control && status & PORT_POWER == 0 {
                writes.push(neutral | PORT_POWER);
                assert(writes@ =~= first + seq![neutral | PORT_POWER]);
                /* A port that was just powered needs time before it reports a device. */
                return (RootPortState::Powered, RootPortAction::Read { delay_us: 20_000 });
            }
            if status & PORT_CONNECT == 0 {
                return (RootPortState::Done, RootPortAction::Speed(None));
            }
            writes.push(neutral | PORT_CHANGES);
            writes.push(neutral | PORT_RESET);
            assert(writes@ =~= first + seq![neutral | PORT_CHANGES, neutral | PORT_RESET]);
            (RootPortState::Reset, RootPortAction::AwaitReset)
        },
        RootPortState::Reset => if status == 0 {
            (RootPortState::Done, RootPortAction::Speed(None))
        } else {
            (RootPortState::Enabled, RootPortAction::Read { delay_us: 0 })
        },
        RootPortState::Enabled => {
            writes.push(neutral | PORT_CHANGES);
            assert(writes@ =~= first + seq![neutral | PORT_CHANGES]);
            if status & PORT_PE == 0 {
                (RootPortState::Done, RootPortAction::Speed(None))
            } else {
                (RootPortState::Done, RootPortAction::Speed(get_port_speed(status)))
            }
        },
        RootPortState::Done => (RootPortState::Done, RootPortAction::Speed(None)),
    }
}

/// What the search waits for.
#[derive(Clone, Copy, PartialEq, Eq, Debug, Structural)]
pub enum ProbeStage {
    RootReset,
    EnableSlot,
    Allocate,
    Address,
    DeviceDescriptor,
    ConfigHeader,
    Configuration { total_length: u16 },
    SetConfiguration { configuration: MassStorageConfiguration },
    ConfigureEndpoints { configuration: MassStorageConfiguration },
    HubConfigHeader,
    HubSetConfiguration,
    HubSetInterface,
    HubHeader,
    HubDescriptor { length: u8 },
    HubUpdate,
    HubResetPort { port: u8 },
    HubPowerPort { port: u8 },
    PortStatus,
    PortReset,
    PortResetStatus,
    PortClear { status: HubPortStatus },
    Found { configuration: MassStorageConfiguration },
    NotFound,
}

/// The answer to what was asked for.
pub enum ProbeReply {
    Failed,
    Done,
    /// The speed of the device at a root port.
    Speed(UsbSpeed),
    /// The slot that was enabled.
    Slot(u8),
    /// What a control transfer has read: a buffer of the length that was asked for, zero behind
    /// the bytes that were moved. `late` tells whether the time for the reset of a port is over.
    Data { bytes: Vec<u8>, moved: u64, late: bool },
}

/// What is to be done next.
#[derive(Clone, Copy, PartialEq, Eq, Debug, Structural)]
pub enum ProbeAction {
    ResetRootPort { port: u8 },
    EnableSlot,
    AllocateDevice { child: bool, placement: Placement },
    AddressDevice { child: bool },
    /// A control transfer at the device itself or at its child, after a delay. `restart` tells that
    /// the time for the reset of a port starts now.
    Control { child: bool, setup: SetupPacket, delay_us: u64, restart: bool },
    UpdateHub { hub: HubDescriptor },
    ConfigureEndpoints { child: bool, configuration: MassStorageConfiguration },
    Found { child: bool, configuration: MassStorageConfiguration },
    NotFound,
}

/// How far the search is.
#[derive(Clone, Copy, PartialEq, Eq, Debug, Structural)]
pub struct Probe {
    pub stage: ProbeStage,
    pub max_ports: u8,
    /// The root port.
    pub port: u8,
    /// The speed and the slot of the device at the root port.
    pub speed: UsbSpeed,
    pub slot_id: u8,
    /// The device at the root port is a hub, and this a device behind it.
    pub child: bool,
    /// The hub can have a transaction translator for each of its ports, and does.
    pub multi_tt_protocol: bool,
    pub multi_tt: bool,
    pub hub: HubDescriptor,
    /// The port of the hub, the speed of the device there, and how often it was reset.
    pub downstream: u8,
    pub downstream_speed: UsbSpeed,
    pub attempt: u8,
}

/// The answer holds `length` bytes.
pub open spec fn has_data(reply: ProbeReply, length: int) -> bool {
    reply is Data && reply->bytes@.len() == length
}

impl Probe {
    /// A control transfer without a delay.
    pub open spec fn ask(self, stage: ProbeStage, setup: SetupPacket) -> (Probe, ProbeAction) {
        (
            Probe { stage, ..self },
            ProbeAction::Control { child: self.child, setup, delay_us: 0, restart: false },
        )
    }

    /// The search goes on with the next root port.
    pub open spec fn next_root(self) -> (Probe, ProbeAction) {
        if self.port < self.max_ports {
            let port = (self.port + 1) as u8;
            (
                Probe { stage: ProbeStage::RootReset, port, child: false, ..self },
                ProbeAction::ResetRootPort { port },
            )
        } else {
            (Probe { stage: ProbeStage::NotFound, ..self }, ProbeAction::NotFound)
        }
    }

    /// The search goes on with the next port of the hub, after a delay.
    pub open spec fn next_downstream(self, delay_us: u64) -> (Probe, ProbeAction) {
        if self.downstream < self.hub.num_ports {
            let downstream = (self.downstream + 1) as u8;
            (
                Probe { stage: ProbeStage::PortStatus, downstream, child: false, ..self },
                ProbeAction::Control {
                    child: false,
                    setup: SetupPacket::port_status(downstream),
                    delay_us,
                    restart: false,
                },
            )
        } else {
            self.next_root()
        }
    }

    /// The device cannot be used.
    pub open spec fn give_up(self) -> (Probe, ProbeAction) {
        if self.child {
            self.next_downstream(0)
        } else {
            self.next_root()
        }
    }

    /// Where the device is. A slow device behind a High-Speed hub is reached through the hub's
    /// transaction translator.
    pub open spec fn placement(self, slot_id: u8) -> Placement {
        if self.child {
            let translated = (self.downstream_speed == UsbSpeed::Low || self.downstream_speed
                == UsbSpeed::Full) && self.speed == UsbSpeed::High;
            Placement {
                slot_id,
                root_hub_port: self.port,
                speed: self.downstream_speed,
                route_string: if self.downstream < 15 {
                    self.downstream as u32
                } else {
                    15
                },
                tt_hub_slot_id: if translated {
                    self.slot_id
                } else {
                    0
                },
                tt_port_number: if translated {
                    self.downstream
                } else {
                    0
                },
                multi_tt: translated && self.hub.multi_tt,
            }
        } else {
            Placement {
                slot_id,
                root_hub_port: self.port,
                speed: self.speed,
                route_string: 0,
                tt_hub_slot_id: 0,
                tt_port_number: 0,
                multi_tt: false,
            }
        }
    }

    /// The speed of the device that is looked at.
    pub open spec fn device_speed(self) -> UsbSpeed {
        if self.child {
            self.downstream_speed
        } else {
            self.speed
        }
    }

    /// The device has answered with its descriptor: it is a hub at a root port, a hub behind a hub,
    /// which is not looked into, or something else.
    pub open spec fn described(self, descriptor: Seq<u8>) -> (Probe, ProbeAction) {
        let config = SetupPacket::descriptor(2, 0, 9);
        if descriptor[4] != 9 {
            self.ask(ProbeStage::ConfigHeader, config)
        } else if self.child {
            self.give_up()
        } else {
            (Probe {
                multi_tt_protocol: self.speed == UsbSpeed::High && descriptor[6] == 2,
                multi_tt: false,
                ..self
            }).ask(ProbeStage::HubConfigHeader, config)
        }
    }

    /// The ports of the hub from `port` on are to be powered. The ports of a SuperSpeed hub are
    /// reset first.
    pub open spec fn power_from(self, port: int) -> (Probe, ProbeAction) {
        if port > self.hub.num_ports {
            let ms = if self.hub.power_on_to_good_ms < 100 {
                100int
            } else {
                self.hub.power_on_to_good_ms as int
            };
            (Probe { downstream: 0, ..self }).next_downstream((1000 * ms) as u64)
        } else if self.speed == UsbSpeed::Super {
            self.ask(
                ProbeStage::HubResetPort { port: port as u8 },
                SetupPacket::port_feature(true, port as u8, 4),
            )
        } else {
            self.ask(
                ProbeStage::HubPowerPort { port: port as u8 },
                SetupPacket::port_feature(true, port as u8, 8),
            )
        }
    }

    /// The port of the hub is to be reset.
    pub open spec fn reset_port(self, attempt: u8) -> (Probe, ProbeAction) {
        (Probe { attempt, ..self }).ask(
            ProbeStage::PortReset,
            SetupPacket::port_feature(true, self.downstream, 4),
        )
    }

    /// The status of a port during its reset.
    pub open spec fn reset_polled(self, status: HubPortStatus, late: bool) -> (Probe, ProbeAction) {
        if status.reset_done() {
            if status.enabled() {
                self.ask(
                    ProbeStage::PortClear { status },
                    SetupPacket::port_feature(false, self.downstream, 20),
                )
            } else if self.attempt < 5 {
                self.reset_port((self.attempt + 1) as u8)
            } else {
                self.next_downstream(0)
            }
        } else if late {
            self.next_downstream(0)
        } else {
            self.ask(ProbeStage::PortResetStatus, SetupPacket::port_status(self.downstream))
        }
    }

    /// A port of the hub was reset.
    pub open spec fn port_ready(self, status: HubPortStatus) -> (Probe, ProbeAction) {
        if status.connected() && status.enabled() {
            (
                Probe {
                    stage: ProbeStage::EnableSlot,
                    child: true,
                    downstream_speed: status.speed(self.speed),
                    ..self
                },
                ProbeAction::EnableSlot,
            )
        } else {
            self.next_downstream(0)
        }
    }

    /// What follows on an answer.
    pub open spec fn next(self, reply: ProbeReply) -> (Probe, ProbeAction) {
        match self.stage {
            ProbeStage::RootReset => match reply {
                ProbeReply::Speed(speed) => (
                    Probe { stage: ProbeStage::EnableSlot, speed, child: false, ..self },
                    ProbeAction::EnableSlot,
                ),
                _ => self.next_root(),
            },
            ProbeStage::EnableSlot => match reply {
                ProbeReply::Slot(slot_id) => (
                    Probe {
                        stage: ProbeStage::Allocate,
                        slot_id: if self.child {
                            self.slot_id
                        } else {
                            slot_id
                        },
                        ..self
                    },
                    ProbeAction::AllocateDevice {
                        child: self.child,
                        placement: self.placement(slot_id),
                    },
                ),
                _ => self.give_up(),
            },
            ProbeStage::Allocate => if reply is Done {
                (
                    Probe { stage: ProbeStage::Address, ..self },
                    ProbeAction::AddressDevice { child: self.child },
                )
            } else {
                self.give_up()
            },
            ProbeStage::Address => if reply is Done {
                self.ask(ProbeStage::DeviceDescriptor, SetupPacket::descriptor(1, 0, 18))
            } else {
                self.give_up()
            },
            ProbeStage::DeviceDescriptor => if has_data(reply, 18) {
                self.described(reply->bytes@)
            } else {
                self.give_up()
            },
            ProbeStage::ConfigHeader => if has_data(reply, 9) {
                let total = crate::drivers::xhci::descriptor::le16(reply->bytes@, 2);
                if 9 <= total <= 512 {
                    self.ask(
                        ProbeStage::Configuration { total_length: total as u16 },
                        SetupPacket::descriptor(2, 0, total),
                    )
                } else {
                    self.give_up()
                }
            } else {
                self.give_up()
            },
            ProbeStage::Configuration { total_length } => if has_data(reply, total_length as int)
                && total_length >= 9 {
                match crate::drivers::xhci::descriptor::mass_storage_of(
                    reply->bytes@,
                    self.device_speed(),
                ) {
                    Some(configuration) => self.ask(
                        ProbeStage::SetConfiguration { configuration },
                        SetupPacket::configuration(reply->bytes@[5]),
                    ),
                    None => self.give_up(),
                }
            } else {
                self.give_up()
            },
            ProbeStage::SetConfiguration { configuration } => if reply is Data {
                (
                    Probe { stage: ProbeStage::ConfigureEndpoints { configuration }, ..self },
                    ProbeAction::ConfigureEndpoints { child: self.child, configuration },
                )
            } else {
                self.give_up()
            },
            ProbeStage::ConfigureEndpoints { configuration } => if reply is Done {
                (
                    Probe { stage: ProbeStage::Found { configuration }, ..self },
                    ProbeAction::Found { child: self.child, configuration },
                )
            } else {
                self.give_up()
            },
            ProbeStage::HubConfigHeader => if has_data(reply, 9) {
                self.ask(
                    ProbeStage::HubSetConfiguration,
                    SetupPacket::configuration(reply->bytes@[5]),
                )
            } else {
                self.next_root()
            },
            ProbeStage::HubSetConfiguration => if reply is Data {
                let (stage, setup) = if self.multi_tt_protocol {
                    (ProbeStage::HubSetInterface, SetupPacket::interface(0, 1))
                } else {
                    (ProbeStage::HubHeader, SetupPacket::hub_descriptor(self.speed, 7))
                };
                (
                    Probe { stage, ..self },
                    ProbeAction::Control {
                        child: self.child,
                        setup,
                        delay_us: 10_000,
                        restart: false,
                    },
                )
            } else {
                self.next_root()
            },
            ProbeStage::HubSetInterface => (Probe { multi_tt: reply is Data, ..self }).ask(
                ProbeStage::HubHeader,
                SetupPacket::hub_descriptor(self.speed, 7),
            ),
            ProbeStage::HubHeader => if has_data(reply, 7) && reply->moved >= 7 && 7
                <= reply->bytes@[0] <= 32 {
                let length = reply->bytes@[0];
                self.ask(
                    ProbeStage::HubDescriptor { length },
                    SetupPacket::hub_descriptor(self.speed, length as int),
                )
            } else {
                self.next_root()
            },
            ProbeStage::HubDescriptor { length } => if has_data(reply, length as int) && length >= 7
                && reply->moved >= length {
                let hub = HubDescriptor::of(reply->bytes@, self.multi_tt);
                (
                    Probe { stage: ProbeStage::HubUpdate, hub, ..self },
                    ProbeAction::UpdateHub { hub },
                )
            } else {
                self.next_root()
            },
            ProbeStage::HubUpdate => if reply is Done {
                self.power_from(1)
            } else {
                self.next_root()
            },
            ProbeStage::HubResetPort { port } => if reply is Data {
                self.ask(
                    ProbeStage::HubPowerPort { port },
                    SetupPacket::port_feature(true, port, 8),
                )
            } else {
                self.next_root()
            },
            ProbeStage::HubPowerPort { port } => if reply is Data {
                self.power_from(port + 1)
            } else {
                self.next_root()
            },
            ProbeStage::PortStatus => if has_data(reply, 4) && reply->moved >= 4
                && HubPortStatus::of(reply->bytes@).connected() {
                self.reset_port(1)
            } else {
                self.next_downstream(0)
            },
            ProbeStage::PortReset => if reply is Data {
                (
                    Probe { stage: ProbeStage::PortResetStatus, ..self },
                    ProbeAction::Control {
                        child: self.child,
                        setup: SetupPacket::port_status(self.downstream),
                        delay_us: if self.attempt == 1 {
                            HUB_SHORT_RESET_DELAY_US
                        } else {
                            HUB_LONG_RESET_DELAY_US
                        },
                        restart: true,
                    },
                )
            } else {
                self.next_downstream(0)
            },
            ProbeStage::PortResetStatus => if has_data(reply, 4) && reply->moved >= 4 {
                self.reset_polled(HubPortStatus::of(reply->bytes@), reply->late)
            } else {
                self.next_downstream(0)
            },
            ProbeStage::PortClear { status } => if reply is Data {
                self.port_ready(status)
            } else {
                self.next_downstream(0)
            },
            ProbeStage::Found { configuration } => (
                self,
                ProbeAction::Found { child: self.child, configuration },
            ),
            ProbeStage::NotFound => (self, ProbeAction::NotFound),
        }
    }

    /// Starts the search on a controller with this many root ports.
    pub fn start(max_ports: u8) -> (start: (Self, ProbeAction))
        ensures
            start.0.max_ports == max_ports,
            start.0.child == false,
            if max_ports > 0 {
                &&& start.0.port == 1
                &&& start.0.stage == ProbeStage::RootReset
                &&& start.1 == ProbeAction::ResetRootPort { port: 1 }
            } else {
                &&& start.0.stage == ProbeStage::NotFound
                &&& start.1 == ProbeAction::NotFound
            },
    {
        let mut probe = Probe {
            stage: ProbeStage::NotFound,
            max_ports,
            port: 0,
            speed: UsbSpeed::Full,
            slot_id: 0,
            child: false,
            multi_tt_protocol: false,
            multi_tt: false,
            hub: HubDescriptor {
                num_ports: 0,
                power_on_to_good_ms: 0,
                tt_think_time: 0,
                multi_tt: false,
            },
            downstream: 0,
            downstream_speed: UsbSpeed::Full,
            attempt: 0,
        };
        let action: ProbeAction = probe.try_next_root();
        (probe, action)
    }

    fn control(&mut self, stage: ProbeStage, setup: SetupPacket) -> (action: ProbeAction)
        ensures
            (*final(self), action) == old(self).ask(stage, setup),
    {
        self.stage = stage;
        ProbeAction::Control { child: self.child, setup, delay_us: 0, restart: false }
    }

    fn try_next_root(&mut self) -> (action: ProbeAction)
        ensures
            (*final(self), action) == old(self).next_root(),
    {
        if self.port < self.max_ports {
            self.port = self.port + 1;
            self.stage = ProbeStage::RootReset;
            self.child = false;
            ProbeAction::ResetRootPort { port: self.port }
        } else {
            self.stage = ProbeStage::NotFound;
            ProbeAction::NotFound
        }
    }

    fn try_next_downstream(&mut self, delay_us: u64) -> (action: ProbeAction)
        ensures
            (*final(self), action) == old(self).next_downstream(delay_us),
    {
        if self.downstream < self.hub.num_ports {
            self.downstream = self.downstream + 1;
            self.stage = ProbeStage::PortStatus;
            self.child = false;
            ProbeAction::Control {
                child: false,
                setup: SetupPacket::hub_get_port_status(self.downstream),
                delay_us,
                restart: false,
            }
        } else {
            self.try_next_root()
        }
    }

    fn abandon(&mut self) -> (action: ProbeAction)
        ensures
            (*final(self), action) == old(self).give_up(),
    {
        if self.child {
            self.try_next_downstream(0)
        } else {
            self.try_next_root()
        }
    }

    fn get_placement(&self, slot_id: u8) -> (placement: Placement)
        ensures
            placement == self.placement(slot_id),
            placement.wf(),
    {
        if self.child {
            let translated: bool = (self.downstream_speed == UsbSpeed::Low || self.downstream_speed
                == UsbSpeed::Full) && self.speed == UsbSpeed::High;
            Placement {
                slot_id,
                root_hub_port: self.port,
                speed: self.downstream_speed,
                route_string: if self.downstream < 15 {
                    self.downstream as u32
                } else {
                    15
                },
                tt_hub_slot_id: if translated {
                    self.slot_id
                } else {
                    0
                },
                tt_port_number: if translated {
                    self.downstream
                } else {
                    0
                },
                multi_tt: translated && self.hub.multi_tt,
            }
        } else {
            Placement {
                slot_id,
                root_hub_port: self.port,
                speed: self.speed,
                route_string: 0,
                tt_hub_slot_id: 0,
                tt_port_number: 0,
                multi_tt: false,
            }
        }
    }

    fn handle_descriptor(&mut self, descriptor: &[u8]) -> (action: ProbeAction)
        requires
            descriptor@.len() == 18,
        ensures
            (*final(self), action) == old(self).described(descriptor@),
    {
        let config: SetupPacket = SetupPacket::get_descriptor(USB_DT_CONFIG, 0, 9);
        if descriptor[4] != USB_CLASS_HUB {
            return self.control(ProbeStage::ConfigHeader, config);
        }
        if self.child {
            return self.abandon();
        }
        self.multi_tt_protocol = self.speed == UsbSpeed::High && descriptor[6]
            == USB_HUB_PR_HS_MULTI_TT;
        self.multi_tt = false;
        self.control(ProbeStage::HubConfigHeader, config)
    }

    fn power_hub_ports(&mut self, port: u16) -> (action: ProbeAction)
        requires
            port <= 256,
        ensures
            (*final(self), action) == old(self).power_from(port as int),
    {
        if port > self.hub.num_ports as u16 {
            let ms: u64 = if self.hub.power_on_to_good_ms < 100 {
                100
            } else {
                self.hub.power_on_to_good_ms as u64
            };
            self.downstream = 0;
            return self.try_next_downstream(1000 * ms);
        }
        let port: u8 = port as u8;
        if self.speed == UsbSpeed::Super {
            self.control(
                ProbeStage::HubResetPort { port },
                SetupPacket::hub_set_port_feature(port, USB_PORT_FEAT_RESET),
            )
        } else {
            self.control(
                ProbeStage::HubPowerPort { port },
                SetupPacket::hub_set_port_feature(port, USB_PORT_FEAT_POWER),
            )
        }
    }

    fn reset_hub_port(&mut self, attempt: u8) -> (action: ProbeAction)
        ensures
            (*final(self), action) == old(self).reset_port(attempt),
    {
        self.attempt = attempt;
        let setup: SetupPacket = SetupPacket::hub_set_port_feature(
            self.downstream,
            USB_PORT_FEAT_RESET,
        );
        self.control(ProbeStage::PortReset, setup)
    }

    fn wait_for_hub_port_reset(&mut self, status: HubPortStatus, late: bool) -> (action: ProbeAction)
        ensures
            (*final(self), action) == old(self).reset_polled(status, late),
    {
        if status.is_reset_done() {
            if status.is_enabled() {
                let setup: SetupPacket = SetupPacket::hub_clear_port_feature(
                    self.downstream,
                    USB_PORT_FEAT_C_RESET,
                );
                self.control(ProbeStage::PortClear { status }, setup)
            } else if self.attempt < 5 {
                self.reset_hub_port(self.attempt + 1)
            } else {
                self.try_next_downstream(0)
            }
        } else if late {
            self.try_next_downstream(0)
        } else {
            let setup: SetupPacket = SetupPacket::hub_get_port_status(self.downstream);
            self.control(ProbeStage::PortResetStatus, setup)
        }
    }

    fn handle_port_ready(&mut self, status: HubPortStatus) -> (action: ProbeAction)
        ensures
            (*final(self), action) == old(self).port_ready(status),
    {
        if status.is_connected() && status.is_enabled() {
            self.downstream_speed = status.hub_port_speed(self.speed);
            self.child = true;
            self.stage = ProbeStage::EnableSlot;
            ProbeAction::EnableSlot
        } else {
            self.try_next_downstream(0)
        }
    }

    /// The bytes that a control transfer has read, where the buffer has the length that was asked
    /// for, with how many of them were moved.
    fn data_of(reply: &ProbeReply, length: usize) -> (data: Option<(&Vec<u8>, u64, bool)>)
        ensures
            match data {
                Some((bytes, moved, late)) => {
                    &&& has_data(*reply, length as int)
                    &&& bytes@ == reply->bytes@
                    &&& moved == reply->moved
                    &&& late == reply->late
                },
                None => !has_data(*reply, length as int),
            },
    {
        match reply {
            ProbeReply::Data { bytes, moved, late } => if bytes.len() == length {
                Some((bytes, *moved, *late))
            } else {
                None
            },
            _ => None,
        }
    }

    /// The steps that lead to a device which has an address.
    fn step_address(&mut self, reply: &ProbeReply) -> (action: ProbeAction)
        requires
            old(self).stage == ProbeStage::RootReset || old(self).stage == ProbeStage::EnableSlot
                || old(self).stage == ProbeStage::Allocate || old(self).stage
                == ProbeStage::Address || old(self).stage == ProbeStage::DeviceDescriptor,
        ensures
            (*final(self), action) == old(self).next(*reply),
    {
        match self.stage {
            ProbeStage::RootReset => match reply {
                ProbeReply::Speed(speed) => {
                    self.speed = *speed;
                    self.child = false;
                    self.stage = ProbeStage::EnableSlot;
                    ProbeAction::EnableSlot
                },
                _ => self.try_next_root(),
            },
            ProbeStage::EnableSlot => match reply {
                ProbeReply::Slot(slot_id) => {
                    let placement: Placement = self.get_placement(*slot_id);
                    if !self.child {
                        self.slot_id = *slot_id;
                    }
                    self.stage = ProbeStage::Allocate;
                    ProbeAction::AllocateDevice { child: self.child, placement }
                },
                _ => self.abandon(),
            },
            ProbeStage::Allocate => match reply {
                ProbeReply::Done => {
                    self.stage = ProbeStage::Address;
                    ProbeAction::AddressDevice { child: self.child }
                },
                _ => self.abandon(),
            },
            ProbeStage::Address => match reply {
                ProbeReply::Done => self.control(
                    ProbeStage::DeviceDescriptor,
                    SetupPacket::get_descriptor(USB_DT_DEVICE, 0, 18),
                ),
                _ => self.abandon(),
            },
            _ => match Self::data_of(reply, 18) {
                Some((bytes, _, _)) => self.handle_descriptor(bytes.as_slice()),
                None => self.abandon(),
            },
        }
    }

    /// The steps that configure a mass-storage device.
    fn step_configure(&mut self, reply: &ProbeReply) -> (action: ProbeAction)
        requires
            old(self).stage is ConfigHeader || old(self).stage is Configuration || old(
                self,
            ).stage is SetConfiguration || old(self).stage is ConfigureEndpoints,
        ensures
            (*final(self), action) == old(self).next(*reply),
    {
        match self.stage {
            ProbeStage::Configuration { total_length } => match Self::data_of(
                reply,
                total_length as usize,
            ) {
                Some((bytes, _, _)) => {
                    if total_length < 9 {
                        return self.abandon();
                    }
                    let speed: UsbSpeed = if self.child {
                        self.downstream_speed
                    } else {
                        self.speed
                    };
                    match crate::drivers::xhci::descriptor::parse_mass_storage_configuration(
                        bytes.as_slice(),
                        speed,
                    ) {
                        Some(configuration) => {
                            let setup: SetupPacket = SetupPacket::set_configuration(bytes[5]);
                            self.control(ProbeStage::SetConfiguration { configuration }, setup)
                        },
                        None => self.abandon(),
                    }
                },
                None => self.abandon(),
            },
            ProbeStage::SetConfiguration { configuration } => match reply {
                ProbeReply::Data { .. } => {
                    self.stage = ProbeStage::ConfigureEndpoints { configuration };
                    ProbeAction::ConfigureEndpoints { child: self.child, configuration }
                },
                _ => self.abandon(),
            },
            ProbeStage::ConfigureEndpoints { configuration } => match reply {
                ProbeReply::Done => {
                    self.stage = ProbeStage::Found { configuration };
                    ProbeAction::Found { child: self.child, configuration }
                },
                _ => self.abandon(),
            },
            _ => match Self::data_of(reply, 9) {
                Some((bytes, _, _)) => {
                    let total_length: u16 = crate::drivers::xhci::descriptor::read_le16(
                        bytes.as_slice(),
                        2,
                    );
                    if total_length > 512 || total_length < 9 {
                        return self.abandon();
                    }
                    self.control(
                        ProbeStage::Configuration { total_length },
                        SetupPacket::get_descriptor(USB_DT_CONFIG, 0, total_length as usize),
                    )
                },
                None => self.abandon(),
            },
        }
    }

    /// The steps that configure a hub.
    fn step_hub(&mut self, reply: &ProbeReply) -> (action: ProbeAction)
        requires
            old(self).stage is HubConfigHeader || old(self).stage is HubSetConfiguration || old(
                self,
            ).stage is HubSetInterface || old(self).stage is HubHeader || old(
                self,
            ).stage is HubDescriptor || old(self).stage is HubUpdate || old(
                self,
            ).stage is HubResetPort || old(self).stage is HubPowerPort,
        ensures
            (*final(self), action) == old(self).next(*reply),
    {
        let answered: bool = match reply {
            ProbeReply::Data { .. } => true,
            _ => false,
        };
        match self.stage {
            ProbeStage::HubSetConfiguration => {
                if !answered {
                    return self.try_next_root();
                }
                let setup: SetupPacket = if self.multi_tt_protocol {
                    self.stage = ProbeStage::HubSetInterface;
                    SetupPacket::set_interface(0, 1)
                } else {
                    self.stage = ProbeStage::HubHeader;
                    SetupPacket::get_hub_descriptor(self.speed, 7)
                };
                ProbeAction::Control { child: self.child, setup, delay_us: 10_000, restart: false }
            },
            ProbeStage::HubSetInterface => {
                self.multi_tt = answered;
                let setup: SetupPacket = SetupPacket::get_hub_descriptor(self.speed, 7);
                self.control(ProbeStage::HubHeader, setup)
            },
            ProbeStage::HubHeader => match Self::data_of(reply, 7) {
                Some((bytes, moved, _)) => {
                    let length: u8 = bytes[0];
                    if moved < 7 || length < 7 || length > 32 {
                        return self.try_next_root();
                    }
                    let setup: SetupPacket = SetupPacket::get_hub_descriptor(
                        self.speed,
                        length as usize,
                    );
                    self.control(ProbeStage::HubDescriptor { length }, setup)
                },
                None => self.try_next_root(),
            },
            ProbeStage::HubDescriptor { length } => match Self::data_of(reply, length as usize) {
                Some((bytes, moved, _)) => {
                    if length < 7 || moved < length as u64 {
                        return self.try_next_root();
                    }
                    self.hub = HubDescriptor::parse(bytes.as_slice(), self.multi_tt);
                    self.stage = ProbeStage::HubUpdate;
                    ProbeAction::UpdateHub { hub: self.hub }
                },
                None => self.try_next_root(),
            },
            ProbeStage::HubUpdate => match reply {
                ProbeReply::Done => self.power_hub_ports(1),
                _ => self.try_next_root(),
            },
            ProbeStage::HubResetPort { port } => if answered {
                self.control(
                    ProbeStage::HubPowerPort { port },
                    SetupPacket::hub_set_port_feature(port, USB_PORT_FEAT_POWER),
                )
            } else {
                self.try_next_root()
            },
            ProbeStage::HubPowerPort { port } => if answered {
                self.power_hub_ports(port as u16 + 1)
            } else {
                self.try_next_root()
            },
            _ => match Self::data_of(reply, 9) {
                Some((bytes, _, _)) => {
                    let setup: SetupPacket = SetupPacket::set_configuration(bytes[5]);
                    self.control(ProbeStage::HubSetConfiguration, setup)
                },
                None => self.try_next_root(),
            },
        }
    }

    /// The status of a port, where all of it was read.
    fn status_of(reply: &ProbeReply) -> (status: Option<(HubPortStatus, bool)>)
        ensures
            match status {
                Some((status, late)) => {
                    &&& has_data(*reply, 4) && reply->moved >= 4
                    &&& status == HubPortStatus::of(reply->bytes@)
                    &&& late == reply->late
                },
                None => !(has_data(*reply, 4) && reply->moved >= 4),
            },
    {
        match Self::data_of(reply, 4) {
            Some((bytes, moved, late)) => {
                if moved < 4 {
                    return None;
                }
                match HubPortStatus::parse(bytes.as_slice()) {
                    Some(status) => Some((status, late)),
                    None => None,
                }
            },
            None => None,
        }
    }

    /// The steps that reset a port of a hub.
    fn step_port(&mut self, reply: &ProbeReply) -> (action: ProbeAction)
        requires
            old(self).stage is PortStatus || old(self).stage is PortReset || old(
                self,
            ).stage is PortResetStatus || old(self).stage is PortClear,
        ensures
            (*final(self), action) == old(self).next(*reply),
    {
        let answered: bool = match reply {
            ProbeReply::Data { .. } => true,
            _ => false,
        };
        match self.stage {
            ProbeStage::PortReset => {
                if !answered {
                    return self.try_next_downstream(0);
                }
                self.stage = ProbeStage::PortResetStatus;
                ProbeAction::Control {
                    child: self.child,
                    setup: SetupPacket::hub_get_port_status(self.downstream),
                    delay_us: if self.attempt == 1 {
                        HUB_SHORT_RESET_DELAY_US
                    } else {
                        HUB_LONG_RESET_DELAY_US
                    },
                    restart: true,
                }
            },
            ProbeStage::PortResetStatus => match Self::status_of(reply) {
                Some((status, late)) => self.wait_for_hub_port_reset(status, late),
                None => self.try_next_downstream(0),
            },
            ProbeStage::PortClear { status } => if answered {
                self.handle_port_ready(status)
            } else {
                self.try_next_downstream(0)
            },
            _ => match Self::status_of(reply) {
                Some((status, _)) => if status.is_connected() {
                    self.reset_hub_port(1)
                } else {
                    self.try_next_downstream(0)
                },
                None => self.try_next_downstream(0),
            },
        }
    }

    /// Takes the answer to the last action, and tells what is to be done next.
    pub fn step(&mut self, reply: &ProbeReply) -> (action: ProbeAction)
        ensures
            (*final(self), action) == old(self).next(*reply),
    {
        match self.stage {
            ProbeStage::RootReset | ProbeStage::EnableSlot | ProbeStage::Allocate
            | ProbeStage::Address | ProbeStage::DeviceDescriptor => self.step_address(reply),
            ProbeStage::ConfigHeader | ProbeStage::Configuration { .. }
            | ProbeStage::SetConfiguration { .. }
            | ProbeStage::ConfigureEndpoints { .. } => self.step_configure(reply),
            ProbeStage::PortStatus | ProbeStage::PortReset | ProbeStage::PortResetStatus
            | ProbeStage::PortClear { .. } => self.step_port(reply),
            ProbeStage::Found { configuration } => ProbeAction::Found {
                child: self.child,
                configuration,
            },
            ProbeStage::NotFound => ProbeAction::NotFound,
            _ => self.step_hub(reply),
        }
    }
}

impl Xhci {
    /// Starts the search for a mass-storage device.
    pub fn probe_mass_storage(&self) -> (start: (Probe, ProbeAction))
        ensures
            start.0.max_ports == self.hcsparams1 / 0x100_0000,
            start.0.child == false,
            if self.hcsparams1 >= 0x100_0000 {
                &&& start.0.port == 1
                &&& start.0.stage == ProbeStage::RootReset
                &&& start.1 == ProbeAction::ResetRootPort { port: 1 }
            } else {
                &&& start.0.stage == ProbeStage::NotFound
                &&& start.1 == ProbeAction::NotFound
            },
    {
        Probe::start(self.max_ports())
    }
}

/// A root port without a usable device does not end the search before the last root port.
pub proof fn every_root_port_is_tried(probe: Probe, reply: ProbeReply)
    requires
        probe.next(reply).1 == ProbeAction::NotFound,
        probe.stage != ProbeStage::NotFound,
    ensures
        probe.port >= probe.max_ports,
{
}

/// A device behind a hub that cannot be used does not hide one at a later port of the hub.
pub proof fn every_hub_port_is_tried(probe: Probe)
    requires
        probe.child,
        probe.downstream < probe.hub.num_ports,
    ensures
        probe.give_up().0.stage == ProbeStage::PortStatus,
        probe.give_up().0.downstream == probe.downstream + 1,
        probe.give_up().0.port == probe.port,
{
}

/// The search ends with a device only after its endpoints were configured, and they are those of a
/// mass-storage interface.
pub proof fn found_device_is_configured(probe: Probe, reply: ProbeReply)
    requires
        probe.next(reply).1 is Found,
        !(probe.stage is Found),
    ensures
        probe.stage is ConfigureEndpoints,
        reply is Done,
        probe.next(reply).1->Found_configuration == probe.stage->ConfigureEndpoints_configuration,
{
}

} // verus!
