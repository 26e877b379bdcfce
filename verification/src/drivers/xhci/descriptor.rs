//! USB descriptors and requests.

use vstd::prelude::*;

verus! {

pub const USB_REQ_GET_STATUS: u8 = 0;

pub const USB_REQ_CLEAR_FEATURE: u8 = 1;

pub const USB_REQ_SET_FEATURE: u8 = 3;

pub const USB_REQ_GET_DESCRIPTOR: u8 = 6;

pub const USB_REQ_SET_CONFIGURATION: u8 = 9;

pub const USB_REQ_SET_INTERFACE: u8 = 11;

pub const USB_DIR_IN: u8 = 0x80;

pub const USB_RT_PORT: u8 = 0x23;

pub const USB_RECIP_INTERFACE: u8 = 0x01;

pub const USB_CLASS_HUB: u8 = 0x09;

pub const USB_DT_DEVICE: u8 = 1;

pub const USB_DT_CONFIG: u8 = 2;

pub const USB_DT_INTERFACE: u8 = 4;

pub const USB_DT_ENDPOINT: u8 = 5;

pub const USB_DT_HUB: u8 = 0x29;

pub const USB_DT_SS_HUB: u8 = 0x2A;

pub const USB_DT_SS_EP_COMPANION: u8 = 0x30;

pub const USB_ENDPOINT_XFER_BULK: u8 = 2;

pub const USB_PORT_FEAT_RESET: u16 = 4;

pub const USB_PORT_FEAT_POWER: u16 = 8;

pub const USB_PORT_FEAT_C_RESET: u16 = 20;

pub const USB_HUB_PR_HS_MULTI_TT: u8 = 2;

#[derive(Clone, Copy, PartialEq, Eq, Debug, Structural)]
pub enum UsbSpeed {
    Low,
    Full,
    High,
    Super,
}

/// The first stage of a control transfer.
#[derive(Clone, Copy, PartialEq, Eq, Debug, Structural)]
pub struct SetupPacket {
    pub request_type: u8,
    pub request: u8,
    pub value: u16,
    pub index: u16,
    pub length: u16,
}

impl SetupPacket {
    /// The data stage goes to the host.
    pub open spec fn reads(self) -> bool {
        self.request_type >= 0x80
    }

    pub fn is_in(&self) -> (is_in: bool)
        ensures
            is_in == self.reads(),
    {
        self.request_type >= USB_DIR_IN
    }

    pub open spec fn descriptor(descriptor_type: u8, descriptor_index: u8, length: int) -> Self {
        SetupPacket {
            request_type: 0x80,
            request: 6,
            value: (descriptor_type * 0x100 + descriptor_index) as u16,
            index: 0,
            length: (length % 0x1_0000) as u16,
        }
    }

    /// Asks for `length` bytes of a descriptor of the device.
    pub fn get_descriptor(descriptor_type: u8, descriptor_index: u8, length: usize) -> (setup: Self)
        ensures
            setup == Self::descriptor(descriptor_type, descriptor_index, length as int),
    {
        Self {
            request_type: USB_DIR_IN,
            request: USB_REQ_GET_DESCRIPTOR,
            value: descriptor_type as u16 * 0x100 + descriptor_index as u16,
            index: 0,
            length: (length % 0x1_0000) as u16,
        }
    }

    pub open spec fn configuration(configuration: u8) -> Self {
        SetupPacket {
            request_type: 0,
            request: 9,
            value: configuration as u16,
            index: 0,
            length: 0,
        }
    }

    pub fn set_configuration(configuration: u8) -> (setup: Self)
        ensures
            setup == Self::configuration(configuration),
    {
        Self {
            request_type: 0,
            request: USB_REQ_SET_CONFIGURATION,
            value: configuration as u16,
            index: 0,
            length: 0,
        }
    }

    pub open spec fn interface(interface: u8, alternate: u8) -> Self {
        SetupPacket {
            request_type: 1,
            request: 11,
            value: alternate as u16,
            index: interface as u16,
            length: 0,
        }
    }

    pub fn set_interface(interface: u8, alternate: u8) -> (setup: Self)
        ensures
            setup == Self::interface(interface, alternate),
    {
        Self {
            request_type: USB_RECIP_INTERFACE,
            request: USB_REQ_SET_INTERFACE,
            value: alternate as u16,
            index: interface as u16,
            length: 0,
        }
    }

    pub open spec fn hub_descriptor(speed: UsbSpeed, length: int) -> Self {
        SetupPacket {
            request_type: 0xA0,
            request: 6,
            value: if speed == UsbSpeed::Super {
                0x2A00
            } else {
                0x2900
            },
            index: 0,
            length: length as u16,
        }
    }

    /// Asks for `length` bytes of the hub descriptor.
    pub fn get_hub_descriptor(speed: UsbSpeed, length: usize) -> (setup: Self)
        requires
            length <= 0xFFFF,
        ensures
            setup == Self::hub_descriptor(speed, length as int),
    {
        let descriptor_type: u8 = if speed == UsbSpeed::Super {
            USB_DT_SS_HUB
        } else {
            USB_DT_HUB
        };
        Self {
            request_type: 0xA0,
            request: USB_REQ_GET_DESCRIPTOR,
            value: descriptor_type as u16 * 0x100,
            index: 0,
            length: length as u16,
        }
    }

    pub open spec fn port_status(port: u8) -> Self {
        SetupPacket { request_type: 0xA3, request: 0, value: 0, index: port as u16, length: 4 }
    }

    pub fn hub_get_port_status(port: u8) -> (setup: Self)
        ensures
            setup == Self::port_status(port),
    {
        Self {
            request_type: 0xA3,
            request: USB_REQ_GET_STATUS,
            value: 0,
            index: port as u16,
            length: 4,
        }
    }

    pub open spec fn port_feature(set: bool, port: u8, feature: u16) -> Self {
        SetupPacket {
            request_type: 0x23,
            request: if set {
                3
            } else {
                1
            },
            value: feature,
            index: port as u16,
            length: 0,
        }
    }

    pub fn hub_set_port_feature(port: u8, feature: u16) -> (setup: Self)
        ensures
            setup == Self::port_feature(true, port, feature),
    {
        Self {
            request_type: USB_RT_PORT,
            request: USB_REQ_SET_FEATURE,
            value: feature,
            index: port as u16,
            length: 0,
        }
    }

    pub fn hub_clear_port_feature(port: u8, feature: u16) -> (setup: Self)
        ensures
            setup == Self::port_feature(false, port, feature),
    {
        Self {
            request_type: USB_RT_PORT,
            request: USB_REQ_CLEAR_FEATURE,
            value: feature,
            index: port as u16,
            length: 0,
        }
    }
}

/// The number in two bytes, least significant byte first.
pub open spec fn le16(bytes: Seq<u8>, i: int) -> int {
    bytes[i] + 256 * bytes[i + 1]
}

/// The number in two bytes, least significant byte first.
pub fn read_le16(bytes: &[u8], i: usize) -> (value: u16)
    requires
        i + 1 < bytes@.len(),
    ensures
        value == le16(bytes@, i as int),
{
    bytes[i] as u16 + 256 * bytes[i + 1] as u16
}

/// The place of an endpoint among the endpoint contexts of a device.
pub open spec fn index_of_endpoint(endpoint_address: u8) -> int {
    let number = endpoint_address as int % 16;
    if endpoint_address >= 0x80 {
        2 * number
    } else if number == 0 {
        0
    } else {
        2 * number - 1
    }
}

/// The place of an endpoint among the endpoint contexts of a device.
pub fn endpoint_index(endpoint_address: u8) -> (index: usize)
    ensures
        index == index_of_endpoint(endpoint_address),
        index <= 30,
{
    let number: usize = (endpoint_address % 16) as usize;
    if endpoint_address >= 0x80 {
        number * 2
    } else {
        (number * 2).saturating_sub(1)
    }
}

/// Two endpoints of a device, other than its control endpoint, share an endpoint context only if
/// they have the same number and direction.
pub proof fn endpoint_indices_are_distinct(a: u8, b: u8)
    requires
        a as int % 16 != 0,
        b as int % 16 != 0,
        index_of_endpoint(a) == index_of_endpoint(b),
    ensures
        a as int % 16 == b as int % 16,
        (a >= 0x80) == (b >= 0x80),
{
}

/// A bulk endpoint of a mass-storage interface.
#[derive(Clone, Copy, PartialEq, Eq, Debug, Structural)]
pub struct BulkEndpoint {
    pub address: u8,
    pub max_packet: u16,
    pub max_burst: u8,
}

/// The bulk endpoints of a mass-storage device.
#[derive(Clone, Copy, PartialEq, Eq, Debug, Structural)]
pub struct MassStorageConfiguration {
    pub bulk_in_ep: u8,
    pub bulk_out_ep: u8,
    pub max_packet_in: u16,
    pub max_packet_out: u16,
    pub max_burst_in: u8,
    pub max_burst_out: u8,
    pub max_ep_index: usize,
}

/// What has been found in the descriptors so far.
#[derive(Clone, Copy, PartialEq, Eq, Debug, Structural)]
pub struct EndpointScan {
    /// The current interface is a Bulk-Only mass-storage interface.
    pub active: bool,
    pub bulk_in: Option<BulkEndpoint>,
    pub bulk_out: Option<BulkEndpoint>,
    pub max_ep_index: usize,
}

/// The burst size in the SuperSpeed companion of the endpoint descriptor at `offset`; 0 where it
/// has none that is well formed.
pub open spec fn companion_burst(descriptor: Seq<u8>, offset: int) -> u8 {
    let at = offset + descriptor[offset];
    if at + 2 <= descriptor.len() && descriptor[at + 1] == 0x30 && descriptor[at] >= 6 && at
        + descriptor[at] <= descriptor.len() {
        descriptor[at + 2]
    } else {
        0
    }
}

impl EndpointScan {
    pub open spec fn start() -> EndpointScan {
        EndpointScan { active: false, bulk_in: None, bulk_out: None, max_ep_index: 0 }
    }

    /// What is known once the descriptor at `offset` is read.
    pub open spec fn with(self, descriptor: Seq<u8>, offset: int, speed: UsbSpeed) -> EndpointScan {
        let length = descriptor[offset];
        let kind = descriptor[offset + 1];
        if kind == 4 && length >= 9 {
            EndpointScan {
                active: descriptor[offset + 5] == 0x08 && descriptor[offset + 6] == 0x06
                    && descriptor[offset + 7] == 0x50,
                ..self
            }
        } else if kind == 5 && self.active && length >= 7 && descriptor[offset + 3] as int % 4
            == 2 {
            let endpoint = BulkEndpoint {
                address: descriptor[offset + 2],
                max_packet: le16(descriptor, offset + 4) as u16,
                max_burst: if speed == UsbSpeed::Super {
                    companion_burst(descriptor, offset)
                } else {
                    0
                },
            };
            let index = index_of_endpoint(endpoint.address);
            let max_ep_index = if index > self.max_ep_index {
                index as usize
            } else {
                self.max_ep_index
            };
            if endpoint.address >= 0x80 {
                EndpointScan { bulk_in: Some(endpoint), max_ep_index, ..self }
            } else {
                EndpointScan { bulk_out: Some(endpoint), max_ep_index, ..self }
            }
        } else {
            self
        }
    }
}

/// What is known once all the descriptors from `offset` on are read. A descriptor without length,
/// and one that reaches beyond the end, ends the list.
pub open spec fn scanned_from(
    descriptor: Seq<u8>,
    offset: int,
    speed: UsbSpeed,
    scan: EndpointScan,
) -> EndpointScan
    decreases descriptor.len() - offset,
{
    if offset < 0 || offset + 2 > descriptor.len() || descriptor[offset] == 0 || offset
        + descriptor[offset] > descriptor.len() {
        scan
    } else {
        scanned_from(
            descriptor,
            offset + descriptor[offset],
            speed,
            scan.with(descriptor, offset, speed),
        )
    }
}

/// The mass-storage endpoints in a configuration descriptor.
pub open spec fn mass_storage_of(descriptor: Seq<u8>, speed: UsbSpeed) -> Option<
    MassStorageConfiguration,
> {
    let scan = scanned_from(descriptor, 0, speed, EndpointScan::start());
    match (scan.bulk_in, scan.bulk_out) {
        (Some(bulk_in), Some(bulk_out)) => Some(
            MassStorageConfiguration {
                bulk_in_ep: bulk_in.address,
                bulk_out_ep: bulk_out.address,
                max_packet_in: bulk_in.max_packet,
                max_packet_out: bulk_out.max_packet,
                max_burst_in: bulk_in.max_burst,
                max_burst_out: bulk_out.max_burst,
                max_ep_index: scan.max_ep_index,
            },
        ),
        _ => None,
    }
}

/// The burst size in the SuperSpeed companion of an endpoint descriptor.
fn parse_superspeed_endpoint_companion(descriptor: &[u8], endpoint_offset: usize) -> (max_burst: u8)
    requires
        endpoint_offset + 2 <= descriptor@.len(),
        endpoint_offset + descriptor@[endpoint_offset as int] <= descriptor@.len(),
    ensures
        max_burst == companion_burst(descriptor@, endpoint_offset as int),
{
    let size: usize = descriptor.len();
    let companion_offset: usize = endpoint_offset + descriptor[endpoint_offset] as usize;
    if size - companion_offset < 2 {
        return 0;
    }
    let companion_length: usize = descriptor[companion_offset] as usize;
    let companion_type: u8 = descriptor[companion_offset + 1];
    if companion_type != USB_DT_SS_EP_COMPANION {
        return 0;
    }
    if companion_length < 6 || companion_length > size - companion_offset {
        return 0;
    }
    descriptor[companion_offset + 2]
}

/// Finds the bulk endpoints of the mass-storage interface in a configuration descriptor.
pub fn parse_mass_storage_configuration(descriptor: &[u8], speed: UsbSpeed) -> (configuration: Option<
    MassStorageConfiguration,
>)
    ensures
        configuration == mass_storage_of(descriptor@, speed),
        configuration is Some ==> configuration->0.max_ep_index <= 30,
{
    let size: usize = descriptor.len();
    let mut offset: usize = 0;
    let mut scan = EndpointScan { active: false, bulk_in: None, bulk_out: None, max_ep_index: 0 };
    while size - offset >= 2 && descriptor[offset] != 0 && descriptor[offset] as usize <= size
        - offset
        invariant
            size == descriptor@.len(),
            offset <= size,
            scan.max_ep_index <= 30,
            scanned_from(descriptor@, 0, speed, EndpointScan::start()) == scanned_from(
                descriptor@,
                offset as int,
                speed,
                scan,
            ),
        decreases size - offset,
    {
        let length: usize = descriptor[offset] as usize;
        let kind: u8 = descriptor[offset + 1];
        let ghost before = scan;
        if kind == USB_DT_INTERFACE && length >= 9 {
            scan.active = descriptor[offset + 5] == 0x08 && descriptor[offset + 6] == 0x06
                && descriptor[offset + 7] == 0x50;
        } else if kind == USB_DT_ENDPOINT && scan.active && length >= 7 && descriptor[offset + 3] % 4
            == USB_ENDPOINT_XFER_BULK {
            let address: u8 = descriptor[offset + 2];
            let endpoint = BulkEndpoint {
                address,
                max_packet: read_le16(descriptor, offset + 4),
                max_burst: if speed == UsbSpeed::Super {
                    parse_superspeed_endpoint_companion(descriptor, offset)
                } else {
                    0
                },
            };
            let index: usize = endpoint_index(address);
            if index > scan.max_ep_index {
                scan.max_ep_index = index;
            }
            if address >= 0x80 {
                scan.bulk_in = Some(endpoint);
            } else {
                scan.bulk_out = Some(endpoint);
            }
        }
        assert(scan == before.with(descriptor@, offset as int, speed));
        offset = offset + length;
    }
    match (scan.bulk_in, scan.bulk_out) {
        (Some(bulk_in), Some(bulk_out)) => Some(
            MassStorageConfiguration {
                bulk_in_ep: bulk_in.address,
                bulk_out_ep: bulk_out.address,
                max_packet_in: bulk_in.max_packet,
                max_packet_out: bulk_out.max_packet,
                max_burst_in: bulk_in.max_burst,
                max_burst_out: bulk_out.max_burst,
                max_ep_index: scan.max_ep_index,
            },
        ),
        _ => None,
    }
}

/// What a scan has found are endpoints of the right direction, within reach of the last context.
pub open spec fn scan_is_sound(scan: EndpointScan) -> bool {
    &&& match scan.bulk_in {
        Some(endpoint) => endpoint.address >= 0x80 && index_of_endpoint(endpoint.address)
            <= scan.max_ep_index,
        None => true,
    }
    &&& match scan.bulk_out {
        Some(endpoint) => endpoint.address < 0x80 && index_of_endpoint(endpoint.address)
            <= scan.max_ep_index,
        None => true,
    }
    &&& scan.max_ep_index <= 30
}

proof fn lemma_scan_is_sound(
    descriptor: Seq<u8>,
    offset: int,
    speed: UsbSpeed,
    scan: EndpointScan,
)
    requires
        scan_is_sound(scan),
    ensures
        scan_is_sound(scanned_from(descriptor, offset, speed, scan)),
    decreases descriptor.len() - offset,
{
    if !(offset < 0 || offset + 2 > descriptor.len() || descriptor[offset] == 0 || offset
        + descriptor[offset] > descriptor.len()) {
        lemma_scan_is_sound(
            descriptor,
            offset + descriptor[offset],
            speed,
            scan.with(descriptor, offset, speed),
        );
    }
}

/// The endpoints of a mass-storage device have the directions that they are used in, and the
/// largest index is not below theirs.
pub proof fn mass_storage_endpoints_are_sound(descriptor: Seq<u8>, speed: UsbSpeed)
    requires
        mass_storage_of(descriptor, speed) is Some,
    ensures
        ({
            let configuration = mass_storage_of(descriptor, speed)->0;
            &&& configuration.bulk_in_ep >= 0x80
            &&& configuration.bulk_out_ep < 0x80
            &&& index_of_endpoint(configuration.bulk_in_ep) <= configuration.max_ep_index
            &&& index_of_endpoint(configuration.bulk_out_ep) <= configuration.max_ep_index
            &&& configuration.max_ep_index <= 30
        }),
{
    lemma_scan_is_sound(descriptor, 0, speed, EndpointScan::start());
}

/// What the driver needs to know of a hub.
#[derive(Clone, Copy, PartialEq, Eq, Debug, Structural)]
pub struct HubDescriptor {
    pub num_ports: u8,
    pub power_on_to_good_ms: u16,
    pub tt_think_time: u8,
    pub multi_tt: bool,
}

impl HubDescriptor {
    pub open spec fn of(descriptor: Seq<u8>, multi_tt: bool) -> HubDescriptor {
        HubDescriptor {
            num_ports: descriptor[2],
            power_on_to_good_ms: (2 * descriptor[5]) as u16,
            tt_think_time: ((descriptor[3] / 32) % 4) as u8,
            multi_tt,
        }
    }

    pub fn parse(descriptor: &[u8], multi_tt: bool) -> (hub: Self)
        requires
            descriptor@.len() >= 7,
        ensures
            hub == Self::of(descriptor@, multi_tt),
    {
        Self {
            num_ports: descriptor[2],
            power_on_to_good_ms: descriptor[5] as u16 * 2,
            tt_think_time: (descriptor[3] / 32) % 4,
            multi_tt,
        }
    }
}

/// The state of one port of a hub.
#[derive(Clone, Copy, PartialEq, Eq, Debug, Structural)]
pub struct HubPortStatus {
    pub status: u16,
    pub change: u16,
}

/// A bit of a 16-bit word.
pub open spec fn has_bit(word: u16, bit: int) -> bool {
    (word as int / bit) % 2 == 1
}

impl HubPortStatus {
    pub open spec fn of(data: Seq<u8>) -> HubPortStatus {
        HubPortStatus { status: le16(data, 0) as u16, change: le16(data, 2) as u16 }
    }

    /// `None` where fewer than four bytes were read.
    pub fn parse(data: &[u8]) -> (status: Option<Self>)
        ensures
            status == if data@.len() < 4 {
                None
            } else {
                Some(Self::of(data@))
            },
    {
        if data.len() < 4 {
            None
        } else {
            Some(Self { status: read_le16(data, 0), change: read_le16(data, 2) })
        }
    }

    pub open spec fn connected(self) -> bool {
        has_bit(self.status, 1)
    }

    pub open spec fn enabled(self) -> bool {
        has_bit(self.status, 2)
    }

    /// The reset of the port is over: nothing is connected, or the port reports the end of the
    /// reset or is enabled.
    pub open spec fn reset_done(self) -> bool {
        ||| !self.connected()
        ||| !has_bit(self.status, 0x10) && (has_bit(self.change, 0x10) || self.enabled())
    }

    pub fn is_connected(&self) -> (connected: bool)
        ensures
            connected == self.connected(),
    {
        self.status % 2 == 1
    }

    pub fn is_enabled(&self) -> (enabled: bool)
        ensures
            enabled == self.enabled(),
    {
        (self.status / 2) % 2 == 1
    }

    pub fn is_reset_done(&self) -> (done: bool)
        ensures
            done == self.reset_done(),
    {
        !self.is_connected() || ((self.status / 0x10) % 2 == 0 && ((self.change / 0x10) % 2 == 1
            || self.is_enabled()))
    }

    /// The speed of the device at a port: that of a SuperSpeed hub, or what the two speed bits say.
    pub open spec fn speed(self, hub_speed: UsbSpeed) -> UsbSpeed {
        let bits = (self.status as int / 0x200) % 4;
        if hub_speed == UsbSpeed::Super || bits == 3 {
            UsbSpeed::Super
        } else if bits == 1 {
            UsbSpeed::Low
        } else if bits == 2 {
            UsbSpeed::High
        } else {
            UsbSpeed::Full
        }
    }

    pub fn hub_port_speed(&self, hub_speed: UsbSpeed) -> (speed: UsbSpeed)
        ensures
            speed == self.speed(hub_speed),
    {
        let bits: u16 = (self.status / 0x200) % 4;
        if hub_speed == UsbSpeed::Super || bits == 3 {
            UsbSpeed::Super
        } else if bits == 1 {
            UsbSpeed::Low
        } else if bits == 2 {
            UsbSpeed::High
        } else {
            UsbSpeed::Full
        }
    }
}

} // verus!
