use minivisor::dma::{DmaRegion, IoOp};
use minivisor::drivers::xhci::controller::{Awaited, CapabilityRegisters, EventPoll, Xhci, XhciError};
use minivisor::drivers::xhci::bring_up::BringUpAction;
use minivisor::drivers::xhci::descriptor::{
    endpoint_index, parse_mass_storage_configuration, HubDescriptor, HubPortStatus, SetupPacket,
    UsbSpeed,
};
use minivisor::drivers::xhci::probe::{
    reset_root_port, Probe, ProbeAction, ProbeReply, RootPortAction, RootPortState,
};
use minivisor::drivers::xhci::request::{needs_bounce_buffer, BulkStep};
use minivisor::drivers::xhci::ring::{EventRing, Trb, TrbRing};
use minivisor::drivers::xhci::transfer::{
    bytes_moved, has_succeeded, max_wave_length, transfer_trb_remainder, Wave,
};
use minivisor::memory_allocator::MemoryAllocator;

fn ram() -> MemoryAllocator {
    let mut allocator = MemoryAllocator::new();
    allocator.free(0x100_0000, 0x100_0000).unwrap();
    allocator
}

fn region(address: u64) -> DmaRegion {
    DmaRegion { address, size: 0x1000, pages: 1 }
}

fn controller(allocator: &mut MemoryAllocator) -> Xhci {
    let registers = CapabilityRegisters {
        capbase: 0x0100_0020,
        hcsparams1: 0x0500_0120,
        hcsparams2: 0,
        hccparams: 0,
        doorbell_offset: 0x100,
        runtime_offset: 0x200,
        page_size_bits: 1,
    };
    let mut ops = Vec::new();
    match Xhci::new(0x6_0000_0000, 0, registers, allocator, &mut ops) {
        Ok(xhci) => xhci,
        Err(_) => panic!("there is memory"),
    }
}

const CONFIGURATION: [u8; 32] = [
    9, 2, 32, 0, 1, 1, 0, 0x80, 50, // configuration
    9, 4, 0, 0, 2, 8, 6, 0x50, 0, // interface: mass storage, SCSI, bulk only
    7, 5, 0x81, 2, 0, 2, 0, // bulk in
    7, 5, 0x02, 2, 0, 2, 0, // bulk out
];

#[test]
fn mass_storage_configuration_is_found() {
    let found = parse_mass_storage_configuration(&CONFIGURATION, UsbSpeed::High).unwrap();
    assert_eq!((found.bulk_in_ep, found.bulk_out_ep), (0x81, 0x02));
    assert_eq!((found.max_packet_in, found.max_packet_out), (512, 512));
    let mut printer = CONFIGURATION;
    printer[14] = 7;
    assert!(parse_mass_storage_configuration(&printer, UsbSpeed::High).is_none());
    assert!(parse_mass_storage_configuration(&CONFIGURATION[..25], UsbSpeed::High).is_none());
    assert_eq!(endpoint_index(0x81), 2);
    assert_eq!(endpoint_index(0x02), 3);
    assert_eq!(endpoint_index(0), 0);
}

#[test]
fn requests_have_their_fields() {
    let setup = SetupPacket::get_descriptor(1, 0, 18);
    assert_eq!(
        (setup.request_type, setup.request, setup.value, setup.index, setup.length),
        (0x80, 6, 0x100, 0, 18)
    );
    assert!(setup.is_in());
    let setup = SetupPacket::set_configuration(1);
    assert_eq!((setup.request_type, setup.request, setup.value), (0, 9, 1));
    assert!(!setup.is_in());
    let setup = SetupPacket::hub_set_port_feature(3, 8);
    assert_eq!((setup.request_type, setup.request, setup.value, setup.index), (0x23, 3, 8, 3));
}

#[test]
fn hub_descriptors() {
    let hub = HubDescriptor::parse(&[9, 0x29, 4, 0, 0, 50, 0, 0, 0], false);
    assert_eq!((hub.num_ports, hub.power_on_to_good_ms), (4, 100));
    let status = HubPortStatus::parse(&[0x03, 0x04, 0x10, 0]).unwrap();
    assert!(status.is_connected() && status.is_enabled() && status.is_reset_done());
    assert_eq!(status.hub_port_speed(UsbSpeed::High), UsbSpeed::High);
    assert!(HubPortStatus::parse(&[0, 0]).is_none());
}

#[test]
fn ring_turns_its_cycle() {
    let mut ops = Vec::new();
    let mut ring = TrbRing::new(region(0x1_0000), 0, &mut ops);
    assert_eq!((ring.enqueue_index, ring.cycle_state), (0, 1));
    ops.clear();
    for i in 0..63u64 {
        ring.push_trb_raw(Trb { parameter: i, status: 0, control: 0x401 }, &mut ops);
    }
    assert_eq!((ring.enqueue_index, ring.cycle_state), (0, 0));
    assert_eq!(ops[0], IoOp::Write { address: 0x1_0000, value: 0 });
    let mut events = EventRing::new(region(0x2_0000));
    let event = Trb { parameter: 0, status: 0x0100_0000, control: 0x8401 };
    assert!(events.is_new(&event));
    for _ in 0..64 {
        events.advance();
    }
    assert!(!events.is_new(&event));
    assert_eq!((event.trb_field_to_type(), event.completion_code()), (33, 1));
    assert_eq!(Trb::of_words([1, 2, 3, 4]).parameter, 0x2_0000_0001);
}

#[test]
fn waves_fit_the_ring() {
    assert_eq!(max_wave_length(0x1_0000, 0x100), 0x100);
    assert_eq!(max_wave_length(0x1_0000, 0x100_0000), 63 * 0x1_0000);
    assert_eq!(max_wave_length(0x1_8000, 0x100_0000), 62 * 0x1_0000 + 0x8000);
    assert_eq!(transfer_trb_remainder(0, 0x1_0000, 0x2_0000, 512), 128);
    assert_eq!(transfer_trb_remainder(0x1_0000, 0x1_0000, 0x2_0000, 512), 0);
    let mut ops = Vec::new();
    let mut ring = TrbRing::new(region(0x1_0000), 0, &mut ops);
    let wave = Wave { address: 0x8_F000, length: 0x2000, max_packet: 512, is_in: true, dma_offset: 0 };
    wave.submit(&mut ring, &mut ops);
    assert_eq!(ring.enqueue_index, 2);
    assert_eq!(ring.control[0], 0x400 + 1 + 4 + 0x10);
    assert_eq!(ring.control[1], 0x400 + 1 + 4 + 0x20);
    let done = Trb { parameter: 0, status: 0x0100_0000, control: 0 };
    assert!(has_succeeded(&done));
    let short = Trb { parameter: 0, status: 0x0D00_0010, control: 0 };
    assert_eq!(bytes_moved(0x2000, &short), 0x1FF0);
}

#[test]
fn controller_awaits_its_events() {
    let mut allocator = ram();
    let mut xhci = controller(&mut allocator);
    assert_eq!(xhci.max_ports(), 5);
    assert_eq!(xhci.portsc_address(1), 0x6_0000_0020 + 0x400);
    assert_eq!(xhci.ring_doorbell(2, 0), IoOp::Write { address: 0x6_0000_0108, value: 1 });
    let mut ops = Vec::new();
    let event = Trb { parameter: 0, status: 0x0100_0000, control: 0x0300_0000 + 33 * 0x400 + 1 };
    assert!(matches!(
        xhci.wait_for_event(Awaited::Command, &event, 0, 100, &mut ops),
        EventPoll::Found
    ));
    assert_eq!(Xhci::enabled_slot(&event), Ok(3));
    assert_eq!(Xhci::command_succeeded(&event, 3), Ok(()));
    let none = Trb { parameter: 0, status: 0, control: 0 };
    assert!(matches!(
        xhci.wait_for_event(Awaited::Command, &none, 0, 100, &mut ops),
        EventPoll::Again
    ));
    assert!(matches!(
        xhci.wait_for_event(Awaited::Command, &none, 100, 100, &mut ops),
        EventPoll::TimedOut
    ));
}

#[test]
fn controller_needs_a_page_size_and_memory() {
    let registers = CapabilityRegisters {
        capbase: 0x0100_0020,
        hcsparams1: 0x0500_0120,
        hcsparams2: 0,
        hccparams: 0,
        doorbell_offset: 0x100,
        runtime_offset: 0x200,
        page_size_bits: 0,
    };
    let mut ops = Vec::new();
    let without = Xhci::new(0x1000, 0, registers, &mut ram(), &mut ops);
    assert!(matches!(without, Err(XhciError::NoPageSize)));
    let registers = CapabilityRegisters { page_size_bits: 1, ..registers };
    let without = Xhci::new(0x1000, 0, registers, &mut MemoryAllocator::new(), &mut ops);
    assert!(matches!(without, Err(XhciError::NoMemory)));
}

#[test]
fn controller_is_brought_up() {
    let mut allocator = ram();
    let mut xhci = controller(&mut allocator);
    let (mut state, mut action) = xhci.start_bring_up();
    let mut ops = Vec::new();
    let mut steps = 0;
    loop {
        let reply = match action {
            /* Halted, and nothing else; the waits succeed. */
            BringUpAction::Read { .. } => 1,
            BringUpAction::Wait { .. } => 1,
            BringUpAction::Ready | BringUpAction::Failed => break,
        };
        let next = xhci.bring_up(state, reply, &mut allocator, &mut ops);
        state = next.0;
        action = next.1;
        steps += 1;
        assert!(steps < 1000);
    }
    assert!(matches!(action, BringUpAction::Ready));
}

#[test]
fn root_port_is_powered_and_reset() {
    let mut writes = Vec::new();
    let (state, action) = reset_root_port(RootPortState::Status, 0, true, &mut writes);
    assert_eq!((state, action), (RootPortState::Powered, RootPortAction::Read { delay_us: 20_000 }));
    assert_eq!(writes, vec![0x200]);
    let (state, action) = reset_root_port(state, 0x201, true, &mut writes);
    assert_eq!((state, action), (RootPortState::Reset, RootPortAction::AwaitReset));
    let (state, _) = reset_root_port(state, 1, true, &mut writes);
    let (state, action) = reset_root_port(state, 0x203 | 4 << 10, true, &mut writes);
    assert_eq!((state, action), (RootPortState::Done, RootPortAction::Speed(Some(UsbSpeed::Super))));
    let (_, action) = reset_root_port(RootPortState::Powered, 0x200, true, &mut writes);
    assert_eq!(action, RootPortAction::Speed(None));
}

fn data(bytes: &[u8]) -> ProbeReply {
    ProbeReply::Data { bytes: bytes.to_vec(), moved: bytes.len() as u64, late: false }
}

#[test]
fn device_at_a_root_port_is_found() {
    let (mut probe, action) = Probe::start(2);
    assert_eq!(action, ProbeAction::ResetRootPort { port: 1 });
    assert_eq!(probe.step(&ProbeReply::Failed), ProbeAction::ResetRootPort { port: 2 });
    assert_eq!(probe.step(&ProbeReply::Speed(UsbSpeed::High)), ProbeAction::EnableSlot);
    assert!(matches!(
        probe.step(&ProbeReply::Slot(1)),
        ProbeAction::AllocateDevice { child: false, .. }
    ));
    assert_eq!(probe.step(&ProbeReply::Done), ProbeAction::AddressDevice { child: false });
    assert!(matches!(probe.step(&ProbeReply::Done), ProbeAction::Control { child: false, .. }));
    let mut device = [0u8; 18];
    device[0] = 18;
    device[1] = 1;
    device[17] = 1;
    assert!(matches!(probe.step(&data(&device)), ProbeAction::Control { .. }));
    assert!(matches!(probe.step(&data(&CONFIGURATION[..9])), ProbeAction::Control { .. }));
    assert!(matches!(probe.step(&data(&CONFIGURATION)), ProbeAction::Control { .. }));
    assert!(matches!(
        probe.step(&data(&[])),
        ProbeAction::ConfigureEndpoints { child: false, .. }
    ));
    match probe.step(&ProbeReply::Done) {
        ProbeAction::Found { child, configuration } => {
            assert!(!child);
            assert_eq!(configuration.bulk_in_ep, 0x81);
        }
        _ => panic!("the device is found"),
    }
}

#[test]
fn search_ends_at_the_last_port() {
    let (mut probe, _) = Probe::start(1);
    assert_eq!(probe.step(&ProbeReply::Failed), ProbeAction::NotFound);
}

#[test]
fn bulk_transfers_go_on_until_all_is_moved() {
    let mut allocator = ram();
    let mut xhci = controller(&mut allocator);
    let mut ops = Vec::new();
    let mut ring = TrbRing::new(region(0x1_0000), 0, &mut ops);
    let started = xhci
        .submit_bulk_transfer(1, 2, &mut ring, 0x20_0000, 0x1000, 512, true, 64, &mut allocator, &mut ops)
        .unwrap();
    let bulk = match started {
        BulkStep::Waiting(bulk) => bulk,
        _ => panic!("the transfer was started"),
    };
    assert_eq!(bulk.wave_length, 0x1000);
    let done = Trb { parameter: 0, status: 0x0100_0000, control: 0x0103_8001 };
    match xhci.continue_bulk_transfer(&bulk, &mut ring, &done, &mut allocator, &mut ops) {
        BulkStep::Finished(moved) => assert_eq!(moved, 0x1000),
        _ => panic!("the transfer is over"),
    }
    let failed = Trb { parameter: 0, status: 0x0600_0000, control: 0x0103_8001 };
    assert!(matches!(
        xhci.continue_bulk_transfer(&bulk, &mut ring, &failed, &mut allocator, &mut ops),
        BulkStep::Failed
    ));
    assert!(needs_bounce_buffer(0x1010, 0x40, 64));
    assert!(!needs_bounce_buffer(0x1000, 0x40, 64));
}
