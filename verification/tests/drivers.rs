use minivisor::block_backend::{BlockBackend, BlockPlan};
use minivisor::device::RegisterOp;
use minivisor::dma::{DmaRegion, IoOp};
use minivisor::drivers::generic_timer::init_generic_timer_global;
use minivisor::drivers::genet::{Genet, LinkStatus, LinkWait, Poll};
use minivisor::drivers::gicv2::{
    get_gich_lr, get_gich_vtr_list_regs, send_sgi, set_gich_lr, GicCpuInterface, GicDistributor,
    GicHypervisorInterface,
};
use minivisor::drivers::pcie_brcm::{
    read_mmio_window, ConfigAccess, FindStage, PcieBrcm, XhciPciDevice,
};
use minivisor::drivers::pl011::{Pl011, PutcCounters};
use minivisor::drivers::sdhci::{
    CommandAction, CommandState, PioAction, PioState, RegisterRead, ResponseType, SdCommand, Sdhci,
    SetupAction, SetupReply, SetupStage,
};
use minivisor::drivers::usb_mass_storage::{
    command_block_wrapper, command_status, CommandOutcome, CommandStage, RequestStep, ScsiCommand,
    StorageStage, UsbMassStorage,
};
use minivisor::drivers::virtio_net::{NetStage, VirtQueue, VirtioNet};
use minivisor::memory_allocator::MemoryAllocator;
use minivisor::vgic::init_vgic;

fn ram() -> MemoryAllocator {
    let mut allocator = MemoryAllocator::new();
    allocator.free(0x100_0000, 0x100_0000).unwrap();
    allocator
}

#[test]
fn physical_interrupt_controller() {
    let gic = GicDistributor::new(0xFF84_1000, 0x1000).unwrap();
    assert!(GicDistributor::new(0xFF84_1000, 0xFFF).is_err());
    assert_eq!(gic.init(), RegisterOp::Write { address: 0xFF84_1000, value: 3 });
    assert_eq!(
        gic.set_priority(33, 0xA0),
        RegisterOp::Modify { address: 0xFF84_1420, clear: 0xFF00, set: 0xA000 }
    );
    assert_eq!(
        gic.set_target(34, 1),
        RegisterOp::Modify { address: 0xFF84_1820, clear: 0xFF_0000, set: 0x1_0000 }
    );
    assert_eq!(gic.set_enable(33, true), RegisterOp::Write { address: 0xFF84_1104, value: 2 });
    assert_eq!(gic.set_enable(33, false), RegisterOp::Write { address: 0xFF84_1184, value: 2 });
    assert_eq!(
        gic.set_trigger_mode(33, false),
        RegisterOp::Modify { address: 0xFF84_1C08, clear: 0xC, set: 0x8 }
    );
    assert_eq!(gic.get_own_target(0x0202_0202), 2);
    assert_eq!(
        send_sgi(0xFF84_1000, 2, 11),
        RegisterOp::Write { address: 0xFF84_1F00, value: 0x2_000B }
    );
    let interface = GicCpuInterface::new(0xFF84_2000);
    assert_eq!(interface.deactivate(27), RegisterOp::Write { address: 0xFF84_3000, value: 27 });
    assert_eq!(GicCpuInterface::get_acknowledge(0x1C1B).0, 0x1B);
    assert_eq!(get_gich_vtr_list_regs(3), 4);
    assert_eq!(get_gich_lr(0xFF84_4000, 2), 0xFF84_4108);
    assert_eq!(
        set_gich_lr(0xFF84_4000, 1, 7),
        RegisterOp::Write { address: 0xFF84_4104, value: 7 }
    );
    let ops = init_vgic(&GicHypervisorInterface::new(0xFF84_4000), &gic);
    assert_eq!(ops.len(), 9);
    assert_eq!(ops[0], RegisterOp::Write { address: 0xFF84_4000, value: 1 });
    assert_eq!(ops[4], RegisterOp::Write { address: 0xFF84_1100, value: 1 << 25 });
}

#[test]
fn timer_interrupt_is_the_third_one() {
    let cells = [1, 13, 4, 1, 14, 4, 1, 11, 4, 1, 10, 4];
    assert_eq!(init_generic_timer_global(&cells), Some(27));
    let shared = [1, 13, 4, 1, 14, 4, 0, 11, 4];
    assert_eq!(init_generic_timer_global(&shared), None);
}

#[test]
fn physical_uart() {
    assert!(Pl011::new(0xFE20_1000, 0x45).is_err());
    let uart = Pl011::new(0xFE20_1000, 0x200).unwrap();
    assert_eq!((uart.flag_address(), uart.data_address()), (0xFE20_1018, 0xFE20_1000));
    assert!(Pl011::is_tx_fifo_full(0x20) && !Pl011::is_tx_fifo_full(0));
    assert!(Pl011::is_rx_fifo_empty(0x10) && !Pl011::is_rx_fifo_empty(0));
    assert!(!uart.enable_interrupt().is_empty());
    let mut counters = PutcCounters::new();
    counters.record(100, 130);
    assert_eq!((counters.count, counters.cycles), (1, 30));
}

#[test]
fn pcie_windows_and_configuration() {
    let cells = [0x0200_0000, 0, 0xC000_0000, 6, 0, 0, 0x4000_0000];
    assert_eq!(
        read_mmio_window(&cells, 3, 2, 2),
        Some((0xC000_0000, 0x6_0000_0000, 0x4000_0000))
    );
    assert_eq!(read_mmio_window(&cells, 3, 1, 2), None);
    assert_eq!(read_mmio_window(&[0x0300_0000, 0, 0, 0, 0, 0, 0], 3, 2, 2), None);
    let pcie = PcieBrcm::new(0xFD50_0000, None);
    assert_eq!(pcie.translate_bar_to_cpu(0xF800_1000), Some(0x6_0000_1000));
    assert_eq!(pcie.translate_bar_to_cpu(0xFC00_0000), None);
    assert!(PcieBrcm::is_link_up(0x30) && !PcieBrcm::is_link_up(0x10));
    assert_eq!(
        pcie.config_access(1, 0, 0, 0x10),
        Some(ConfigAccess::Indexed {
            index_address: 0xFD50_9000,
            index: 0x10_0000,
            address: 0xFD50_8010,
        })
    );
    assert_eq!(pcie.config_access(1, 0, 0, 0x11), None);
    assert_eq!(pcie.config_access(2, 0, 0, 0x10), None);
}

#[test]
fn xhci_controller_is_found_behind_the_bridge() {
    let pcie = PcieBrcm::new(0xFD50_0000, None);
    let mut stage = FindStage::VendorDevice;
    let registers = [(0, 0x3483_1106), (8, 0x0C03_3001), (4, 0x10_0000), (0x10, 0xF800_0004), (0x14, 0)];
    for (offset, value) in registers {
        assert_eq!(PcieBrcm::awaited_register(stage), offset);
        let (next, write) = pcie.find_xhci_device(stage, value);
        assert_eq!(write, if offset == 4 { Some(0x10_0006) } else { None });
        stage = next;
    }
    assert_eq!(
        stage,
        FindStage::Found(XhciPciDevice {
            vendor_id: 0x1106,
            device_id: 0x3483,
            cpu_mmio_base: 0x6_0000_0000,
        })
    );
    assert_eq!(
        pcie.find_xhci_device(FindStage::VendorDevice, u32::MAX),
        (FindStage::NotFound, None)
    );
}

#[test]
fn card_commands_are_sent() {
    let sdhci = Sdhci { base_address: 0x1000, rca: 0, is_high_capacity: true, transfer_mode_shadow: 0 };
    let command = SdCommand {
        index: 8,
        argument: 0x1AA,
        response_type: ResponseType::R48,
        data_present: false,
    };
    let (state, action) = Sdhci::start_command();
    assert_eq!(state, CommandState::Inhibited { tries: 0 });
    assert!(matches!(action, CommandAction::Read(RegisterRead { offset: 0x24, width: 4 })));
    let mut ops = Vec::new();
    let (state, _) = sdhci.send_command(&command, state, 1, &mut ops);
    assert_eq!(state, CommandState::Inhibited { tries: 1 });
    assert!(ops.is_empty());
    let (state, _) = sdhci.send_command(&command, state, 0, &mut ops);
    assert!(matches!(state, CommandState::Response { .. }));
    assert!(ops.contains(&RegisterOp::Write { address: 0x1008, value: 0x1AA }));
    let (_, action) = sdhci.send_command(&command, state, 0x8000, &mut ops);
    assert!(matches!(action, CommandAction::Failed));
    assert_eq!(
        Sdhci::read_response(ResponseType::R136, [0x0302_0100, 0x0706_0504, 0x0B0A_0908, 0x0F0E_0D0C]),
        [0x0E0D_0C0B, 0x0A09_0807, 0x0605_0403, 0x0201_0000]
    );
    assert_eq!(Sdhci::read_response(ResponseType::R48, [7, 8, 9, 10]), [7, 0, 0, 0]);
}

#[test]
fn card_setup_starts_with_a_reset() {
    let mut ops = Vec::new();
    let (mut sdhci, stage, action) = Sdhci::new(0xFE34_0000, &mut ops);
    assert_eq!(stage, SetupStage::Reset { tries: 0 });
    assert!(matches!(action, SetupAction::Read(_)));
    let (stage, _) = sdhci.initialize_card(stage, &SetupReply::Register(0), &mut ops);
    assert_eq!(stage, SetupStage::Capabilities { fast: false });
    let (failed, action) = sdhci.initialize_card(stage, &SetupReply::Failed, &mut ops);
    assert_eq!(failed, SetupStage::Failed);
    assert!(matches!(action, SetupAction::Failed));
}

#[test]
fn card_blocks_are_moved_in_order() {
    let mut sdhci = Sdhci { base_address: 0x1000, rca: 0, is_high_capacity: true, transfer_mode_shadow: 0 };
    let mut ops = Vec::new();
    assert_eq!(sdhci.read(0, 100, &mut ops), Err(()));
    assert_eq!(sdhci.read(0, 0, &mut ops), Ok(None));
    let operation = sdhci.read(0x1000, 0x400, &mut ops).unwrap().unwrap();
    assert_eq!((operation.command.index, operation.command.argument), (18, 8));
    assert_eq!(operation.number_of_blocks, 2);
    let write = sdhci.write(0x200, 0x200, &mut ops).unwrap().unwrap();
    assert_eq!((write.command.index, write.command.argument), (24, 1));
    let mut state = Sdhci::start_transfer(&operation);
    let (next, action) = sdhci.pio_transfer(&operation, state, 0x20, &mut ops);
    assert_eq!(action, PioAction::MoveBlock { block: 0 });
    state = next;
    let (next, action) = sdhci.pio_transfer(&operation, state, 0, &mut ops);
    assert!(matches!(action, PioAction::Read(_)));
    let (next, action) = sdhci.pio_transfer(&operation, next, 0x20, &mut ops);
    assert_eq!(action, PioAction::MoveBlock { block: 1 });
    let (next, action) = sdhci.pio_transfer(&operation, next, 0x02, &mut ops);
    assert_eq!((next, action), (PioState::Done, PioAction::Finished));
}

#[test]
fn mass_storage_wrappers() {
    let wrapper = command_block_wrapper(7, 0x200, true, &[0x28, 0, 0, 0, 0, 1, 0, 0, 1, 0]).unwrap();
    assert_eq!(wrapper.len(), 31);
    assert_eq!(&wrapper[..15], &[0x55, 0x53, 0x42, 0x43, 7, 0, 0, 0, 0, 2, 0, 0, 0x80, 0, 10]);
    assert_eq!(&wrapper[15..25], &[0x28, 0, 0, 0, 0, 1, 0, 0, 1, 0]);
    assert!(command_block_wrapper(7, 0, true, &[0; 17]).is_none());
    let mut status = vec![0x55, 0x53, 0x42, 0x53, 7, 0, 0, 0, 0, 0, 0, 0, 0];
    assert!(matches!(command_status(&status, 13, 7, 0x200), CommandOutcome::Done(0x200)));
    assert!(matches!(command_status(&status, 13, 8, 0x200), CommandOutcome::Invalid));
    assert!(matches!(command_status(&status, 12, 7, 0x200), CommandOutcome::Invalid));
    status[12] = 1;
    assert!(matches!(command_status(&status, 13, 7, 0x200), CommandOutcome::Refused { .. }));
    let command = ScsiCommand { tag: 1, cdb: vec![0], length: 8, direction_in: true };
    assert!(matches!(command.execute_scsi_command(CommandStage::Wrapper, 31), CommandStage::Data));
    assert_eq!(ScsiCommand::request_sense(3).cdb, vec![3, 0, 0, 0, 18, 0]);
}

#[test]
fn mass_storage_is_asked_for_its_capacity() {
    assert_eq!(UsbMassStorage::setup_command(StorageStage::Inquiry).unwrap().cdb[0], 0x12);
    let (stage, _) = UsbMassStorage::new(StorageStage::Inquiry, Some(&[0; 36]));
    let (stage, _) = UsbMassStorage::new(stage, None);
    assert!(matches!(stage, StorageStage::Sense { round: 0 }));
    let (stage, _) = UsbMassStorage::new(stage, Some(&[0; 18]));
    let (stage, _) = UsbMassStorage::new(stage, Some(&[]));
    assert!(matches!(stage, StorageStage::Capacity));
    let (stage, storage) = UsbMassStorage::new(stage, Some(&[0, 0, 0x0F, 0xFF, 0, 0, 2, 0]));
    assert!(matches!(stage, StorageStage::Ready));
    let storage = storage.unwrap();
    assert_eq!((storage.last_lba, storage.block_size), (0xFFF, 512));
    let (stage, _) = UsbMassStorage::new(StorageStage::Capacity, Some(&[0xFF, 0xFF, 0xFF, 0xFF, 0, 0, 2, 0]));
    assert!(matches!(stage, StorageStage::LongCapacity));
    let (stage, _) = UsbMassStorage::new(StorageStage::Capacity, Some(&[0; 8]));
    assert!(matches!(stage, StorageStage::Failed));
}

#[test]
fn mass_storage_requests_become_commands() {
    let mut storage = UsbMassStorage { tag: 5, block_size: 512, last_lba: 0x2_0000 };
    assert!(storage.read(0x1000, 100, 512).is_err());
    let request = storage.read(0x1000, 0x2000, 512 * 0x1_0001).unwrap();
    assert_eq!((request.lba, request.blocks), (0x10, 0x1_0001));
    match storage.next_command(&request) {
        RequestStep::Command(command) => {
            assert_eq!(command.cdb, vec![0x28, 0, 0, 0, 0, 0x10, 0, 0xFF, 0xFF, 0]);
            assert_eq!(command.length, 512 * 0xFFFF);
        }
        _ => panic!("there are blocks to move"),
    }
    let rest = storage.advance(&request, 512 * 0xFFFF).unwrap();
    assert_eq!((rest.lba, rest.blocks, rest.buffer_address), (0x1_000F, 2, 0x1000 + 512 * 0xFFFF));
    assert!(storage.advance(&request, 5).is_err());
    let last = storage.advance(&rest, 1024).unwrap();
    assert!(matches!(storage.next_command(&last), RequestStep::Finished));
    let beyond = storage.write(0x1000, 512 * 0x2_0000, 1024);
    assert!(beyond.is_err() || matches!(storage.next_command(&beyond.unwrap()), RequestStep::Refused));
}

#[test]
fn block_backend_is_selected_and_dispatches() {
    let mut ops = Vec::new();
    let mut invalid = BlockBackend::invalid();
    assert!(invalid.read(0x1000, 0, 512, &mut ops).is_err());
    let sdhci = Sdhci { base_address: 0x1000, rca: 0, is_high_capacity: true, transfer_mode_shadow: 0 };
    let mut backend = BlockBackend::select(None, Some(sdhci), None).unwrap();
    assert!(matches!(backend.read(0x1000, 0, 512, &mut ops), Ok(BlockPlan::Sdhci(Some(_)))));
    let mut backend = BlockBackend::select(Some(0xA00_0000), None, None).unwrap();
    assert!(matches!(
        backend.write(0x1000, 512, 512, &mut ops),
        Ok(BlockPlan::Virtio { base_address: 0xA00_0000, buffer_address: 0x1000, .. })
    ));
    let usb = UsbMassStorage { tag: 5, block_size: 512, last_lba: 0xFFF };
    let mut backend = BlockBackend::select(None, None, Some(usb)).unwrap();
    assert!(matches!(backend.read(0x1000, 512, 512, &mut ops), Ok(BlockPlan::Usb(_))));
    assert!(BlockBackend::select(None, None, None).is_none());
}

#[test]
fn virtio_descriptors_come_back() {
    let mut queue = VirtQueue::new(0x1000);
    for i in 0..8u16 {
        assert_eq!(queue.allocate_descriptor(), Some(i));
    }
    assert_eq!(queue.allocate_descriptor(), None);
    queue.free_descriptor(3);
    assert_eq!(queue.allocate_descriptor(), Some(3));
}

#[test]
fn virtio_net_sends_and_receives() {
    let mut net = VirtioNet {
        base_address: 0xA00_3E00,
        mac: [2, 0, 0, 0, 0, 1],
        rx: VirtQueue::new(0x1_0000),
        tx: VirtQueue::new(0x2_0000),
        rx_buffers: 0x3_0000,
    };
    let mut ops = Vec::new();
    let sending = net.send(0x4_0000, 0x5_0000, 60, &mut ops).unwrap();
    assert_eq!((sending.header, sending.data, sending.target_idx), (0, 1, 1));
    assert_eq!(ops.last(), Some(&IoOp::Write { address: 0xA00_3E50, value: 1 }));
    net.finish_send(&sending);
    assert_eq!(net.tx.free, [true; 8]);
    assert_eq!(net.next_rx(0), None);
    assert!(net.next_rx(1).is_some());
    let frame = net.poll_rx(2, 70, 1526, &mut ops);
    assert_eq!(frame, (0x3_0000 + 2 * 1526 + 10, 60));
    assert_eq!(net.poll_rx(2, 5, 1526, &mut ops).1, 0);
}

#[test]
fn virtio_net_setup_checks_the_device() {
    let mut allocator = ram();
    let mut ops = Vec::new();
    let mut setup = VirtioNet::new(0xA00_0000);
    assert_eq!(setup.awaited_register(), 0xA00_0000);
    setup.step(0x7472_6976, &mut allocator, &mut ops);
    assert_eq!(setup.stage, NetStage::Version);
    let mut other = VirtioNet::new(0xA00_0000);
    other.step(0, &mut allocator, &mut ops);
    assert_eq!(other.stage, NetStage::Refused);
}

#[test]
fn dma_regions_are_zeroed() {
    let mut allocator = ram();
    let mut ops = Vec::new();
    let region = DmaRegion::new(&mut allocator, 0x1800, 12, &mut ops).unwrap();
    assert_eq!((region.address % 0x1000, region.pages), (0, 2));
    assert!(ops.contains(&IoOp::Zero { address: region.address, size: 0x2000 })
        || ops.contains(&IoOp::Zero { address: region.address, size: 0x1800 }));
    assert_eq!(region.to_bus(0x4_0000_0000), region.address + 0x4_0000_0000);
    let mut none = MemoryAllocator::new();
    assert!(DmaRegion::new(&mut none, 0x1000, 12, &mut ops).is_err());
}

fn genet() -> Genet {
    Genet::new(0xFD58_0000, 0x1_0000, Some((1, 0x600D, 0x84A2)), 0, 0, &mut ram()).unwrap()
}

#[test]
fn genet_is_identified() {
    let net = genet();
    assert_eq!(net.get_base_address(), 0xFD58_0000);
    assert_eq!(net.get_phy_address(), 1);
    assert_eq!(net.get_phy_id(), (0x600D, 0x84A2));
    assert_eq!(net.get_mac_address(), [0x52, 0x54, 0, 0x12, 0x34, 0x56]);
    let named = Genet::new(0, 0x1_0000, Some((1, 1, 1)), 0xDCA6_3201, 0x0203, &mut ram()).unwrap();
    assert_eq!(named.get_mac_address(), [0xDC, 0xA6, 0x32, 0x01, 0x02, 0x03]);
    assert!(Genet::new(0, 0xFFFF, Some((1, 1, 1)), 0, 0, &mut ram()).is_err());
    assert!(Genet::new(0, 0x1_0000, None, 0, 0, &mut ram()).is_err());
    assert!(Genet::new(0, 0x1_0000, Some((1, 1, 1)), 0, 0, &mut MemoryAllocator::new()).is_err());
}

#[test]
fn genet_tries_every_phy_once() {
    let mut tried: Vec<u8> = (0..32).filter_map(Genet::detect_phy).collect();
    assert_eq!(&tried[..3], &[1, 0, 2]);
    tried.sort();
    assert_eq!(tried, (0..32).collect::<Vec<u8>>());
    assert_eq!(Genet::detect_phy(32), None);
    assert_eq!(Genet::try_probe_phy(1, Some(0x600D), Some(0x84A2)), Some((1, 0x600D, 0x84A2)));
    assert_eq!(Genet::try_probe_phy(1, Some(0xFFFF), Some(0x84A2)), None);
    assert_eq!(Genet::try_probe_phy(1, Some(1), None), None);
}

#[test]
fn genet_talks_to_its_phy() {
    assert_eq!(Genet::mdio_read(1, 2), (0x0822_0000, 0x2822_0000));
    assert_eq!(Genet::wait_mdio_complete(0x0000_600D, 1000, 0, 0, 0), Poll::Ready(0x600D));
    assert_eq!(Genet::wait_mdio_complete(0x1000_0000, 1000, 0, 0, 0), Poll::Failed);
    assert_eq!(Genet::wait_mdio_complete(0x2000_0000, 1000, 0, 4, 0), Poll::Again);
    assert_eq!(Genet::wait_mdio_complete(0x2000_0000, 1000, 0, 5, 0), Poll::Failed);
    assert_eq!(Genet::wait_mdio_complete(0x2000_0000, 0, 0, 5, 9_998), Poll::Again);
    assert_eq!(Genet::wait_mdio_complete(0x2000_0000, 0, 0, 5, 9_999), Poll::Failed);
    let link = Genet::read_link_status(Some(0), Some(4), 0).unwrap();
    assert!(link.phy_link && !link.mac_link && link.is_up());
    assert!(Genet::read_link_status(None, Some(4), 0).is_err());
}

#[test]
fn genet_waits_for_the_link() {
    let up = Ok(LinkStatus { phy_link: true, mac_link: false });
    let down = Ok(LinkStatus { phy_link: false, mac_link: false });
    assert_eq!(Genet::wait_link_up(1000, 3000, 0, None, down, 5), LinkWait::Early);
    assert_eq!(Genet::wait_link_up(1000, 3000, 0, None, down, 10), LinkWait::Look);
    assert_eq!(Genet::wait_link_up(1000, 3000, 0, Some(10), down, 19), LinkWait::Early);
    assert_eq!(Genet::wait_link_up(1000, 3000, 0, Some(10), down, 20), LinkWait::Look);
    assert_eq!(Genet::wait_link_up(1000, 3000, 0, Some(10), up, 20), LinkWait::Done(up));
    assert_eq!(Genet::wait_link_up(1000, 3000, 0, Some(10), Err(()), 20), LinkWait::Done(Err(())));
    assert_eq!(Genet::wait_link_up(1000, 3000, 0, Some(10), down, 3000), LinkWait::Done(down));
    assert_eq!(Genet::wait_link_up(0, 3000, 0, None, down, 0), LinkWait::Done(down));
}

#[test]
fn genet_resolves_the_speed() {
    assert_eq!(Genet::resolve_negotiated_speed(0, 0x300, 0xC00, 0, 0), (0, true));
    assert_eq!(Genet::resolve_negotiated_speed(0x20, 0x200, 0x800, 0, 0), (2, false));
    assert_eq!(Genet::resolve_negotiated_speed(0x20, 0x100, 0x400, 0, 0), (2, true));
    assert_eq!(Genet::resolve_negotiated_speed(0x20, 0, 0, 0x1E0, 0x100), (1, false));
    assert_eq!(Genet::resolve_negotiated_speed(0x20, 0, 0, 0x1E0, 0x80), (1, true));
    assert_eq!(Genet::resolve_negotiated_speed(0x20, 0, 0, 0x1E0, 0x40), (0, false));
    assert_eq!(Genet::resolve_negotiated_speed(0x20, 0, 0, 0x1E0, 0x20), (0, true));
}

#[test]
fn genet_data_path() {
    let mut net = genet();
    let mut ops = Vec::new();
    net.umac_reset(&mut ops);
    assert_eq!(ops.len(), 22);
    assert_eq!(ops[10], IoOp::Write { address: 0xFD58_080C, value: 0x5254_0012 });
    ops.clear();
    assert_eq!(net.next_rx_descriptor(5), None);
    net.rx_ring_init(0x1_0102, &mut ops);
    assert_eq!((net.c_index, net.rx_index), (0x102, 2));
    assert_eq!(ops.len(), 4 + 256 * 4 + 5);
    net.tx_ring_init(0x1FF, &mut ops);
    assert_eq!(net.tx_index, 0xFF);
    net.enable_rx_tx(2, false, &mut ops);
    assert_eq!(ops.last(), Some(&IoOp::Write { address: 0xFD58_0808, value: 0xB }));
    ops.clear();
    net.send(0x9000, 60, &mut ops);
    assert_eq!(net.tx_index, 0);
    assert_eq!(ops[0], IoOp::Clean { address: 0x9000, size: 60 });
    assert_eq!(
        ops[3],
        IoOp::Write { address: 0xFD58_0000 + 0x4000 + 12 * 255, value: 0x3C_7FC0 }
    );
    assert_eq!(net.submit_frame(0x1_0005, &mut ops), 6);
    assert_eq!(Genet::poll_sent(6, 6, 0), Poll::Ready(()));
    assert_eq!(Genet::poll_sent(5, 6, 0), Poll::Again);
    assert_eq!(Genet::poll_sent(5, 6, 999_999), Poll::Failed);
    assert_eq!(net.next_rx_descriptor(0x102), None);
    assert_eq!(net.next_rx_descriptor(0x103), Some(0xFD58_0000 + 0x2000 + 24));
    assert_eq!(net.next_rx_descriptor(0x203), None);
    assert_eq!(Genet::rx_length(0x0040_0000), Some(64));
    assert_eq!(Genet::rx_length(0x0040_8000), None);
    assert_eq!(Genet::rx_length(0), None);
    let (invalidate, address, length) = net.poll_rx(0xA000, 64, 1500, &mut ops);
    assert_eq!(invalidate, IoOp::Invalidate { address: 0xA000, size: 64 });
    assert_eq!((address, length), (0xA002, 62));
    assert_eq!((net.c_index, net.rx_index), (0x103, 3));
}
