use minivisor::boot::{
    enable_net_interrupt, enable_serial_port_interrupt, entry_main, init_fat32,
    init_gic_cpu_interface, init_gic_hypervisor_interface, init_serial_port,
    is_spin_table_enable_method, net_interrupt, read_cpu_release_address, PartitionError,
};
use minivisor::console::{
    handle_input, Command, Console, ConsoleInput, InputAction, IoCounters, SwitchOutcome,
};
use minivisor::device::RegisterOp;
use minivisor::drivers::genet::Genet;
use minivisor::drivers::gicv2::GicDistributor;
use minivisor::drivers::pl011::Pl011;
use minivisor::drivers::virtio_net::{VirtQueue, VirtioNet};
use minivisor::memory_allocator::MemoryAllocator;
use minivisor::net::{
    get_guest_net_mac, init_physical_net, needs_net_polling_on_wfx, NetRx, NetSending, PhysicalNet,
    DEFAULT_MAC_ADDRESS,
};
use minivisor::vm_list::VmList;

fn line(text: &[u8]) -> Command {
    let mut console = Console::new();
    for c in text {
        assert!(matches!(console.write(*c), ConsoleInput::Shown(shown) if shown == *c));
    }
    match console.write(0x0D) {
        ConsoleInput::Line(command) => command,
        _ => panic!("the line is over"),
    }
}

#[test]
fn commands_are_recognised() {
    assert!(matches!(line(b""), Command::Empty));
    assert!(matches!(line(b"   "), Command::Empty));
    assert!(matches!(line(b"boot"), Command::Boot));
    assert!(matches!(line(b"  spawn now"), Command::Spawn));
    assert!(matches!(line(b"poweroff"), Command::PowerOff));
    assert!(matches!(line(b"stat"), Command::Stat));
    assert!(matches!(line(b"switch"), Command::Switch(None)));
    assert!(matches!(line(b"switch 1 2"), Command::Switch(Some(word)) if word == b"1"));
    assert!(matches!(line(b"echo a  b"), Command::Echo(text) if text == b"a b \n"));
    assert!(matches!(line(b"Boot"), Command::Unknown(name) if name == b"Boot"));
    assert!(matches!(line(&[0xFF]), Command::NotText));
}

#[test]
fn line_holds_64_bytes() {
    let mut console = Console::new();
    for _ in 0..64 {
        assert!(matches!(console.write(0x61), ConsoleInput::Shown(0x61)));
    }
    assert!(matches!(console.write(0x62), ConsoleInput::Ignored));
    assert_eq!(console.buffer_pointer, 64);
    assert_eq!(console.reset_buffer(), *b"Command>");
    assert_eq!(console.buffer_pointer, 0);
    assert!(matches!(console.write(0x08), ConsoleInput::Ignored));
    assert!(matches!(console.write(0x7F), ConsoleInput::Ignored));
}

#[test]
fn line_feed_behind_a_carriage_return_is_ignored() {
    let mut console = Console::new();
    assert!(matches!(console.write(0x0A), ConsoleInput::Line(Command::Empty)));
    assert!(matches!(console.write(0x0D), ConsoleInput::Line(Command::Empty)));
    assert!(matches!(console.write(0x0A), ConsoleInput::Ignored));
}

#[test]
fn commands_end() {
    let mut console = Console::new();
    console.write(0x61);
    let mut active = true;
    assert_eq!(console.end_command(false, &mut active), None);
    assert_eq!((active, console.buffer_pointer), (false, 1));
    assert_eq!(console.end_command(true, &mut active), Some(*b"Command>"));
    assert_eq!((active, console.buffer_pointer), (false, 0));
    assert!(!Console::boot_vm(true) && Console::boot_vm(false) && Console::spawn_vm());
}

#[test]
fn switch_key_moves_the_input() {
    let mut console = Console::new();
    let mut active = false;
    assert!(matches!(handle_input(0x61, &mut active, &mut console), InputAction::Guest(0x61)));
    assert!(matches!(
        handle_input(0x13, &mut active, &mut console),
        InputAction::Activated(prompt) if prompt == *b"Command>"
    ));
    assert!(active);
    assert!(matches!(
        handle_input(0x61, &mut active, &mut console),
        InputAction::Console(ConsoleInput::Shown(0x61))
    ));
    assert!(matches!(handle_input(0x13, &mut active, &mut console), InputAction::Deactivated));
    assert!(!active);
    assert!(matches!(handle_input(0, &mut active, &mut console), InputAction::End));
}

#[test]
fn switch_command() {
    let mut list = VmList::new();
    assert_eq!(Console::switch_vm(&mut list, None), SwitchOutcome::MissingId);
    assert_eq!(Console::switch_vm(&mut list, Some(b"x")), SwitchOutcome::NotANumber);
    assert_eq!(Console::switch_vm(&mut list, Some(b"10")), SwitchOutcome::NotAvailable(16));
}

#[test]
fn counters_are_reported() {
    let counters = IoCounters {
        blk_cycles_total: 540_000,
        blk_cycles_max: 54_000,
        phys_cycles_total: 108_000,
        phys_cycles_max: 53_999,
        uart_writes: 3,
        uart_cycles: 54_000,
        putc_count: 0,
        putc_cycles: 5,
        console_buffers: 4,
        console_bytes: 10,
    };
    let report = Console::stat(54_000_000, &counters);
    assert_eq!((report.blk_total_ms, report.blk_max_ms), (10, 1));
    assert_eq!((report.phys_total_ms, report.phys_max_ms), (2, 0));
    assert_eq!((report.uart_total_ms, report.uart_average_us), (1, 333));
    assert_eq!((report.putc_total_ms, report.putc_average_us), (0, 0));
    assert_eq!(report.console_average_bytes, 2);
}

#[test]
fn boot_arguments() {
    assert_eq!(entry_main(1, b"0x1000"), Err(1));
    assert_eq!(entry_main(2, &[0xFF]), Err(2));
    assert_eq!(entry_main(2, b"zz"), Err(3));
    assert_eq!(entry_main(2, b"3af02bb0"), Ok(0x3AF0_2BB0));
}

#[test]
fn serial_port_is_set_up() {
    let (uart, int_id) = match init_serial_port(Some(Some((0xFE20_1000, 0x200))), &[0, 121, 4]) {
        Ok(found) => found,
        Err(_) => panic!("the UART is there"),
    };
    assert_eq!((uart.base_address, int_id), (0xFE20_1000, 153));
    assert!(matches!(init_serial_port(Some(Some((0, 0x200))), &[0, 121, 1]), Ok((_, 0))));
    assert!(matches!(init_serial_port(None, &[]), Err(5)));
    assert!(matches!(init_serial_port(Some(None), &[]), Err(6)));
    assert!(matches!(init_serial_port(Some(Some((0, 0x45))), &[0, 121, 4]), Err(7)));
}

#[test]
fn interrupts_are_routed() {
    let gic = GicDistributor::new(0xFF84_1000, 0x1000).unwrap();
    let ops = enable_net_interrupt(79, &gic, 1);
    assert_eq!(ops.len(), 6);
    assert_eq!(
        ops[2],
        RegisterOp::Modify { address: 0xFF84_1800 + 76, clear: 0xFF00_0000, set: 0x0100_0000 }
    );
    assert_eq!(ops[5], RegisterOp::Write { address: 0xFF84_1108, value: 1 << 15 });
    let uart = Pl011::new(0xFE20_1000, 0x200).unwrap();
    assert!(enable_serial_port_interrupt(&uart, 0, &gic, 1).is_none());
    assert!(enable_serial_port_interrupt(&uart, 153, &gic, 1).is_some());
    assert_eq!(net_interrupt(&[0, 47]), Some(79));
    assert_eq!(net_interrupt(&[1, 47]), None);
    assert!(init_gic_cpu_interface(0x1000, 0xFFF).is_err());
    assert!(init_gic_cpu_interface(0x1000, 0x2000).is_ok());
    assert!(init_gic_hypervisor_interface(0x1000, 0xFFF).is_err());
    assert!(init_gic_hypervisor_interface(0x1000, 0x1000).is_ok());
}

#[test]
fn fat32_partition_is_found() {
    let mut mbr = [0u8; 512];
    assert_eq!(init_fat32(&mbr), Err(PartitionError::Signature));
    mbr[510] = 0x55;
    mbr[511] = 0xAA;
    assert_eq!(init_fat32(&mbr), Err(PartitionError::NotFound));
    mbr[0x1BE + 4] = 0x83;
    mbr[0x1CE + 4] = 0x0C;
    mbr[0x1CE + 8] = 0x00;
    mbr[0x1CE + 9] = 0x08;
    assert_eq!(init_fat32(&mbr), Ok(0x800));
}

#[test]
fn cpu_nodes() {
    assert!(is_spin_table_enable_method(Some(b"spin-table\0")));
    assert!(!is_spin_table_enable_method(Some(b"spin-tabl")));
    assert!(!is_spin_table_enable_method(Some(b"psci\0.......")));
    assert!(!is_spin_table_enable_method(None));
    assert_eq!(read_cpu_release_address(Some(&[1, 0xD8])), Some(0x1_0000_00D8));
    assert_eq!(read_cpu_release_address(Some(&[1])), None);
    assert_eq!(read_cpu_release_address(None), None);
}

fn virtio(mac: [u8; 6]) -> PhysicalNet {
    PhysicalNet::Virtio(VirtioNet {
        base_address: 0xA00_0000,
        mac,
        rx: VirtQueue::new(0x1_0000),
        tx: VirtQueue::new(0x2_0000),
        rx_buffers: 0x3_0000,
    })
}

#[test]
fn network_devices() {
    let mac = [2, 0, 0, 0, 0, 7];
    assert_eq!(virtio(mac).get_mac_address(), mac);
    assert_eq!(init_physical_net(&Some(virtio(mac))), mac);
    assert_eq!(init_physical_net(&Some(virtio([0; 6]))), DEFAULT_MAC_ADDRESS);
    assert_eq!(init_physical_net(&None), DEFAULT_MAC_ADDRESS);
    assert_eq!(get_guest_net_mac(&Some(virtio([0; 6]))), [0; 6]);
    assert_eq!(get_guest_net_mac(&None), DEFAULT_MAC_ADDRESS);
    assert!(!needs_net_polling_on_wfx(&Some(virtio(mac))));
    assert!(!needs_net_polling_on_wfx(&None));
    let mut allocator = MemoryAllocator::new();
    allocator.free(0x100_0000, 0x100_0000).unwrap();
    let genet = Genet::new(0, 0x1_0000, Some((1, 1, 1)), 0, 0, &mut allocator).unwrap();
    let mut net = PhysicalNet::Genet(genet);
    assert!(net.requires_wfx_polling());
    let mut ops = Vec::new();
    assert_eq!(net.send(0, 0x9000, 60, &mut ops), Ok(NetSending::Genet));
    assert_eq!(ops.len(), 4);
    let mut device = virtio(mac);
    assert!(matches!(device.send(0x8000, 0x9000, 60, &mut ops), Ok(NetSending::Virtio(_))));
}

#[test]
fn sixteen_frames_are_taken_at_a_time() {
    let mut rx = NetRx::new();
    for _ in 0..15 {
        assert!(rx.handle_net_rx(true));
    }
    assert!(!rx.handle_net_rx(true));
    let mut rx = NetRx::new();
    assert!(!rx.handle_net_rx(false));
}
