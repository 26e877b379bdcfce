use minivisor::drivers::generic_timer::generic_timer_interrupt_handler;
use minivisor::guest_ram::GuestRam;
use minivisor::mmio::gicv2::{inject_interrupt_handler, target_to_cpu_index, GicDistributorMmio};
use minivisor::mmio::pl011::Pl011Mmio;
use minivisor::mmio::virtio_console::{
    ConsoleCounters, ConsoleNotice, ConsoleStep, VirtioConsoleMmio,
};
use minivisor::mmio::virtio_net::{TxStep, VirtioNetMmio};
use minivisor::vgic::{add_virtual_interrupt, maintenance_interrupt_handler, CpuInterface};

const RAM: u64 = 0x4000_0000;
const HOST: u64 = 0x8000_0000;

fn cpu(target: u8) -> CpuInterface {
    CpuInterface {
        target,
        number_of_list_registers: 4,
        list_registers: [0; 4],
        overflow_count: 0,
        sgi_targets: Vec::new(),
    }
}

/// A distributor that delivers the interrupt `int_id` of Group 1 with priority 0xA0.
fn enabled(int_id: usize, me: &mut CpuInterface) -> GicDistributorMmio {
    let mut gic = GicDistributorMmio::new(1);
    gic.write(me, 0x000, 32, 3).unwrap();
    gic.write(me, 0x080 + 4 * (int_id / 32), 32, 1 << (int_id % 32)).unwrap();
    gic.write(me, 0x400 + int_id, 8, 0xA0).unwrap();
    gic.write(me, 0x100 + 4 * (int_id / 32), 32, 1 << (int_id % 32)).unwrap();
    gic
}

fn put(bytes: &mut [u8], at: usize, value: u64, n: usize) {
    bytes[at..at + n].copy_from_slice(&value.to_le_bytes()[..n]);
}

fn get(bytes: &[u8], at: usize, n: usize) -> u64 {
    let mut buffer = [0u8; 8];
    buffer[..n].copy_from_slice(&bytes[at..at + n]);
    u64::from_le_bytes(buffer)
}

fn window(bytes: &mut [u8]) -> GuestRam<'_> {
    GuestRam { virtual_base: RAM, physical_base: HOST, bytes }
}

/// A queue of 8 entries at 0x1000, whose used ring is at 0x2000, with one buffer at 0x4000.
fn with_buffer(bytes: &mut [u8], length: u64, flags: u64) {
    put(bytes, 0x1000, RAM + 0x4000, 8);
    put(bytes, 0x1008, length, 4);
    put(bytes, 0x100C, flags, 2);
    put(bytes, 0x1080 + 2, 1, 2);
}

#[test]
fn guest_ram_numbers_read_back() {
    let mut bytes = vec![0u8; 0x100];
    let mut ram = window(&mut bytes);
    assert_eq!(ram.get_physical_address(RAM + 0x10), Some(HOST + 0x10));
    assert_eq!(ram.get_physical_address(RAM + 0x100), None);
    ram.write_number(HOST + 0x10, 4, 0x1234_5678);
    assert_eq!(ram.read_number(HOST + 0x10, 4), 0x1234_5678);
    assert_eq!(ram.read_number(HOST + 0x11, 2), 0x3456);
    ram.write_bytes(HOST + 0x20, b"abc");
    assert_eq!(ram.read_bytes(HOST + 0x20, 3), b"abc");
    assert!(ram.contains(HOST, 0x100));
    assert!(!ram.contains(HOST + 1, 0x100));
}

#[test]
fn injected_interrupt_takes_a_list_register_once() {
    let mut me = cpu(1);
    assert!(add_virtual_interrupt(&mut me, 0x5008_0021));
    assert!(add_virtual_interrupt(&mut me, 0x5008_0021));
    assert_eq!(me.list_registers, [0x5008_0021, 0, 0, 0]);
    for id in 1..4u32 {
        assert!(add_virtual_interrupt(&mut me, 0x1000_0000 | id));
    }
    assert!(!add_virtual_interrupt(&mut me, 0x1000_0010));
    assert_eq!(me.overflow_count, 1);
    assert_eq!(me.list_registers[1..], [0x1000_0001, 0x1000_0002, 0x1000_0003]);
}

#[test]
fn disabled_interrupt_stays_pending_until_it_is_enabled() {
    let mut me = cpu(1);
    let mut gic = GicDistributorMmio::new(1);
    gic.write(&mut me, 0x000, 32, 3).unwrap();
    gic.write(&mut me, 0x084, 32, 2).unwrap();
    assert!(!gic.trigger_interrupt(&mut me, 33, None));
    assert_eq!(me.list_registers, [0; 4]);
    assert_eq!(gic.read(&me, 0x204, 32), Ok(2));
    gic.write(&mut me, 0x104, 32, 2).unwrap();
    assert_eq!(me.list_registers[0], 0x5008_0021);
}

#[test]
fn maintenance_frees_the_list_register() {
    let mut me = cpu(1);
    let mut gic = enabled(33, &mut me);
    assert!(gic.trigger_interrupt(&mut me, 33, None));
    assert_eq!(me.list_registers[0], 0x5A08_0021);
    assert_eq!(gic.read(&me, 0x204, 32), Ok(2));
    maintenance_interrupt_handler(&mut gic, &mut me, 1);
    assert_eq!(me.list_registers[0], 0);
    assert_eq!(gic.read(&me, 0x204, 32), Ok(0));
}

#[test]
fn maintenance_injects_what_found_no_list_register() {
    let mut me = cpu(1);
    let mut gic = enabled(33, &mut me);
    me.list_registers = [0x1008_0001, 0x1008_0002, 0x1008_0003, 0x1008_0004];
    assert!(!gic.trigger_interrupt(&mut me, 33, None));
    assert_eq!(me.overflow_count, 1);
    maintenance_interrupt_handler(&mut gic, &mut me, 0);
    assert_eq!(me.list_registers[1], 0x1008_0002);
    maintenance_interrupt_handler(&mut gic, &mut me, 2);
    assert_eq!(me.list_registers, [0x1008_0001, 0x5A08_0021, 0x1008_0003, 0x1008_0004]);
    /* It is not injected once more while it is active, nor at a CPU that it does not belong to. */
    me.list_registers[0] = 0;
    me.list_registers[1] = 0x6A08_0021;
    gic.inject_pending_for_current_cpu(&mut me);
    assert_eq!(me.list_registers[..2], [0, 0x6A08_0021]);
    let mut other = cpu(2);
    gic.inject_pending_for_current_cpu(&mut other);
    assert_eq!(other.list_registers, [0; 4]);
}

#[test]
fn timer_is_not_injected_by_maintenance() {
    let mut me = cpu(1);
    let mut gic = enabled(27, &mut me);
    me.list_registers = [0x1008_0001, 0x1008_0002, 0x1008_0003, 0x1008_0004];
    assert!(!generic_timer_interrupt_handler(&mut gic, &mut me, 27));
    maintenance_interrupt_handler(&mut gic, &mut me, 0xF);
    assert_eq!(me.list_registers, [0; 4]);
}

#[test]
fn interrupt_of_another_cpu_is_queued_and_drained() {
    let mut me = cpu(1);
    let mut gic = enabled(33, &mut me);
    assert!(gic.trigger_interrupt_to(&mut me, 33, None, 2));
    assert_eq!(me.sgi_targets, vec![2]);
    assert_eq!(me.list_registers, [0; 4]);
    let mut other = cpu(2);
    inject_interrupt_handler(&mut gic, &mut other);
    assert_eq!(other.list_registers[0], 0x5A08_0021);
    assert!(gic.to_inject_interrupt.is_empty());
}

#[test]
fn private_registers_are_banked() {
    let mut me = cpu(1);
    let mut other = cpu(2);
    let mut gic = GicDistributorMmio::new(1);
    gic.write(&mut me, 0x100, 32, 0x0800_0000).unwrap();
    assert_eq!(gic.read(&me, 0x100, 32), Ok(0x0800_0000));
    assert_eq!(gic.read(&other, 0x100, 32), Ok(0));
    gic.write(&mut other, 0x104, 32, 2).unwrap();
    assert_eq!(gic.read(&me, 0x104, 32), Ok(2));
    gic.write(&mut me, 0x184, 32, 2).unwrap();
    assert_eq!(gic.read(&other, 0x104, 32), Ok(0));
    assert_eq!(gic.read(&me, 0x004, 32), Ok(31));
    assert_eq!(gic.read(&me, 0xFFE8, 32), Ok(0x20));
    assert_eq!(gic.read(&me, 0x123, 32), Ok(gic.read(&me, 0x120, 32).unwrap()));
    assert_eq!(target_to_cpu_index(4), 2);
}

#[test]
fn write_that_cannot_be_delivered_is_not_accepted() {
    let mut me = cpu(1);
    let mut gic = GicDistributorMmio::new(1);
    gic.write(&mut me, 0x000, 32, 3).unwrap();
    gic.write(&mut me, 0x17C, 32, 0x1000_0000).unwrap();
    assert!(!gic.accepts_write(&me, 0x27C, 32, 0x1000_0000));
    assert!(gic.accepts_write(&me, 0x27C, 32, 0x0800_0000));
}

#[test]
fn software_interrupt_goes_to_its_targets() {
    let mut me = cpu(1);
    let mut gic = enabled(3, &mut me);
    gic.write(&mut me, 0xF00, 32, (2 << 24) | 3).unwrap();
    assert_eq!(me.list_registers[0] & 0x3FF, 3);
}

#[test]
fn timer_interrupt_names_the_physical_one() {
    let mut me = cpu(1);
    let mut gic = enabled(27, &mut me);
    assert!(generic_timer_interrupt_handler(&mut gic, &mut me, 30));
    assert_eq!(me.list_registers[0], 0xDA00_781B);
    let mut off = GicDistributorMmio::new(1);
    assert!(!generic_timer_interrupt_handler(&mut off, &mut me, 30));
}

#[test]
fn uart_keeps_input_in_order() {
    let mut me = cpu(1);
    let mut gic = GicDistributorMmio::new(1);
    let mut uart = Pl011Mmio::new();
    assert_eq!(uart.read(0x018, 32), Ok(0x10));
    for c in b"abc" {
        uart.push(*c, &mut gic, &mut me);
    }
    assert_eq!(uart.read(0x018, 32), Ok(0));
    assert_eq!(uart.read(0x000, 32), Ok(0x61));
    assert_eq!(uart.read(0x000, 32), Ok(0x62));
    assert_eq!(uart.read(0x000, 32), Ok(0x63));
    assert_eq!(uart.read(0x000, 32), Ok(0));
    for i in 0..300u32 {
        uart.push(i as u8, &mut gic, &mut me);
    }
    assert_eq!(uart.read(0x018, 32), Ok(0x40));
    for i in 0..256u32 {
        assert_eq!(uart.read(0x000, 32), Ok((i as u8) as u64));
    }
    assert_eq!(uart.read(0x018, 32), Ok(0x10));
}

#[test]
fn uart_raises_its_interrupt() {
    let mut me = cpu(1);
    let mut gic = enabled(33, &mut me);
    let mut uart = Pl011Mmio::new();
    assert_eq!(uart.write(0x038, 32, 0x10), Ok(None));
    uart.push(0x41, &mut gic, &mut me);
    assert_eq!(me.list_registers[0] & 0x3FF, 33);
    assert_eq!(uart.read(0x040, 32), Ok(0x10));
    assert_eq!(uart.write(0x044, 32, 0x10), Ok(None));
    assert_eq!(uart.read(0x03C, 32), Ok(0));
    assert_eq!(uart.write(0x000, 32, 0x42), Ok(Some(0x42)));
    assert_eq!(uart.read(0xFE0, 32), Ok(0x11));
    assert_eq!(uart.read(0xFFC, 32), Ok(0xB1));
}

fn set_up_queue(write: &mut dyn FnMut(usize, u64), queue: u64) {
    write(0x030, queue);
    write(0x038, 8);
    write(0x040, (RAM + 0x1000) / 0x1000);
}

#[test]
fn delivered_frame_is_in_the_guests_buffer() {
    let mut bytes = vec![0u8; 0x8000];
    with_buffer(&mut bytes, 0x600, 2);
    let mut me = cpu(1);
    let mut gic = enabled(49, &mut me);
    let mut net = VirtioNetMmio::new([2, 0, 0, 0, 0, 9]);
    {
        let ram = window(&mut bytes);
        set_up_queue(&mut |offset, value| assert_eq!(net.write(&ram, offset, 32, value), Ok(false)), 0);
    }
    assert_eq!(net.read(0x040, 32), Ok(0x8000_1000 / 0x1000));
    assert_eq!(net.read(0x105, 8), Ok(9));
    assert_eq!(net.read(0x106, 8), Ok(1));
    let mut ram = window(&mut bytes);
    net.push_rx(&mut ram, b"frame", &mut gic, &mut me);
    assert_eq!(net.read(0x060, 32), Ok(1));
    assert_eq!(me.list_registers[0] & 0x3FF, 49);
    assert_eq!(&bytes[0x4000..0x400A], &[0u8; 10]);
    assert_eq!(&bytes[0x400A..0x400F], b"frame");
    assert_eq!(get(&bytes, 0x2002, 2), 1);
    assert_eq!(get(&bytes, 0x2004, 4), 0);
    assert_eq!(get(&bytes, 0x2008, 4), 15);
}

#[test]
fn frame_that_does_not_fit_is_dropped() {
    let mut bytes = vec![0u8; 0x8000];
    with_buffer(&mut bytes, 12, 2);
    let mut me = cpu(1);
    let mut gic = enabled(49, &mut me);
    let mut net = VirtioNetMmio::new([2, 0, 0, 0, 0, 9]);
    {
        let ram = window(&mut bytes);
        set_up_queue(&mut |offset, value| assert_eq!(net.write(&ram, offset, 32, value), Ok(false)), 0);
    }
    let mut ram = window(&mut bytes);
    net.push_rx(&mut ram, b"frame", &mut gic, &mut me);
    assert_eq!(net.read(0x060, 32), Ok(0));
    assert_eq!(get(&bytes, 0x2002, 2), 0);
}

#[test]
fn transmitted_frame_is_found() {
    let mut bytes = vec![0u8; 0x8000];
    with_buffer(&mut bytes, 10, 1);
    put(&mut bytes, 0x100E, 1, 2);
    put(&mut bytes, 0x1010, RAM + 0x5000, 8);
    put(&mut bytes, 0x1018, 54, 4);
    let mut me = cpu(1);
    let mut gic = enabled(49, &mut me);
    let mut net = VirtioNetMmio::new([2, 0, 0, 0, 0, 9]);
    {
        let ram = window(&mut bytes);
        set_up_queue(&mut |offset, value| assert_eq!(net.write(&ram, offset, 32, value), Ok(false)), 1);
        assert_eq!(net.write(&ram, 0x050, 32, 1), Ok(true));
    }
    let mut ram = window(&mut bytes);
    match net.next_tx(&ram) {
        TxStep::Frame { address, length, descriptor_id, total_length } => {
            assert_eq!(address, Some(HOST + 0x5000));
            assert_eq!((length, descriptor_id, total_length), (54, 0, 64));
            net.finish_tx(&mut ram, descriptor_id, total_length);
        }
        _ => panic!("there is a frame"),
    }
    assert!(matches!(net.next_tx(&ram), TxStep::Idle));
    net.end_tx(&mut gic, &mut me);
    assert_eq!(get(&bytes, 0x2002, 2), 1);
    assert_eq!(get(&bytes, 0x2008, 4), 64);
}

#[test]
fn rings_beyond_the_address_space_are_refused() {
    let mut bytes = vec![0u8; 0x100];
    let ram = window(&mut bytes);
    let net = VirtioNetMmio::new([0; 6]);
    assert!(!net.device.accepts_write(&ram, 0x038, u64::MAX));
    assert!(!net.device.accepts_write(&ram, 0x040, u64::MAX));
    assert!(net.device.accepts_write(&ram, 0x038, 32));
}

#[test]
fn console_input_is_delivered_in_order() {
    let mut bytes = vec![0u8; 0x8000];
    let mut me = cpu(1);
    let mut gic = enabled(50, &mut me);
    let mut console = VirtioConsoleMmio::new();
    {
        let ram = window(&mut bytes);
        set_up_queue(
            &mut |offset, value| {
                assert!(matches!(console.write(&ram, offset, 32, value), Ok(ConsoleNotice::Nothing)))
            },
            0,
        );
    }
    {
        let mut ram = window(&mut bytes);
        console.push_rx(0x61, &mut ram, &mut gic, &mut me);
        console.push_rx(0x62, &mut ram, &mut gic, &mut me);
        assert!(matches!(console.write(&ram, 0x050, 32, 0), Ok(ConsoleNotice::Receive)));
    }
    assert_eq!(console.rx_staging, vec![0x61, 0x62]);
    for i in 0..2usize {
        put(&mut bytes, 0x1000 + 16 * i, RAM + 0x4000 + 0x10 * i as u64, 8);
        put(&mut bytes, 0x1008 + 16 * i, 8, 4);
        put(&mut bytes, 0x100C + 16 * i, 2, 2);
        put(&mut bytes, 0x1084 + 2 * i, i as u64, 2);
    }
    put(&mut bytes, 0x1082, 2, 2);
    let mut ram = window(&mut bytes);
    console.flush_rx(&mut ram, &mut gic, &mut me);
    assert!(console.rx_staging.is_empty());
    assert_eq!((bytes[0x4000], bytes[0x4010]), (0x61, 0x62));
    assert_eq!(get(&bytes, 0x2002, 2), 2);
}

#[test]
fn console_output_is_collected() {
    let mut bytes = vec![0u8; 0x8000];
    with_buffer(&mut bytes, 5, 0);
    bytes[0x4000..0x4005].copy_from_slice(b"hello");
    let mut console = VirtioConsoleMmio::new();
    let mut counters = ConsoleCounters::new();
    {
        let ram = window(&mut bytes);
        set_up_queue(
            &mut |offset, value| {
                assert!(matches!(console.write(&ram, offset, 32, value), Ok(ConsoleNotice::Nothing)))
            },
            1,
        );
        assert!(matches!(console.write(&ram, 0x050, 32, 1), Ok(ConsoleNotice::Transmit)));
    }
    let mut ram = window(&mut bytes);
    match console.next_tx(&mut ram, &mut counters) {
        ConsoleStep::Output(text) => assert_eq!(text, b"hello"),
        _ => panic!("there is text"),
    }
    assert!(matches!(console.next_tx(&mut ram, &mut counters), ConsoleStep::Idle));
    assert_eq!((counters.tx_bufs, counters.tx_bytes), (1, 5));
}

#[test]
fn queued_interrupt_waits_for_a_list_register() {
    let mut me = cpu(1);
    let mut gic = enabled(33, &mut me);
    assert!(gic.trigger_interrupt_to(&mut me, 33, Some(77), 2));
    let entry = gic.to_inject_interrupt[0].1;
    gic.to_inject_interrupt.push((4, 0x1008_0007));
    let mut other = cpu(2);
    other.list_registers = [0x1008_0001, 0x1008_0002, 0x1008_0003, 0x1008_0004];
    inject_interrupt_handler(&mut gic, &mut other);
    assert_eq!(gic.to_inject_interrupt, vec![(2, entry), (4, 0x1008_0007)]);
    assert_eq!(other.overflow_count, 1);
    maintenance_interrupt_handler(&mut gic, &mut other, 4);
    assert_eq!(other.list_registers, [0x1008_0001, 0x1008_0002, entry, 0x1008_0004]);
    assert_eq!(gic.to_inject_interrupt, vec![(4, 0x1008_0007)]);
}
