use minivisor::exception::{
    data_abort_handler, fiq_handler, irq_end, irq_handler, synchronous_handler, DeviceInterrupts,
    IrqSource, Registers, SynchronousException, WfxPolls,
};
use minivisor::guest::{
    activate_vm_on_this_pcpu, add_vm, boot_vm, create_vm, disk_file_name, kernel_entry,
    kernel_placement, setup_hypervisor_registers, Added, CreateError, HostCpu, KernelError,
};
use minivisor::guest_ram::GuestRam;
use minivisor::memory_allocator::MemoryAllocator;
use minivisor::paging::{
    activate_stage2_translation_table, create_stage2_translation_table, map_address_stage2,
    map_device_stage2, needs_tlb_flush, set_vtcr_el2_for_this_pcpu, Descriptor,
};
use minivisor::smp::{
    finish_parking, handle_guest_cpu_off, handle_guest_smc, launch_cpu, launch_outcome,
    park_secondary_cpus_for_smp, CpuNode, CpuOffAction, LaunchOutcome, SmcAction, SmpCpus,
    SmpLaunchRequest, StartPlan,
};
use minivisor::psci::PsciErrorCodes;
use minivisor::stage2::Stage2Table;
use minivisor::trap::{handle_data_abort, AbortError, AbortOutcome};
use minivisor::vgic::CpuInterface;
use minivisor::vm::{El1Context, VM};
use minivisor::vm_list::{
    get_active_vm, get_current_vm, input_net_packet, input_uart, switch_active_vm,
    try_yield_to_next_vcpu, TrappedCpu, VmList,
};

fn cpu() -> CpuInterface {
    CpuInterface {
        target: 1,
        number_of_list_registers: 4,
        list_registers: [0; 4],
        overflow_count: 0,
        sgi_targets: Vec::new(),
    }
}

fn frame(values: [u64; 32]) -> Registers {
    let mut registers = Registers {
        x0: 0, x1: 0, x2: 0, x3: 0, x4: 0, x5: 0, x6: 0, x7: 0, x8: 0, x9: 0, x10: 0,
        x11: 0, x12: 0, x13: 0, x14: 0, x15: 0, x16: 0, x17: 0, x18: 0, x19: 0, x20: 0,
        x21: 0, x22: 0, x23: 0, x24: 0, x25: 0, x26: 0, x27: 0, x28: 0, x29: 0, x30: 0,
        padding: 0,
    };
    registers.load_array(&values);
    registers
}

fn el1(n: u64) -> El1Context {
    El1Context {
        sctlr_el1: n, ttbr0_el1: n, ttbr1_el1: n, tcr_el1: n, mair_el1: n, amair_el1: n,
        vbar_el1: n, cpacr_el1: n, contextidr_el1: n, esr_el1: n, far_el1: n, par_el1: n,
        afsr0_el1: n, afsr1_el1: n, tpidr_el0: n, tpidr_el1: n, sp_el0: n, sp_el1: n,
        elr_el1: n, spsr_el1: n, cntkctl_el1: n, cntv_ctl_el0: n, cntv_cval_el0: n,
    }
}

fn host(mpidr_el1: u64) -> HostCpu {
    HostCpu {
        mpidr_el1,
        id_aa64mmfr0_el1: 0x1124,
        own_target: 1,
        gicv_address: 0xFF84_6000,
        gicv_size: 0x2000,
        el1: el1(7),
    }
}

fn ram() -> MemoryAllocator {
    let mut allocator = MemoryAllocator::new();
    allocator.free(0x1000_0000, 0x4000_0000).unwrap();
    allocator
}

fn guest(list: &mut VmList, allocator: &mut MemoryAllocator, mpidr_el1: u64) -> VM {
    create_vm(list, allocator, &host(mpidr_el1), [2, 0, 0, 0, 0, 1]).unwrap()
}

/// The descriptor that maps a guest address, and its level.
fn walk(vm: &VM, address: u64) -> Option<(u64, u32)> {
    let mut table = &vm.stage2_table;
    let mut level = 0u32;
    loop {
        let index = ((address >> (39 - 9 * level)) & 0x1FF) as usize;
        match &table.children[index] {
            Some(child) => {
                table = child;
                level += 1;
            }
            None => {
                let descriptor = table.descriptors[index].0;
                return if descriptor & 1 == 1 { Some((descriptor, level)) } else { None };
            }
        }
    }
}

#[test]
fn trap_frame_reads_back() {
    let mut values = [0u64; 32];
    for (i, value) in values.iter_mut().enumerate() {
        *value = 100 + i as u64;
    }
    let registers = frame(values);
    assert_eq!(registers.as_array(), values);
    assert_eq!((registers.x0, registers.x30), (100, 130));
}

#[test]
fn exceptions_are_classified() {
    assert_eq!(synchronous_handler(0x9200_0000), SynchronousException::DataAbort);
    assert_eq!(synchronous_handler(0x0600_0000), SynchronousException::Wfx);
    assert_eq!(synchronous_handler(0x5E00_0000), SynchronousException::Smc);
    assert_eq!(synchronous_handler(0x8200_0000), SynchronousException::Unknown(0x20));
}

#[test]
fn data_aborts_are_decoded() {
    let access = data_abort_handler(0x9380_0047 | (3 << 16) | 0x8000, 0x9_0000, 0x0FF8).unwrap();
    assert_eq!(access.address, 0x900_0FF8);
    assert_eq!(access.access_width, 32);
    assert!(access.is_write_access && access.is_64bit_register);
    assert_eq!(access.register_number, 3);
    assert!(data_abort_handler(0x9200_0047, 0, 0).is_none());
}

#[test]
fn interrupts_are_dispatched() {
    let devices = DeviceInterrupts { pl011: 153, timer: 27, net: 79 };
    assert_eq!(irq_handler(153, &devices), IrqSource::Uart);
    assert_eq!(irq_handler(25, &devices), IrqSource::Maintenance);
    assert_eq!(irq_handler(11, &devices), IrqSource::Inject);
    assert_eq!(irq_handler(27, &devices), IrqSource::Timer);
    assert_eq!(irq_handler(79, &devices), IrqSource::Net);
    assert_eq!(irq_handler(1023, &devices), IrqSource::Spurious);
    assert_eq!(irq_handler(99, &devices), IrqSource::Unknown);
    assert_eq!(fiq_handler(153, &devices), IrqSource::Uart);
    assert_eq!(fiq_handler(79, &devices), IrqSource::Unknown);
    assert_eq!(irq_end(27, IrqSource::Timer, true), (true, false));
    assert_eq!(irq_end(27, IrqSource::Timer, false), (true, true));
    assert_eq!(irq_end(1023, IrqSource::Spurious, false), (false, false));
}

#[test]
fn idle_cpus_poll_once_per_millisecond() {
    let mut polls = WfxPolls::new();
    assert!(polls.wfx_handler(0x8000_0001, 54_000, 54_000_000));
    assert!(!polls.wfx_handler(0x8000_0001, 107_999, 54_000_000));
    assert!(polls.wfx_handler(0x8000_0002, 107_999, 54_000_000));
    assert!(polls.wfx_handler(0x8000_0001, 108_000, 54_000_000));
    assert!(!polls.wfx_handler(0x8000_0009, 999_999, 54_000_000));
    assert_eq!(polls.count, 5);
}

#[test]
fn translation_registers() {
    assert_eq!(set_vtcr_el2_for_this_pcpu(4), 0x8000_0000 | 4 << 16 | 0x3F00 | 2 << 6 | 20);
    assert_eq!(set_vtcr_el2_for_this_pcpu(2), 0x8000_0000 | 2 << 16 | 0x3F00 | 1 << 6 | 24);
    assert_eq!(activate_stage2_translation_table(0x1234_5000, 7), 7 << 48 | 0x1234_5000);
    assert!(needs_tlb_flush(0x1234_5000, 7 << 48 | 0x1234_5000));
    assert!(!needs_tlb_flush(0x1234_6000, 7 << 48 | 0x1234_5000));
}

#[test]
fn mapped_pages_translate() {
    let mut allocator = ram();
    let mut table = create_stage2_translation_table(0, &mut allocator).unwrap();
    let vtcr = set_vtcr_el2_for_this_pcpu(0);
    assert_eq!(
        map_address_stage2(&mut table, &mut allocator, vtcr, 0x1000, 0x4000_0000, 0x800, true, true),
        Err(())
    );
    map_address_stage2(&mut table, &mut allocator, vtcr, 0x8020_0000, 0x4020_0000, 0x20_1000, true, false)
        .unwrap();
    let level2 = table.children[1].as_ref().unwrap();
    assert_eq!(level2.descriptors[1], Descriptor::create_leaf(0x8020_0000, 1, false, 2));
    assert_eq!(level2.descriptors[1].0, 0x8020_0000 | 0x400 | 0x300 | 0x40 | 0x3C | 1);
    let level3 = level2.children[2].as_ref().unwrap();
    assert_eq!(level3.descriptors[0].0, 0x8040_0000 | 0x400 | 0x300 | 0x40 | 0x3C | 3);
    assert_eq!(level3.descriptors[1].0, 0);
}

#[test]
fn mapping_without_memory_fails() {
    let mut allocator = MemoryAllocator::new();
    allocator.free(0x10_0000, 0x1000).unwrap();
    let mut table = create_stage2_translation_table(0, &mut allocator).unwrap();
    let vtcr = set_vtcr_el2_for_this_pcpu(0);
    assert!(map_address_stage2(&mut table, &mut allocator, vtcr, 0x1000, 0x1000, 0x1000, true, true).is_err());
}

#[test]
fn new_guest_has_memory_and_devices() {
    let mut list = VmList::new();
    let mut allocator = ram();
    let vm = guest(&mut list, &mut allocator, 0x8000_0000);
    assert_eq!((vm.vm_id(), vm.vmid, vm.owner_affinity), (0, 0, 0));
    assert_eq!((vm.ram_virtual_base_address, vm.ram_size), (0x4000_0000, 0x1000_0000));
    let base = vm.ram_physical_base_address;
    assert_eq!(vm.get_physical_address(0x4000_1234), Some(base + 0x1234));
    assert_eq!(vm.get_physical_address(0x5000_0000), None);
    let (leaf, level) = walk(&vm, 0x4123_4000).unwrap();
    let size = 1u64 << (39 - 9 * level);
    assert_eq!((leaf & 0x0003_FFFF_FFFF_F000) + (0x4123_4000 % size), base + 0x123_4000);
    let (gicv, level) = walk(&vm, 0x801_1000).unwrap();
    assert_eq!(level, 3);
    assert_eq!(gicv & 0x0003_FFFF_FFFF_F000, 0xFF84_7000);
    assert_eq!(gicv & 0x3C, 0);
    assert!(walk(&vm, 0x801_2000).is_none());
    assert!(walk(&vm, 0x900_0000).is_none());
    assert_eq!(vm.context.el1, el1(7));
}

#[test]
fn guests_share_no_memory() {
    let mut list = VmList::new();
    let mut allocator = ram();
    let first = guest(&mut list, &mut allocator, 0);
    let second = guest(&mut list, &mut allocator, 1);
    let (a, b) = (first.ram_physical_base_address, second.ram_physical_base_address);
    assert!(a + 0x1000_0000 <= b || b + 0x1000_0000 <= a);
    assert_ne!(first.stage2_table.address, second.stage2_table.address);
    assert_ne!(first.vmid, second.vmid);
}

#[test]
fn guest_creation_errors() {
    let mut list = VmList::new();
    let mut allocator = MemoryAllocator::new();
    allocator.free(0x10_0000, 0x10_0000).unwrap();
    let failed = create_vm(&mut list, &mut allocator, &host(0), [0; 6]);
    assert!(matches!(failed, Err(CreateError::Memory)));
    let mut allocator = MemoryAllocator::new();
    allocator.free(0x1000_0000, 0x1000_0000).unwrap();
    let failed = create_vm(&mut list, &mut allocator, &host(0), [0; 6]);
    assert!(matches!(failed, Err(CreateError::Table)));
    let mut allocator = MemoryAllocator::new();
    allocator.free(0x1000_0000, 0x1000_1000).unwrap();
    let failed = create_vm(&mut list, &mut allocator, &host(0), [0; 6]);
    assert!(matches!(failed, Err(CreateError::MapMemory)));
    let mut allocator = ram();
    let mut odd = host(0);
    odd.gicv_size = 0x2800;
    let failed = create_vm(&mut list, &mut allocator, &odd, [0; 6]);
    assert!(matches!(failed, Err(CreateError::MapInterface)));
    assert_eq!(list.next_vm_id, 0);
}

#[test]
fn images_are_placed_and_started() {
    let mut list = VmList::new();
    let mut allocator = ram();
    let vm = guest(&mut list, &mut allocator, 0);
    let base = vm.ram_physical_base_address;
    assert_eq!(kernel_placement(&vm, 0x8000), Some((0x4020_0000, base + 0x20_0000)));
    assert_eq!(kernel_placement(&vm, 0x20_0001), Some((0x4040_0000, base + 0x40_0000)));
    assert_eq!(kernel_placement(&vm, 0), Some((0x4000_0000, base)));
    assert_eq!(kernel_placement(&vm, 0x1000_0000), None);
    assert_eq!(kernel_placement(&vm, u64::MAX), None);
    let mut header = [0u8; 64];
    header[56..60].copy_from_slice(&0x644D_5241u32.to_le_bytes());
    header[8..16].copy_from_slice(&0x1_0000u64.to_le_bytes());
    assert_eq!(kernel_entry(&header, 0x4020_0000), Ok(0x4028_0000));
    header[16] = 1;
    assert_eq!(kernel_entry(&header, 0x4020_0000), Ok(0x4021_0000));
    assert_eq!(kernel_entry(&header, u64::MAX), Err(KernelError::Entry));
    header[56] = 0;
    assert_eq!(kernel_entry(&header, 0), Err(KernelError::Magic(0x644D_5200)));
    assert_eq!(kernel_entry(&header[..60], 0), Err(KernelError::Header));
    assert_eq!(disk_file_name(0), Some(*b"DISK0"));
    assert_eq!(disk_file_name(80), None);
    assert_eq!(boot_vm(0x4028_0000, 0x4000_0000), (5, 0x4028_0000, 0x4000_0000));
    let registers = setup_hypervisor_registers(0x410F_D083, 0x8000_0001);
    assert_eq!(registers.hcr_el2, 0x0200_8008_2039);
    assert_eq!((registers.vpidr_el2, registers.vmpidr_el2), (0x410F_D083, 0x8000_0001));
    assert_eq!(
        activate_vm_on_this_pcpu(&vm, 4),
        (set_vtcr_el2_for_this_pcpu(4), vm.stage2_table.address, 0)
    );
}

fn two_on_one_cpu() -> (VmList, MemoryAllocator) {
    let mut list = VmList::new();
    let mut allocator = ram();
    for i in 0..2u64 {
        let vm = guest(&mut list, &mut allocator, 0x8000_0000);
        let table = vm.stage2_table.address;
        let added = add_vm(&mut list, vm, 0x4028_0000 + i);
        if i == 0 {
            assert_eq!(added, Added::Running { tpidr_el2: 0, vttbr_el2: table });
        } else {
            assert_eq!(added, Added::Queued);
        }
    }
    (list, allocator)
}

fn trapped(tpidr_el2: u64, elr_el2: u64) -> TrappedCpu {
    TrappedCpu {
        mpidr_el1: 0x8000_0000,
        tpidr_el2,
        elr_el2,
        spsr_el2: 0x3C5,
        gich_lr: [1, 2, 3, 4],
        el1: el1(9),
    }
}

#[test]
fn vcpus_of_a_cpu_take_turns() {
    let (mut list, _) = two_on_one_cpu();
    assert_eq!(get_active_vm(&list), Some(0));
    assert_eq!(get_current_vm(&list, 1), Some(1));
    assert_eq!(get_current_vm(&list, 2), None);
    let mut values = [5u64; 32];
    values[31] = 0;
    let mut registers = frame(values);
    let switch = try_yield_to_next_vcpu(&mut list, &trapped(0, 0x1000), &mut registers).unwrap();
    assert_eq!((switch.elr_el2, switch.spsr_el2, switch.tpidr_el2), (0x4028_0001, 5, 1));
    assert_eq!(switch.el1, el1(7));
    assert_eq!((registers.x0, registers.x1), (0x4000_0000, 0));
    assert_eq!(list.active, Some(1));
    let back = try_yield_to_next_vcpu(&mut list, &trapped(1, 0x2000), &mut registers).unwrap();
    assert_eq!((back.elr_el2, back.spsr_el2, back.tpidr_el2), (0x1004, 0x3C5, 0));
    assert_eq!((back.gich_lr, back.el1), ([1, 2, 3, 4], el1(9)));
    assert_eq!(registers.as_array(), values);
}

#[test]
fn only_vcpu_does_not_yield() {
    let mut list = VmList::new();
    let mut allocator = ram();
    for mpidr in 0..2u64 {
        let vm = guest(&mut list, &mut allocator, mpidr);
        add_vm(&mut list, vm, 0x4028_0000);
    }
    let mut registers = frame([5; 32]);
    assert!(try_yield_to_next_vcpu(&mut list, &trapped(0, 0x1000), &mut registers).is_none());
    assert_eq!(registers.as_array(), [5; 32]);
}

#[test]
fn input_goes_to_the_active_vm() {
    let (mut list, _) = two_on_one_cpu();
    let mut me = cpu();
    assert!(switch_active_vm(&mut list, 1));
    assert!(!switch_active_vm(&mut list, 2));
    input_uart(&mut list, 0x41, &mut me);
    assert_eq!(list.vms[1].pl011_mmio.rx_fifo_len, 1);
    assert_eq!(list.vms[0].pl011_mmio.rx_fifo_len, 0);
    let mut bytes = vec![0u8; 0x100];
    let mut memory =
        GuestRam { virtual_base: 0x4000_0000, physical_base: 0x1000, bytes: &mut bytes };
    assert!(input_net_packet(&mut list, 0, b"frame", &mut memory, &mut me));
    assert!(!input_net_packet(&mut list, 5, b"frame", &mut memory, &mut me));
    list.vms[0].virtio_net_mmio.device.queues[0].queue_size = 0x1_0000;
    assert!(!input_net_packet(&mut list, 0, b"frame", &mut memory, &mut me));
}

fn abort(list: &mut VmList, address: u64, write: bool, registers: &mut Registers) -> Result<AbortOutcome, AbortError> {
    let mut me = cpu();
    let mut bytes = vec![0u8; 0x100];
    let memory = GuestRam { virtual_base: 0x4000_0000, physical_base: 0x1000, bytes: &mut bytes };
    let syndrome = 0x9380_0000 | (2 << 16) | if write { 0x40 } else { 0 };
    handle_data_abort(
        &mut list.vms[0],
        &mut me,
        &memory,
        syndrome,
        (address / 0x1000) << 4,
        address,
        registers,
    )
}

#[test]
fn accesses_reach_the_devices() {
    let (mut list, _) = two_on_one_cpu();
    let mut registers = frame([0; 32]);
    registers.x2 = 0xFFFF_FFFF_0000_0041;
    assert_eq!(abort(&mut list, 0x900_0000, true, &mut registers), Ok(AbortOutcome::Output(0x41)));
    assert_eq!(abort(&mut list, 0x900_0FE0, false, &mut registers), Ok(AbortOutcome::Done));
    assert_eq!(registers.x2, 0x11);
    assert_eq!(abort(&mut list, 0x800_0004, false, &mut registers), Ok(AbortOutcome::Done));
    assert_eq!(registers.x2, 31);
    assert_eq!(abort(&mut list, 0xA00_0200, false, &mut registers), Ok(AbortOutcome::Done));
    assert_eq!(registers.x2, 0x7472_6976);
    registers.x2 = 1;
    assert_eq!(abort(&mut list, 0xA00_0250, true, &mut registers), Ok(AbortOutcome::NetTx));
    assert_eq!(
        abort(&mut list, 0xA00_0050, true, &mut registers),
        Ok(AbortOutcome::BlockWrite { offset: 0x50, access_width: 32, value: 1 })
    );
    assert!(matches!(
        abort(&mut list, 0xA00_0010, false, &mut registers),
        Ok(AbortOutcome::BlockRead { offset: 0x10, .. })
    ));
    assert!(matches!(abort(&mut list, 0x700_0000, false, &mut registers), Err(AbortError::Read(_))));
    registers.x2 = 0;
    assert_eq!(abort(&mut list, 0xA00_0228, true, &mut registers), Ok(AbortOutcome::Done));
    assert!(matches!(abort(&mut list, 0xA00_0240, false, &mut registers), Err(AbortError::Read(_))));
    registers.x2 = 8;
    assert!(matches!(
        abort(&mut list, 0xA00_0238, true, &mut registers),
        Err(AbortError::Write { .. })
    ));
    let mut me = cpu();
    let mut bytes = vec![0u8; 1];
    let memory = GuestRam { virtual_base: 0, physical_base: 0, bytes: &mut bytes };
    assert_eq!(
        handle_data_abort(&mut list.vms[0], &mut me, &memory, 0x9200_0000, 0, 0, &mut registers),
        Err(AbortError::NoSyndrome)
    );
}

#[test]
fn parked_cpu_is_given_out_once() {
    let mut cpus = SmpCpus::new();
    cpus.park(1);
    cpus.park(2);
    assert_eq!(cpus.handle_guest_cpu_on(0x8000_0003, 0x100, 5, 0), 0xFFFF_FFFC);
    assert_eq!(cpus.handle_guest_cpu_on(0x8000_0001, 0x100, 5, 0), 0);
    assert_eq!(cpus.handle_guest_cpu_on(1, 0x100, 5, 0), 0xFFFF_FFFC);
    assert_eq!(cpus.take_launch(2), None);
    assert_eq!(
        cpus.take_launch(1),
        Some(SmpLaunchRequest { vm_id: 0, entry_point: 0x100, context_id: 5 })
    );
    assert_eq!(cpus.take_launch(1), None);
    assert_eq!(cpus.parked, vec![2]);
}

#[test]
fn guest_smc_calls() {
    let mut registers = frame([0; 32]);
    registers.x0 = 0xC400_0003;
    registers.x1 = 1;
    registers.x2 = 0x4000;
    registers.x3 = 7;
    assert_eq!(
        handle_guest_smc(&registers, true),
        SmcAction::CpuOn { target_cpu: 1, entry_point: 0x4000, context_id: 7 }
    );
    registers.x0 = 0x8400_0002;
    assert_eq!(handle_guest_smc(&registers, true), SmcAction::CpuOff);
    registers.x0 = 0x8400_0000;
    assert_eq!(
        handle_guest_smc(&registers, true),
        SmcAction::Forward { x0: 0x8400_0000, x1: 1, x2: 0x4000, x3: 7 }
    );
    assert_eq!(handle_guest_smc(&registers, false), SmcAction::Return(2));
    registers.x0 = 0x8400_0008;
    assert_eq!(handle_guest_smc(&registers, false), SmcAction::Park);
    registers.x0 = 0x8400_0009;
    assert_eq!(handle_guest_smc(&registers, false), SmcAction::Park);
    registers.x0 = 0x8400_000A;
    assert_eq!(handle_guest_smc(&registers, false), SmcAction::Return(u64::MAX));
}

#[test]
fn retiring_vcpu_makes_room_for_another() {
    let (mut list, _) = two_on_one_cpu();
    let mut cpus = SmpCpus::new();
    let mut registers = frame([0; 32]);
    match handle_guest_cpu_off(&mut list, &cpus, 0, 0x8000_0000, &mut registers) {
        CpuOffAction::Switch(switch) => assert_eq!((switch.tpidr_el2, switch.elr_el2), (1, 0x4028_0001)),
        _ => panic!("another vCPU is queued"),
    }
    assert_eq!(list.vms.len(), 2);
    assert_eq!(
        handle_guest_cpu_off(&mut list, &cpus, 0, 0x8000_0003, &mut registers),
        CpuOffAction::NoStack
    );
    cpus.stack_tops.push((3, 0x5_0000));
    assert_eq!(
        handle_guest_cpu_off(&mut list, &cpus, 0, 0x8000_0003, &mut registers),
        CpuOffAction::Park { stack_top: 0x5_0000 }
    );
}

#[test]
fn cpus_are_parked_with_a_stack() {
    let node = CpuNode { affinity: Some(1), spin_table: true, release_address: Some(0xD8) };
    let mut allocator = ram();
    let mut cpus = SmpCpus::new();
    let free = allocator.free_size;
    let (plan, top) = park_secondary_cpus_for_smp(&mut allocator, 0, &node, false).unwrap();
    assert_eq!(plan, StartPlan::SpinTable { release_address: 0xD8 });
    assert_eq!(allocator.free_size, free - 0x1_0000);
    finish_parking(&mut cpus, &mut allocator, 1, top as usize, Ok(()));
    assert_eq!(cpus.stack_top(1), Some(top));
    assert_eq!(cpus.stack_top(2), None);
    let free = allocator.free_size;
    assert_eq!(
        park_secondary_cpus_for_smp(&mut allocator, 1, &node, false),
        Ok((StartPlan::Skip, 0))
    );
    let lost = CpuNode { release_address: None, ..node };
    assert_eq!(
        park_secondary_cpus_for_smp(&mut allocator, 0, &lost, true),
        Ok((StartPlan::NoReleaseAddress, 0))
    );
    let psci = CpuNode { spin_table: false, ..node };
    assert_eq!(
        park_secondary_cpus_for_smp(&mut allocator, 0, &psci, false),
        Ok((StartPlan::NoPsci, 0))
    );
    let (plan, top) = park_secondary_cpus_for_smp(&mut allocator, 0, &psci, true).unwrap();
    assert_eq!(plan, StartPlan::Psci { affinity: 1 });
    finish_parking(&mut cpus, &mut allocator, 1, top as usize, Err(PsciErrorCodes::Denied));
    assert_eq!(allocator.free_size, free);
    let mut none = MemoryAllocator::new();
    assert_eq!(park_secondary_cpus_for_smp(&mut none, 0, &node, false), Err(()));
}

#[test]
fn next_cpu_is_launched() {
    let here = CpuNode { affinity: Some(0), spin_table: false, release_address: None };
    let lost = CpuNode { affinity: Some(1), spin_table: true, release_address: None };
    let spin = CpuNode { affinity: Some(2), spin_table: true, release_address: Some(0xE8) };
    let psci = CpuNode { affinity: Some(3), spin_table: false, release_address: None };
    let cpus = [here, lost, spin, psci];
    assert_eq!(launch_cpu(0, &cpus, 0), Some((2, StartPlan::SpinTable { release_address: 0xE8 })));
    assert_eq!(launch_cpu(0, &cpus, 3), Some((3, StartPlan::Psci { affinity: 3 })));
    assert_eq!(launch_cpu(0, &cpus, 4), None);
    assert_eq!(launch_outcome(Ok(())), LaunchOutcome::Started);
    assert_eq!(launch_outcome(Err(PsciErrorCodes::AlreadyOn)), LaunchOutcome::Next);
    assert_eq!(
        launch_outcome(Err(PsciErrorCodes::Denied)),
        LaunchOutcome::Failed(PsciErrorCodes::Denied)
    );
}

#[test]
fn vcpus_start_with_what_their_cpu_had_first() {
    let mut list = VmList::new();
    assert_eq!(list.reset_el1_context(0, el1(1)), el1(1));
    assert_eq!(list.reset_el1_context(1, el1(2)), el1(2));
    assert_eq!(list.reset_el1_context(0, el1(3)), el1(1));
    assert_eq!(list.reset_el1_context(1, el1(4)), el1(2));
}

/// The addresses of the tables below a table.
fn tables(table: &Stage2Table) -> Vec<u64> {
    let mut addresses = Vec::new();
    for child in table.children.iter().flatten() {
        addresses.push(child.address);
        addresses.extend(tables(child));
    }
    addresses
}

#[test]
fn tables_are_the_pages_that_were_taken() {
    let mut allocator = ram();
    let mut table = create_stage2_translation_table(0, &mut allocator).unwrap();
    let vtcr = set_vtcr_el2_for_this_pcpu(0);
    let free = allocator.free_size;
    map_address_stage2(&mut table, &mut allocator, vtcr, 0x8000_1000, 0x3FFF_F000, 0x2000, true, true)
        .unwrap();
    let mut found = tables(&table);
    assert_eq!(free - allocator.free_size, 0x1000 * found.len());
    assert_eq!(found.len(), 4);
    found.push(table.address);
    found.sort();
    assert!(found.windows(2).all(|pair| pair[0] + 0x1000 <= pair[1]));
    assert!(found.iter().all(|address| address % 0x1000 == 0));
    assert_eq!(table.descriptors[0], Descriptor(table.children[0].as_ref().unwrap().address | 0x403));
}

#[test]
fn blocks_are_aligned() {
    let mut allocator = ram();
    let mut table = create_stage2_translation_table(0, &mut allocator).unwrap();
    let vtcr = set_vtcr_el2_for_this_pcpu(0);
    map_address_stage2(&mut table, &mut allocator, vtcr, 0x8000_1000, 0x4000_0000, 0x20_0000, true, true)
        .unwrap();
    let level2 = table.children[1].as_ref().unwrap();
    let level3 = level2.children[0].as_ref().unwrap();
    assert_eq!(level3.descriptors[511].0 & 0x0003_FFFF_FFFF_F000, 0x8020_0000);
    assert_eq!(level3.descriptors[511].0 & 3, 3);
    map_address_stage2(&mut table, &mut allocator, vtcr, 0x4000_0000, 0x8000_0000, 0x4000_0000, true, true)
        .unwrap();
    assert_eq!(table.descriptors[2], Descriptor::create_leaf(0x4000_0000, 3, false, 1));
}

#[test]
fn device_memory_is_mapped_like_other_memory() {
    let mut allocator = ram();
    let vtcr = set_vtcr_el2_for_this_pcpu(0);
    let mut memory = create_stage2_translation_table(0, &mut allocator).unwrap();
    let mut device = create_stage2_translation_table(0, &mut allocator).unwrap();
    let refused =
        map_device_stage2(&mut device, &mut allocator, vtcr, 0xFF84_6000, 0x801_0000, 0x1001, true, true);
    assert_eq!(refused, Err(()));
    assert!(tables(&device).is_empty());
    map_address_stage2(&mut memory, &mut allocator, vtcr, 0xFF84_6000, 0x801_0000, 0x2000, true, true)
        .unwrap();
    map_device_stage2(&mut device, &mut allocator, vtcr, 0xFF84_6000, 0x801_0000, 0x2000, true, true)
        .unwrap();
    let page = |table: &Stage2Table, i: usize| {
        let level2 = table.children[0].as_ref().unwrap();
        level2.children[0x40].as_ref().unwrap().descriptors[0x10 + i].0
    };
    for i in 0..2 {
        assert_eq!(page(&memory, i), page(&device, i) | 0x3C);
        assert_eq!(page(&device, i) & 0x3C, 0);
    }
    assert_eq!(page(&device, 2), 0);
}

/// Memory for a guest, its initial table, and `pages` tables below that.
fn ram_and_pages(pages: usize) -> MemoryAllocator {
    let mut allocator = MemoryAllocator::new();
    allocator.free(0x1000_0000, 0x1000_1000 + 0x1000 * pages).unwrap();
    allocator
}

#[test]
fn guest_needs_a_page_for_each_table() {
    let mut list = VmList::new();
    for pages in 0..2 {
        let mut allocator = ram_and_pages(pages);
        let failed = create_vm(&mut list, &mut allocator, &host(0), [0; 6]);
        assert!(matches!(failed, Err(CreateError::MapMemory)));
        assert_eq!(allocator.free_size, 0);
    }
    for pages in 2..4 {
        let mut allocator = ram_and_pages(pages);
        let failed = create_vm(&mut list, &mut allocator, &host(0), [0; 6]);
        assert!(matches!(failed, Err(CreateError::MapInterface)));
        assert_eq!(allocator.free_size, 0);
    }
    for pages in 4..6 {
        let mut allocator = ram_and_pages(pages);
        let vm = guest(&mut list, &mut allocator, 0);
        assert_eq!(tables(&vm.stage2_table).len(), 4);
        assert_eq!(allocator.free_size, 0x1000 * (pages - 4));
    }
}

#[test]
fn interface_of_half_pages_takes_only_the_tables_of_the_memory() {
    let mut list = VmList::new();
    let mut odd = host(0);
    odd.gicv_size = 0x2800;
    let mut allocator = ram_and_pages(5);
    let failed = create_vm(&mut list, &mut allocator, &odd, [0; 6]);
    assert!(matches!(failed, Err(CreateError::MapInterface)));
    assert_eq!(allocator.free_size, 0x3000);
}

#[test]
fn mapping_takes_exactly_the_tables_it_needs() {
    let vtcr = set_vtcr_el2_for_this_pcpu(0);
    for pages in 0..6usize {
        let mut allocator = MemoryAllocator::new();
        allocator.free(0x10_0000, 0x1000 * (1 + pages)).unwrap();
        let mut table = create_stage2_translation_table(0, &mut allocator).unwrap();
        let mapped = map_address_stage2(
            &mut table, &mut allocator, vtcr, 0x8000_1000, 0x3FFF_F000, 0x2000, true, true,
        );
        assert_eq!(mapped.is_ok(), pages >= 4);
        assert_eq!(tables(&table).len(), pages.min(4));
        assert_eq!(allocator.free_size, 0x1000 * (pages - pages.min(4)));
    }
}

#[test]
fn tables_at_hand_are_used_again() {
    let mut allocator = MemoryAllocator::new();
    allocator.free(0x10_0000, 0x3000).unwrap();
    let mut table = create_stage2_translation_table(0, &mut allocator).unwrap();
    let vtcr = set_vtcr_el2_for_this_pcpu(0);
    map_address_stage2(&mut table, &mut allocator, vtcr, 0x8000_0000, 0x1000, 0x1000, true, true)
        .unwrap();
    assert_eq!(allocator.free_size, 0);
    map_address_stage2(&mut table, &mut allocator, vtcr, 0x9000_0000, 0x3000, 0x2000, true, true)
        .unwrap();
    assert_eq!(tables(&table).len(), 2);
}

#[test]
fn failed_mapping_keeps_the_pages_beside_it() {
    let mut allocator = MemoryAllocator::new();
    allocator.free(0x10_0000, 0x4000).unwrap();
    let mut table = create_stage2_translation_table(0, &mut allocator).unwrap();
    let vtcr = set_vtcr_el2_for_this_pcpu(0);
    map_address_stage2(&mut table, &mut allocator, vtcr, 0x8000_0000, 0x1000, 0x1000, true, true)
        .unwrap();
    map_address_stage2(&mut table, &mut allocator, vtcr, 0, 0x8000_0000, 0x4000_0000, true, true)
        .unwrap();
    let failed =
        map_address_stage2(&mut table, &mut allocator, vtcr, 0x9000_0000, 0x3FFF_F000, 0x2000, true, true);
    assert_eq!(failed, Err(()));
    assert_eq!(allocator.free_size, 0);
    let level2 = table.children[0].as_ref().unwrap();
    let first = level2.children[0].as_ref().unwrap();
    let last = level2.children[511].as_ref().unwrap();
    assert_eq!(first.descriptors[1], Descriptor::create_leaf(0x8000_0000, 3, false, 3));
    assert_eq!(last.descriptors[511], Descriptor::create_leaf(0x9000_0000, 3, false, 3));
    assert_eq!(table.descriptors[2], Descriptor::create_leaf(0, 3, false, 1));
    assert!(table.children[1].is_none());
}

#[test]
fn memory_off_the_block_boundary_takes_pages_of_its_own() {
    let mut list = VmList::new();
    for pages in 131..134usize {
        let mut allocator = MemoryAllocator::new();
        allocator.free(0x1000_1000, 0x1000_1000 + 0x1000 * pages).unwrap();
        let created = create_vm(&mut list, &mut allocator, &host(0), [0; 6]);
        assert_eq!(created.is_ok(), pages >= 132);
        if let Ok(vm) = created {
            assert_eq!(tables(&vm.stage2_table).len(), 132);
        }
    }
}
