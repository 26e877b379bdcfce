//! Setting up the guests.

use crate::cpu::mpidr_to_affinity;
use crate::free_memory::FreeMemory;
use crate::memory_allocator::MemoryAllocator;
use crate::mmio::gicv2::GicDistributorMmio;
use crate::mmio::pl011::Pl011Mmio;
use crate::mmio::virtio_net::VirtioNetMmio;
use crate::paging::{
    activate_stage2_translation_table, create_stage2_translation_table, map_address_stage2,
    map_device_stage2, number_of_concatenated_page_tables, set_vtcr_el2_for_this_pcpu,
};
use crate::registers::{
    HCR_EL2_AMO, HCR_EL2_API, HCR_EL2_FMO, HCR_EL2_IMO, HCR_EL2_RW, HCR_EL2_TSC, HCR_EL2_TWI,
    HCR_EL2_VM, SPSR_EL2_M_EL1H,
};
use crate::stage2::Stage2Table;
use crate::stage2_needs::Goal;
use crate::vm::{El1Context, MmioDevice, MmioEntry, VM};
use crate::vm_list::VmList;
use vstd::prelude::*;

verus! {

/// Where the memory of a guest starts, as the guest sees it.
pub const RAM_VIRTUAL_BASE: u64 = 0x4000_0000;

/// 256 MiB.
pub const RAM_SIZE: u64 = 0x1000_0000;

pub const RAM_PAGES: usize = 0x1_0000;

/// The kernel image starts at a multiple of this.
pub const ALIGN_SIZE: u64 = 0x20_0000;

/// Where a guest sees the GICv2 CPU interface.
pub const GUEST_GIC_CPU_INTERFACE_ADDRESS: u64 = 0x801_0000;

/// The magic number in the header of a kernel image.
pub const KERNEL_MAGIC: u32 = 0x644D_5241;

/// Where a kernel image without a size is loaded to.
pub const DEFAULT_TEXT_OFFSET: u64 = 0x8_0000;

/// The CPU that a guest is created on.
#[derive(Clone, Copy)]
pub struct HostCpu {
    pub mpidr_el1: u64,
    pub id_aa64mmfr0_el1: u64,
    /// The GICv2 target bit of this CPU.
    pub own_target: u8,
    /// The physical address of the GICv2 virtual CPU interface.
    pub gicv_address: u64,
    pub gicv_size: u64,
    /// The system registers, as this CPU has them.
    pub el1: El1Context,
}

/// Why a guest cannot be created.
#[derive(Clone, Copy, PartialEq, Eq, Debug, Structural)]
pub enum CreateError {
    /// There is no memory for the guest.
    Memory,
    /// There is no memory for its translation table.
    Table,
    /// Its memory cannot be mapped.
    MapMemory,
    /// The GICv2 virtual CPU interface cannot be mapped.
    MapInterface,
}

/// The memory of a new guest, and the free memory without it.
pub open spec fn ram_taken(memory: FreeMemory) -> Option<
    (int, FreeMemory),
> {
    crate::memory::pages_taken(memory, 0x1_0000, 12)
}

/// The translation table of a new guest, and the free memory without it.
pub open spec fn table_taken(
    memory: FreeMemory,
    id_aa64mmfr0_el1: u64,
) -> Option<(int, FreeMemory)> {
    let n = crate::paging::initial_tables(id_aa64mmfr0_el1);
    crate::memory::pages_taken(memory, n, (12 + n - 1) as nat)
}

/// The table maps nothing, and has no tables below it.
pub open spec fn maps_nothing(table: Stage2Table, vtcr_el2: u64) -> bool {
    let level = crate::paging::initial_level(vtcr_el2);
    &&& crate::paging::is_initial_table(table, vtcr_el2)
    &&& forall|i: int| 0 <= i < table.children@.len() ==> #[trigger] table.children@[i] is None
    &&& forall|p: int| 0 <= p < table.pages(level) ==> #[trigger] table.mapping(level, p) is None
}

/// Mapping the guest's memory is to bring this about.
pub open spec fn ram_goal(host: HostCpu, ram: u64) -> Goal {
    crate::paging::goal_of(
        crate::paging::vtcr_of(host.id_aa64mmfr0_el1),
        ram,
        RAM_VIRTUAL_BASE,
        RAM_SIZE,
    )
}

/// Mapping the interface is to bring this about.
pub open spec fn interface_goal(host: HostCpu) -> Goal {
    crate::paging::goal_of(
        crate::paging::vtcr_of(host.id_aa64mmfr0_el1),
        host.gicv_address,
        GUEST_GIC_CPU_INTERFACE_ADDRESS,
        host.gicv_size,
    )
}

/// How many tables it takes to map the guest's memory into a table that maps nothing.
pub open spec fn ram_tables(host: HostCpu, ram: u64) -> nat {
    crate::paging::tables_needed(
        Set::empty(),
        crate::paging::vtcr_of(host.id_aa64mmfr0_el1),
        ram_goal(host, ram),
    )
}

/// How many more it takes to map the interface.
pub open spec fn interface_tables(host: HostCpu, ram: u64) -> nat {
    crate::paging::tables_needed(
        crate::stage2_needs::ways_to(ram_goal(host, ram)),
        crate::paging::vtcr_of(host.id_aa64mmfr0_el1),
        interface_goal(host),
    )
}

/// The table has come from one that maps nothing by mapping the guest's memory, or a first part of it.
/// The tables below it are the pages that were taken for them.
pub open spec fn ram_mapped(
    empty: Stage2Table,
    table: Stage2Table,
    complete: bool,
    host: HostCpu,
    ram: u64,
    memory: FreeMemory,
    left: FreeMemory,
) -> bool {
    let vtcr_el2 = crate::paging::vtcr_of(host.id_aa64mmfr0_el1);
    &&& maps_nothing(empty, vtcr_el2)
    &&& crate::paging::is_initial_table(table, vtcr_el2)
    &&& table.in_use(crate::paging::initial_level(vtcr_el2), left)
    &&& crate::paging::tables_have_grown(empty, table, vtcr_el2, memory, left)
    &&& crate::paging::is_mapped(
        empty,
        table,
        complete,
        vtcr_el2,
        ram,
        RAM_VIRTUAL_BASE,
        RAM_SIZE,
        3,
        false,
    )
}

/// The table has come from one that maps nothing, over one that maps the guest's memory, by mapping
/// the interface, or a first part of it. The tables below it are the pages that were taken for them.
pub open spec fn mapped_over(
    empty: Stage2Table,
    ram_only: Stage2Table,
    table: Stage2Table,
    complete: bool,
    host: HostCpu,
    ram: u64,
    memory: FreeMemory,
    rest: FreeMemory,
    left: FreeMemory,
) -> bool {
    let vtcr_el2 = crate::paging::vtcr_of(host.id_aa64mmfr0_el1);
    &&& ram_mapped(empty, ram_only, true, host, ram, memory, rest)
    &&& crate::paging::is_initial_table(table, vtcr_el2)
    &&& table.in_use(crate::paging::initial_level(vtcr_el2), left)
    &&& crate::paging::tables_have_grown(ram_only, table, vtcr_el2, rest, left)
    &&& crate::paging::is_mapped(
        ram_only,
        table,
        complete,
        vtcr_el2,
        host.gicv_address,
        GUEST_GIC_CPU_INTERFACE_ADDRESS,
        host.gicv_size,
        3,
        true,
    )
}

/// The table maps the guest's memory at `ram` and the interface of the CPU. The tables below it were
/// taken from `memory`, and `left` is what is free without them.
pub open spec fn is_guest_table(
    table: Stage2Table,
    host: HostCpu,
    ram: u64,
    memory: FreeMemory,
    left: FreeMemory,
) -> bool {
    exists|empty: Stage2Table, ram_only: Stage2Table, rest: FreeMemory| #[trigger]
        mapped_over(empty, ram_only, table, true, host, ram, memory, rest, left)
}

/// What came of filling the initial table at `address`. It is filled if and only if there is a page
/// for each table that it takes to map the guest's memory, the interface is of whole pages, and there
/// is a page for each table more that it takes to map the interface. Where one is lacking, all the
/// pages are taken, for the tables below a table that maps a first part.
pub open spec fn table_filled(
    address: int,
    memory: FreeMemory,
    after: FreeMemory,
    result: Result<Stage2Table, CreateError>,
    host: HostCpu,
    ram: u64,
) -> bool {
    match crate::allocator_laws::after_pages(memory, ram_tables(host, ram)) {
        None => {
            &&& result == Err::<Stage2Table, CreateError>(CreateError::MapMemory)
            &&& crate::allocator_laws::has_no_page(after)
            &&& exists|empty: Stage2Table, table: Stage2Table| #[trigger]
                ram_mapped(empty, table, false, host, ram, memory, after)
        },
        Some(rest) => if host.gicv_size % 0x1000 != 0 {
            &&& result == Err::<Stage2Table, CreateError>(CreateError::MapInterface)
            &&& after == rest
        } else {
            match crate::allocator_laws::after_pages(rest, interface_tables(host, ram)) {
                None => {
                    &&& result == Err::<Stage2Table, CreateError>(CreateError::MapInterface)
                    &&& crate::allocator_laws::has_no_page(after)
                    &&& exists|empty: Stage2Table, ram_only: Stage2Table, table: Stage2Table|
                        #[trigger] mapped_over(
                            empty,
                            ram_only,
                            table,
                            false,
                            host,
                            ram,
                            memory,
                            rest,
                            after,
                        )
                },
                Some(left) => {
                    &&& after == left
                    &&& result matches Ok(table)
                    &&& table.address == address
                    &&& is_guest_table(table, host, ram, memory, left)
                },
            }
        },
    }
}

/// What came of creating a translation table.
pub open spec fn table_created(
    before: FreeMemory,
    after: FreeMemory,
    result: Result<Stage2Table, CreateError>,
    host: HostCpu,
    ram: u64,
) -> bool {
    match table_taken(before, host.id_aa64mmfr0_el1) {
        None => result == Err::<Stage2Table, CreateError>(CreateError::Table) && after == before,
        Some((address, memory)) => table_filled(address, memory, after, result, host, ram),
    }
}

/// The number of tables that a translation starts with.
fn initial_table_count(id_aa64mmfr0_el1: u64) -> (count: usize)
    ensures
        count == crate::paging::initial_tables(id_aa64mmfr0_el1),
        1 <= count <= 16,
{
    let parange: u64 = id_aa64mmfr0_el1 & 0xF;
    let (t0sz, level): (u8, i8) = match parange {
        0 => (32, 1),
        1 => (28, 1),
        2 => (24, 1),
        3 => (22, 1),
        4 => (20, 0),
        _ => (16, 0),
    };
    proof {
        vstd::arithmetic::power2::lemma2_to64();
    }
    number_of_concatenated_page_tables(t0sz, level) as usize
}

/// A translation table that maps the memory of a guest, and the GICv2 virtual CPU interface where
/// the guest expects a CPU interface: acknowledging and ending an interrupt do not trap.
fn create_guest_table(host: &HostCpu, ram: u64, allocator: &mut MemoryAllocator) -> (result: Result<
    Stage2Table,
    CreateError,
>)
    requires
        old(allocator).wf(),
        crate::allocator_laws::is_below(old(allocator)@, usize::MAX - 0x1000),
        ram + RAM_SIZE <= u64::MAX,
        crate::paging::can_map(host.gicv_address, GUEST_GIC_CPU_INTERFACE_ADDRESS, host.gicv_size),
    ensures
        final(allocator).wf(),
        crate::allocator_laws::is_below(final(allocator)@, usize::MAX - 0x1000),
        table_created(old(allocator)@, final(allocator)@, result, *host, ram),
{
    let ghost start = allocator@;
    let count: usize = initial_table_count(host.id_aa64mmfr0_el1);
    proof {
        reveal(crate::memory::pages_taken);
        crate::allocator_laws::allocator_is_consistent(*allocator);
    }
    if !allocator.accepts_allocate(count * 4096, 12 + count - 1, usize::MAX) {
        return Err(CreateError::Table);
    }
    let mut table: Stage2Table = match create_stage2_translation_table(
        host.id_aa64mmfr0_el1,
        allocator,
    ) {
        Ok(table) => table,
        Err(_) => {
            return Err(CreateError::Table);
        },
    };
    let ghost memory = allocator@;
    let ghost empty = table;
    let vtcr_el2: u64 = set_vtcr_el2_for_this_pcpu(host.id_aa64mmfr0_el1);
    proof {
        crate::allocator_laws::allocation_stays_below(
            start,
            count * 4096,
            (12 + count - 1) as nat,
            usize::MAX as int,
            usize::MAX - 0x1000,
        );
        crate::paging::created_table_is_initial(host.id_aa64mmfr0_el1, vtcr_el2);
        assert(maps_nothing(empty, vtcr_el2));
        crate::paging::lemma_needed_by_childless(empty, vtcr_el2, ram_goal(*host, ram));
    }
    let mapped: Result<(), ()> = map_address_stage2(
        &mut table,
        allocator,
        vtcr_el2,
        ram,
        RAM_VIRTUAL_BASE,
        RAM_SIZE,
        true,
        true,
    );
    assert(ram_mapped(empty, table, mapped is Ok, *host, ram, memory, allocator@));
    if mapped.is_err() {
        return Err(CreateError::MapMemory);
    }
    let ghost ram_only = table;
    let ghost rest = allocator@;
    proof {
        crate::paging::second_mapping_finds_the_tables_of_the_first(
            empty,
            ram_only,
            vtcr_el2,
            ram,
            RAM_VIRTUAL_BASE,
            RAM_SIZE,
            3,
            false,
            interface_goal(*host),
        );
    }
    let mapped: Result<(), ()> = map_device_stage2(
        &mut table,
        allocator,
        vtcr_el2,
        host.gicv_address,
        GUEST_GIC_CPU_INTERFACE_ADDRESS,
        host.gicv_size,
        true,
        true,
    );
    proof {
        assert(mapped_over(
            empty,
            ram_only,
            table,
            mapped is Ok,
            *host,
            ram,
            memory,
            rest,
            allocator@,
        ));
        if host.gicv_size % 0x1000 != 0 {
            crate::stage2_tables::lemma_none_new(
                ram_only,
                crate::paging::initial_level(vtcr_el2),
                ram_only.descriptors@.len(),
            );
        }
    }
    if mapped.is_err() {
        return Err(CreateError::MapInterface);
    }
    Ok(table)
}

/// The devices of a guest, and where it sees them.
pub open spec fn guest_devices() -> Seq<MmioEntry> {
    seq![
        MmioEntry { base_address: 0x900_0000, length: 0x1000, device: MmioDevice::Pl011 },
        MmioEntry { base_address: 0xA00_0000, length: 0x200, device: MmioDevice::VirtioBlk },
        MmioEntry {
            base_address: 0x800_0000,
            length: 0x1_0000,
            device: MmioDevice::GicDistributor,
        },
        MmioEntry { base_address: 0xA00_0200, length: 0x200, device: MmioDevice::VirtioNet },
    ]
}

fn create_devices() -> (entries: Vec<MmioEntry>)
    ensures
        entries@ == guest_devices(),
{
    let mut entries: Vec<MmioEntry> = Vec::new();
    entries.push(MmioEntry::new(0x900_0000, 0x1000, MmioDevice::Pl011));
    entries.push(MmioEntry::new(0xA00_0000, 0x200, MmioDevice::VirtioBlk));
    entries.push(
        MmioEntry::new(
            0x800_0000,
            GicDistributorMmio::MMIO_SIZE as u64,
            MmioDevice::GicDistributor,
        ),
    );
    entries.push(MmioEntry::new(0xA00_0200, 0x200, MmioDevice::VirtioNet));
    assert(entries@ =~= guest_devices());
    entries
}

/// The VM is a new guest with its memory at `ram`.
pub open spec fn is_new_guest(
    vm: VM,
    list: VmList,
    host: HostCpu,
    net_mac: [u8; 6],
    ram: int,
) -> bool {
    &&& vm.wf()
    &&& vm.vm_id == list.next_vm_id
    &&& vm.owner_affinity == crate::cpu::affinity_of(host.mpidr_el1)
    &&& vm.vmid == list.next_vmid % 256
    &&& vm.ram_virtual_base_address == RAM_VIRTUAL_BASE
    &&& vm.ram_physical_base_address == ram
    &&& vm.ram_size == RAM_SIZE
    &&& vm.mmio_handlers@ == guest_devices()
    &&& vm.gic_distributor_mmio@ == crate::mmio::gicv2::Distributor::reset(host.own_target)
    &&& vm.pl011_mmio@ == crate::mmio::pl011::Uart::reset()
    &&& vm.virtio_net_mmio.mac == net_mac
    &&& vm.virtio_net_mmio.device@ == crate::mmio::virtio::VirtioDevice::reset()
    &&& vm.context.regs@ == Seq::new(32, |i: int| 0u64)
    &&& vm.context.elr_el2 == 0
    &&& vm.context.spsr_el2 == 0
    &&& vm.context.gich_lr@ == Seq::new(4, |i: int| 0u32)
    &&& vm.context.el1 == crate::vm_list::reset_of(
        list.reset_el1@,
        vm.owner_affinity,
        host.el1,
    )
}

/// A guest on this CPU has taken its identifiers from the list.
pub open spec fn is_counted(before: VmList, after: VmList, host: HostCpu) -> bool {
    &&& after.vms == before.vms
    &&& after.active == before.active
    &&& after.next_vm_id == before.next_vm_id + 1
    &&& after.next_vmid == before.next_vmid.wrapping_add(1)
    &&& after.reset_el1@ == crate::vm_list::with_reset(
        before.reset_el1@,
        crate::cpu::affinity_of(host.mpidr_el1),
        host.el1,
    )
}

/// The memory of a new guest is inside the address space, and what was free before is all that is
/// free afterwards.
proof fn lemma_ram_taken(memory: FreeMemory)
    requires
        memory.valid(),
        crate::allocator_laws::is_below(memory, usize::MAX - 0x1000),
        ram_taken(memory) is Some,
    ensures
        ram_taken(memory) matches Some((ram, rest)) ==> {
            &&& 0 <= ram
            &&& ram + 0x1000_0000 <= usize::MAX
            &&& crate::allocator_laws::is_below(rest, usize::MAX - 0x1000)
        },
{
    crate::memory::lemma_pages_taken(memory, 0x1_0000, 12);
    reveal(crate::memory::pages_taken);
    crate::allocator_laws::allocation_stays_below(
        memory,
        0x1000_0000,
        12,
        usize::MAX as int,
        usize::MAX - 0x1000,
    );
}

/// A guest with its memory at `ram`, under the next identifier.
fn new_guest(
    list: &mut VmList,
    host: &HostCpu,
    net_mac: [u8; 6],
    ram: u64,
    table: Stage2Table,
) -> (vm: VM)
    requires
        old(list).wf(),
        old(list).next_vm_id < usize::MAX,
        ram + RAM_SIZE <= u64::MAX,
    ensures
        final(list).wf(),
        is_new_guest(vm, *old(list), *host, net_mac, ram as int),
        vm.stage2_table == table,
        is_counted(*old(list), *final(list), *host),
{
    let vm_id: usize = list.next_vm_id;
    list.next_vm_id = vm_id + 1;
    let vmid: u64 = list.allocate_vmid();
    let affinity: u64 = mpidr_to_affinity(host.mpidr_el1);
    let el1: El1Context = list.reset_el1_context(affinity, host.el1);
    let vm: VM = VM::new(
        vm_id,
        affinity,
        table,
        vmid,
        RAM_VIRTUAL_BASE,
        ram,
        RAM_SIZE,
        create_devices(),
        GicDistributorMmio::new(host.own_target),
        Pl011Mmio::new(),
        VirtioNetMmio::new(net_mac),
        el1,
    );
    vm
}

/// Creates a guest with memory, a translation table and devices of its own. It is not in the list
/// yet: its image has to be loaded first.
pub fn create_vm(
    list: &mut VmList,
    allocator: &mut MemoryAllocator,
    host: &HostCpu,
    net_mac: [u8; 6],
) -> (result: Result<VM, CreateError>)
    requires
        old(list).wf(),
        old(list).next_vm_id < usize::MAX,
        old(allocator).wf(),
        crate::allocator_laws::is_below(old(allocator)@, usize::MAX - 0x1000),
        crate::paging::can_map(host.gicv_address, GUEST_GIC_CPU_INTERFACE_ADDRESS, host.gicv_size),
    ensures
        final(list).wf(),
        final(allocator).wf(),
        crate::allocator_laws::is_below(final(allocator)@, usize::MAX - 0x1000),
        match ram_taken(old(allocator)@) {
            None => {
                &&& result == Err::<VM, CreateError>(CreateError::Memory)
                &&& final(allocator)@ == old(allocator)@
            },
            Some((ram, memory)) => match result {
                Ok(vm) => {
                    &&& is_new_guest(vm, *old(list), *host, net_mac, ram)
                    &&& table_created(
                        memory,
                        final(allocator)@,
                        Ok(vm.stage2_table),
                        *host,
                        ram as u64,
                    )
                },
                Err(error) => table_created(
                    memory,
                    final(allocator)@,
                    Err(error),
                    *host,
                    ram as u64,
                ),
            },
        },
        match result {
            Ok(_) => is_counted(*old(list), *final(list), *host),
            Err(_) => *final(list) == *old(list),
        },
{
    let ghost start = allocator@;
    proof {
        crate::allocator_laws::allocator_is_consistent(*allocator);
    }
    let ram: usize = match crate::memory::try_allocate_pages(allocator, RAM_PAGES, 12) {
        Some(ram) => ram,
        None => {
            return Err(CreateError::Memory);
        },
    };
    proof {
        lemma_ram_taken(start);
    }
    let table: Stage2Table = match create_guest_table(host, ram as u64, allocator) {
        Ok(table) => table,
        Err(error) => {
            return Err(error);
        },
    };
    Ok(new_guest(list, host, net_mac, ram as u64, table))
}

/// The name of the disk of a VM. `None` where the VM's number is no text.
pub fn disk_file_name(vm_id: usize) -> (name: Option<[u8; 5]>)
    ensures
        match name {
            Some(n) => vm_id % 256 < 80 && n@ == seq![
                0x44u8,
                0x49u8,
                0x53u8,
                0x4Bu8,
                (0x30 + vm_id % 256) as u8,
            ],
            None => vm_id % 256 >= 80,
        },
{
    let number: u8 = (vm_id % 256) as u8;
    if number >= 80 {
        return None;
    }
    let name: [u8; 5] = [0x44, 0x49, 0x53, 0x4B, 0x30 + number];
    assert(name@ =~= seq![0x44u8, 0x49u8, 0x53u8, 0x4Bu8, (0x30 + vm_id % 256) as u8]);
    Some(name)
}

/// Where the kernel image goes, as the guest sees it: behind the devicetree, which is at the start
/// of the memory.
pub open spec fn kernel_address(dtb_size: int) -> int {
    let last = RAM_VIRTUAL_BASE + dtb_size - 1;
    last - last % 0x20_0000 + 0x20_0000
}

/// Where the kernel image goes, as the guest sees it and physically. `None` where the devicetree
/// leaves no room.
pub fn kernel_placement(vm: &VM, dtb_size: u64) -> (placement: Option<(u64, u64)>)
    requires
        vm.wf(),
    ensures
        match placement {
            Some((virtual_address, physical_address)) => {
                &&& virtual_address == kernel_address(dtb_size as int)
                &&& vm.physical_address(virtual_address) == Some(physical_address)
            },
            None => {
                ||| kernel_address(dtb_size as int) > u64::MAX
                ||| vm.physical_address(kernel_address(dtb_size as int) as u64) is None
            },
        },
{
    let last: u64 = match (RAM_VIRTUAL_BASE - 1).checked_add(dtb_size) {
        Some(last) => last,
        None => {
            return None;
        },
    };
    let virtual_address: u64 = match (last - last % ALIGN_SIZE).checked_add(ALIGN_SIZE) {
        Some(address) => address,
        None => {
            return None;
        },
    };
    match vm.get_physical_address(virtual_address) {
        Some(physical_address) => Some((virtual_address, physical_address)),
        None => None,
    }
}

/// Why a kernel image cannot be booted.
#[derive(Clone, Copy, PartialEq, Eq, Debug, Structural)]
pub enum KernelError {
    /// It ends inside its header.
    Header,
    /// This is not the magic number.
    Magic(u32),
    /// It is loaded beyond the address space.
    Entry,
}

/// Where a kernel image at `kernel_virtual_address` starts.
pub open spec fn entry_of(header: Seq<u8>, kernel_virtual_address: u64) -> Result<
    u64,
    KernelError,
> {
    let magic = crate::bits::le_number(header, 56, 4);
    let text_offset = if crate::bits::le_number(header, 16, 8) == 0 {
        DEFAULT_TEXT_OFFSET as int
    } else {
        crate::bits::le_number(header, 8, 8)
    };
    if header.len() < 64 {
        Err(KernelError::Header)
    } else if magic != KERNEL_MAGIC {
        Err(KernelError::Magic(magic as u32))
    } else if kernel_virtual_address + text_offset > u64::MAX {
        Err(KernelError::Entry)
    } else {
        Ok((kernel_virtual_address + text_offset) as u64)
    }
}

/// Where a kernel image at `kernel_virtual_address` starts, from its header.
pub fn kernel_entry(header: &[u8], kernel_virtual_address: u64) -> (entry: Result<
    u64,
    KernelError,
>)
    ensures
        entry == entry_of(header@, kernel_virtual_address),
{
    if header.len() < 64 {
        return Err(KernelError::Header);
    }
    let magic: u64 = crate::bits::read_le(header, 56, 4);
    proof {
        lemma_word(header@, 56);
    }
    if magic != KERNEL_MAGIC as u64 {
        return Err(KernelError::Magic(magic as u32));
    }
    let image_size: u64 = crate::bits::read_le(header, 16, 8);
    let text_offset: u64 = if image_size == 0 {
        DEFAULT_TEXT_OFFSET
    } else {
        crate::bits::read_le(header, 8, 8)
    };
    match kernel_virtual_address.checked_add(text_offset) {
        Some(entry) => Ok(entry),
        None => Err(KernelError::Entry),
    }
}

proof fn lemma_word(bytes: Seq<u8>, at: int)
    ensures
        0 <= crate::bits::le_number(bytes, at, 4) < 0x1_0000_0000,
{
    reveal_with_fuel(crate::bits::le_number, 5);
}

/// What becomes of a VM that is added to the list.
#[derive(Clone, Copy, PartialEq, Eq, Debug, Structural)]
pub enum Added {
    /// It is the only one of its CPU, and runs at once, with these values of TPIDR_EL2 and
    /// VTTBR_EL2.
    Running { tpidr_el2: u64, vttbr_el2: u64 },
    /// It runs when another vCPU of its CPU yields.
    Queued,
}

/// The CPU has no VM yet.
pub open spec fn is_first_of(vms: Seq<VM>, affinity: u64) -> bool {
    forall|i: int| 0 <= i < vms.len() ==> (#[trigger] vms[i]).owner_affinity != affinity
}

/// Adds a VM whose image was loaded. It starts at `entry_point` with the address of its devicetree.
pub fn add_vm(list: &mut VmList, vm: VM, entry_point: u64) -> (added: Added)
    requires
        old(list).wf(),
        vm.wf(),
        vm.vm_id < old(list).next_vm_id,
        old(list).place_of(vm.vm_id as int) is None,
    ensures
        final(list).wf(),
        ({
            let n = old(list).vms@.len() as int;
            let new = final(list).vms@[n];
            let first = is_first_of(old(list).vms@, vm.owner_affinity);
            &&& final(list).vms@ == old(list).vms@.push(new)
            &&& new.same_but_context(vm)
            &&& new.context.regs@ == vm.context.regs@.update(0, RAM_VIRTUAL_BASE)
            &&& new.context.elr_el2 == entry_point
            &&& new.context.spsr_el2 == 5
            &&& new.context.gich_lr == vm.context.gich_lr
            &&& new.context.el1 == vm.context.el1
            &&& final(list).active == if first {
                Some(n as usize)
            } else {
                old(list).active
            }
            &&& final(list).next_vm_id == old(list).next_vm_id
            &&& final(list).next_vmid == old(list).next_vmid
            &&& final(list).reset_el1 == old(list).reset_el1
            &&& added == if first {
                Added::Running {
                    tpidr_el2: vm.vm_id as u64,
                    vttbr_el2: crate::vm_list::vttbr_of(vm.stage2_table.address, vm.vmid),
                }
            } else {
                Added::Queued
            }
        }),
{
    let ghost before = list.vms@;
    let mut first: bool = true;
    let mut i: usize = 0;
    while i < list.vms.len()
        invariant
            i <= list.vms@.len(),
            list.vms@ == before,
            first == forall|k: int|
                0 <= k < i ==> (#[trigger] before[k]).owner_affinity != vm.owner_affinity,
        decreases list.vms@.len() - i,
    {
        if list.vms[i].owner_affinity == vm.owner_affinity {
            first = false;
            assert(before[i as int].owner_affinity == vm.owner_affinity);
        }
        i = i + 1;
    }
    let mut vm: VM = vm;
    vm.set_initial_context(entry_point, RAM_VIRTUAL_BASE);
    let place: usize = list.vms.len();
    let added: Added = if first {
        Added::Running {
            tpidr_el2: vm.vm_id as u64,
            vttbr_el2: activate_stage2_translation_table(vm.stage2_table.address, vm.vmid),
        }
    } else {
        Added::Queued
    };
    proof {
        crate::vm_list::lemma_vm_from(before, vm.vm_id as int, 0);
    }
    list.vms.push(vm);
    if first {
        list.active = Some(place);
    }
    added
}

/// The values of SPSR_EL2, ELR_EL2 and x0 with which a vCPU starts.
pub fn boot_vm(entry_point: u64, argument: u64) -> (state: (u64, u64, u64))
    ensures
        state == (5u64, entry_point, argument),
{
    (SPSR_EL2_M_EL1H, entry_point, argument)
}

/// The values of the registers that make EL2 trap what it has to, and show a guest the CPU.
#[derive(Clone, Copy, PartialEq, Eq, Debug, Structural)]
pub struct HypervisorRegisters {
    pub vpidr_el2: u64,
    pub vmpidr_el2: u64,
    pub hcr_el2: u64,
}

/// The registers of a CPU with this MIDR_EL1 and MPIDR_EL1.
pub fn setup_hypervisor_registers(midr_el1: u64, mpidr_el1: u64) -> (registers: HypervisorRegisters)
    ensures
        registers == (HypervisorRegisters {
            vpidr_el2: midr_el1,
            vmpidr_el2: mpidr_el1,
            hcr_el2: 0x0200_8008_2039,
        }),
{
    let hcr_el2: u64 = HCR_EL2_RW | HCR_EL2_API | HCR_EL2_AMO | HCR_EL2_IMO | HCR_EL2_FMO
        | HCR_EL2_TWI | HCR_EL2_TSC | HCR_EL2_VM;
    assert(0x8000_0000u64 | 0x0200_0000_0000 | 0x20 | 0x10 | 0x08 | 0x2000 | 0x0008_0000 | 0x01
        == 0x0200_8008_2039) by (bit_vector);
    HypervisorRegisters { vpidr_el2: midr_el1, vmpidr_el2: mpidr_el1, hcr_el2 }
}

/// The values of VTCR_EL2, VTTBR_EL2 and TPIDR_EL2 with which a CPU joins a VM that exists, beside
/// its other vCPUs on other CPUs.
pub fn activate_vm_on_this_pcpu(vm: &VM, id_aa64mmfr0_el1: u64) -> (registers: (u64, u64, u64))
    ensures
        registers == (
            crate::paging::vtcr_of(id_aa64mmfr0_el1),
            crate::vm_list::vttbr_of(vm.stage2_table.address, vm.vmid),
            vm.vm_id as u64,
        ),
{
    (
        set_vtcr_el2_for_this_pcpu(id_aa64mmfr0_el1),
        activate_stage2_translation_table(vm.stage2_table.address, vm.vmid),
        vm.vm_id as u64,
    )
}

/// A guest is created wherever there is a page for each table that its two mappings need on their own:
/// the tables that they share only save some.
pub proof fn guest_is_created_where_pages_suffice(
    before: FreeMemory,
    after: FreeMemory,
    result: Result<Stage2Table, CreateError>,
    host: HostCpu,
    ram: u64,
)
    requires
        table_created(before, after, result, host, ram),
        host.gicv_size % 0x1000 == 0,
        ({
            let vtcr_el2 = crate::paging::vtcr_of(host.id_aa64mmfr0_el1);
            let most = ram_tables(host, ram) + crate::paging::tables_needed(
                Set::empty(),
                vtcr_el2,
                interface_goal(host),
            );
            &&& table_taken(before, host.id_aa64mmfr0_el1) matches Some((_, memory))
            &&& crate::allocator_laws::after_pages(memory, most) is Some
        }),
    ensures
        result is Ok,
{
    let vtcr_el2 = crate::paging::vtcr_of(host.id_aa64mmfr0_el1);
    let memory = (table_taken(before, host.id_aa64mmfr0_el1)->0).1;
    let first = ram_tables(host, ram);
    let second = interface_tables(host, ram);
    let most = crate::paging::tables_needed(Set::empty(), vtcr_el2, interface_goal(host));
    crate::stage2_needs::tables_at_hand_are_saved(
        crate::stage2_needs::ways_to(ram_goal(host, ram)),
        interface_goal(host),
        crate::paging::initial_level(vtcr_el2),
        0,
        crate::paging::initial_descriptors(vtcr_el2) as nat,
    );
    crate::allocator_laws::fewer_pages_can_be_taken(memory, first + second, first + most);
    crate::allocator_laws::fewer_pages_can_be_taken(memory, first, first + second);
    crate::allocator_laws::lemma_after_pages(memory, first, second);
}

/// 133 pages suffice for the tables below the initial one, where the interface is no larger than
/// 0x1F_0000 bytes: at most 130 tables for the memory and 3 for the interface.
pub proof fn guest_is_created_with_133_pages(
    before: FreeMemory,
    after: FreeMemory,
    result: Result<Stage2Table, CreateError>,
    host: HostCpu,
    ram: u64,
)
    requires
        table_created(before, after, result, host, ram),
        host.gicv_size % 0x1000 == 0,
        0 < host.gicv_size <= 0x1F_0000,
        table_taken(before, host.id_aa64mmfr0_el1) matches Some((_, memory))
            && crate::allocator_laws::after_pages(memory, 133) is Some,
    ensures
        result is Ok,
{
    let vtcr_el2 = crate::paging::vtcr_of(host.id_aa64mmfr0_el1);
    let level = crate::paging::initial_level(vtcr_el2);
    let n = crate::paging::initial_descriptors(vtcr_el2) as nat;
    crate::paging::created_table_is_initial(host.id_aa64mmfr0_el1, vtcr_el2);
    vstd::arithmetic::power2::lemma2_to64();
    assert(n >= 512);
    assert(level == 0 || level == 1);
    lemma_in_table(0x4_0000, n as int, level);
    lemma_in_table(0x8010, n as int, level);
    let memory_goal = ram_goal(host, ram);
    let device_goal = interface_goal(host);
    let end = n * crate::stage2::span(level);
    assert(end >= 0x800_0000) by {
        if level == 0 {
            assert(end == n * 0x800_0000);
        } else {
            assert(end == n * 0x4_0000);
        }
    }
    crate::stage2_needs::tables_needed_are_bounded(Set::empty(), memory_goal, level, 0, n);
    crate::stage2_needs::tables_needed_are_bounded(Set::empty(), device_goal, level, 0, n);
    reveal_with_fuel(crate::stage2_needs::ways_before, 4);
    assert(memory_goal.from == 0x4_0000 && memory_goal.end == 0x5_0000);
    assert(device_goal.from == 0x8010 && device_goal.end <= 0x8200);
    let most = crate::paging::tables_needed(Set::empty(), vtcr_el2, device_goal);
    assert(ram_tables(host, ram) <= 130);
    assert(most <= 3);
    let memory = (table_taken(before, host.id_aa64mmfr0_el1)->0).1;
    crate::allocator_laws::fewer_pages_can_be_taken(
        memory,
        ram_tables(host, ram) + most,
        133,
    );
    guest_is_created_where_pages_suffice(before, after, result, host, ram);
}

/// What a guest's pages are mapped to: its memory and the interrupt controller's CPU interface, and
/// nothing else. So a guest reaches no memory but its own.
pub proof fn guest_reaches_its_own_memory(
    table: Stage2Table,
    host: HostCpu,
    ram: u64,
    memory: FreeMemory,
    left: FreeMemory,
    p: int,
)
    requires
        is_guest_table(table, host, ram, memory, left),
        host.gicv_size % 0x1000 == 0,
        host.gicv_size <= 0x37FF_0000,
        ({
            let level = crate::paging::initial_level(
                crate::paging::vtcr_of(host.id_aa64mmfr0_el1),
            );
            0 <= p < table.pages(level)
        }),
    ensures
        ({
            let level = crate::paging::initial_level(
                crate::paging::vtcr_of(host.id_aa64mmfr0_el1),
            );
            let leaf = table.mapping(level, p);
            if 0x4_0000 <= p < 0x5_0000 {
                crate::stage2::maps(leaf, p, ram + (p - 0x4_0000) * 0x1000, 3, false)
            } else if 0x8010 <= p < 0x8010 + host.gicv_size as int / 0x1000 {
                crate::stage2::maps(leaf, p, host.gicv_address + (p - 0x8010) * 0x1000, 3, true)
            } else {
                leaf is None
            }
        }),
{
    let vtcr_el2 = crate::paging::vtcr_of(host.id_aa64mmfr0_el1);
    let level = crate::paging::initial_level(vtcr_el2);
    crate::paging::created_table_is_initial(host.id_aa64mmfr0_el1, vtcr_el2);
    let (empty, ram_only, rest) = choose|
        empty: Stage2Table,
        ram_only: Stage2Table,
        rest: FreeMemory,
    | #[trigger]
        mapped_over(empty, ram_only, table, true, host, ram, memory, rest, left);
    let n = empty.descriptors@.len() as int;
    assert(level == 0 || level == 1);
    vstd::arithmetic::power2::lemma2_to64();
    assert(n >= 512);
    lemma_in_table(0x4_0000, n, level);
    lemma_in_table(0x8010, n, level);
    let interface = host.gicv_size as int / 0x1000;
    if level == 0 {
        assert(empty.pages(level) == n * 0x800_0000);
    } else {
        assert(empty.pages(level) == n * 0x4_0000);
    }
    let from = crate::stage2::page_in_table(
        RAM_VIRTUAL_BASE as int / 0x1000,
        n,
        level,
    );
    assert(from == 0x4_0000);
    assert(crate::paging::pages_are_mapped(
        empty,
        ram_only,
        level,
        from,
        0x1_0000,
        true,
        ram,
        3,
        false,
    ));
    let start = crate::stage2::page_in_table(
        GUEST_GIC_CPU_INTERFACE_ADDRESS as int / 0x1000,
        n,
        level,
    );
    assert(start == 0x8010);
    assert(crate::paging::pages_are_mapped(
        ram_only,
        table,
        level,
        start,
        interface,
        true,
        host.gicv_address,
        3,
        true,
    ));
    assert(empty.mapping(level, p) is None);
    let middle = ram_only.mapping(level, p);
    let leaf = table.mapping(level, p);
    assert(crate::stage2::page_rule(
        empty.mapping(level, p),
        middle,
        p,
        0x4_0000,
        0x5_0000,
        true,
        ram as int,
        3,
        false,
    ));
    assert(crate::stage2::page_rule(
        middle,
        leaf,
        p,
        0x8010,
        0x8010 + interface,
        true,
        host.gicv_address as int,
        3,
        true,
    ));
    if 0x4_0000 <= p < 0x5_0000 {
        let l = middle->0.level;
        assert(l == 1 || l == 2 || l == 3);
        assert(p - p % crate::stage2::span(l) >= 0x4_0000);
    }
}

/// A byte of a guest's memory is where its own physical memory is, and the guest may read and write
/// it.
pub proof fn guest_memory_translates(
    table: Stage2Table,
    host: HostCpu,
    ram: u64,
    memory: FreeMemory,
    left: FreeMemory,
    x: u64,
)
    requires
        is_guest_table(table, host, ram, memory, left),
        host.gicv_size % 0x1000 == 0,
        host.gicv_size <= 0x37FF_0000,
        ram % 0x1000 == 0,
        ram + RAM_SIZE <= 0x4_0000_0000_0000,
        RAM_VIRTUAL_BASE <= x < RAM_VIRTUAL_BASE + RAM_SIZE,
    ensures
        ({
            let level = crate::paging::initial_level(
                crate::paging::vtcr_of(host.id_aa64mmfr0_el1),
            );
            &&& table.mapping(level, x as int / 0x1000) matches Some(leaf)
            &&& crate::stage2::output_of(leaf, x) == ram + (x - RAM_VIRTUAL_BASE)
            &&& crate::stage2::gives(leaf, 3, false)
        }),
{
    let vtcr_el2 = crate::paging::vtcr_of(host.id_aa64mmfr0_el1);
    let level = crate::paging::initial_level(vtcr_el2);
    let p = x as int / 0x1000;
    crate::paging::created_table_is_initial(host.id_aa64mmfr0_el1, vtcr_el2);
    vstd::arithmetic::power2::lemma2_to64();
    let (empty, ram_only, rest) = choose|
        empty: Stage2Table,
        ram_only: Stage2Table,
        rest: FreeMemory,
    | #[trigger]
        mapped_over(empty, ram_only, table, true, host, ram, memory, rest, left);
    let n = table.descriptors@.len() as int;
    assert(n >= 512);
    assert(level == 0 || level == 1);
    assert(p < table.pages(level)) by {
        if level == 0 {
            assert(table.pages(level) == n * 0x800_0000);
        } else {
            assert(table.pages(level) == n * 0x4_0000);
        }
    }
    guest_reaches_its_own_memory(table, host, ram, memory, left, p);
    crate::stage2::mapped_page_translates(
        table.mapping(level, p),
        x,
        ram + (p - 0x4_0000) * 0x1000,
        3,
        false,
    );
}

proof fn lemma_in_table(page: int, n: int, level: int)
    requires
        0 <= page < 0x8_0000,
        n >= 512,
        level == 0 || level == 1,
    ensures
        crate::stage2::page_in_table(page, n, level) == page,
{
    let span = crate::stage2::span(level);
    vstd::arithmetic::div_mod::lemma_small_mod((page / span) as nat, n as nat);
    vstd::arithmetic::div_mod::lemma_fundamental_div_mod(page, span);
    vstd::arithmetic::mul::lemma_mul_is_commutative(span, page / span);
}

/// No byte of the VMs' memory is free, and no two VMs share one.
pub open spec fn memory_is_private(vms: Seq<VM>, memory: FreeMemory) -> bool {
    &&& forall|i: int, a: int|
        0 <= i < vms.len() && #[trigger] is_memory_of(vms[i], a) ==> !memory.is_free(a)
    &&& forall|i: int, j: int, a: int|
        0 <= i < j < vms.len() ==> !(#[trigger] is_memory_of(vms[i], a)
            && #[trigger] is_memory_of(vms[j], a))
}

/// The byte at this physical address is the VM's.
pub open spec fn is_memory_of(vm: VM, address: int) -> bool {
    vm.ram_physical_base_address <= address < vm.ram_physical_base_address + vm.ram_size
}

/// A new guest gets memory that no other VM has, and that nobody can get as long as it is not freed.
pub proof fn new_guest_has_memory_of_its_own(
    vms: Seq<VM>,
    before: FreeMemory,
    list: VmList,
    host: HostCpu,
    net_mac: [u8; 6],
    vm: VM,
    after: FreeMemory,
)
    requires
        before.valid(),
        memory_is_private(vms, before),
        ram_taken(before) matches Some((ram, memory)) && is_new_guest(
            vm,
            list,
            host,
            net_mac,
            ram,
        ) && table_created(memory, after, Ok(vm.stage2_table), host, ram as u64),
    ensures
        after.valid(),
        memory_is_private(vms.push(vm), after),
{
    reveal(crate::memory::pages_taken);
    let taken = ram_taken(before)->0;
    let ghost memory = taken.1;
    crate::allocator_laws::allocation_takes_its_block(
        before,
        0x1000_0000,
        12,
        usize::MAX as int,
    );
    let n = crate::paging::initial_tables(host.id_aa64mmfr0_el1);
    vstd::arithmetic::power2::lemma2_to64();
    assert(n >= 1);
    crate::allocator_laws::allocation_takes_its_block(
        memory,
        n * 4096,
        (12 + n - 1) as nat,
        usize::MAX as int,
    );
    let rest = table_taken(memory, host.id_aa64mmfr0_el1)->0;
    let ram = taken.0 as u64;
    let first = ram_tables(host, ram);
    let second = interface_tables(host, ram);
    crate::allocator_laws::lemma_after_pages(rest.1, first, second);
    crate::allocator_laws::taking_pages_frees_nothing(rest.1, after, first + second);
    assert forall|a: int| #[trigger] after.is_free(a) implies memory.is_free(a) by {
        assert(rest.1.is_free(a));
    }
    let all = vms.push(vm);
    assert forall|i: int, a: int|
        0 <= i < all.len() && #[trigger] is_memory_of(all[i], a) implies !after.is_free(a) by {
        if after.is_free(a) {
            assert(memory.is_free(a));
            assert(before.is_free(a));
            if i < vms.len() {
                assert(is_memory_of(vms[i], a));
            }
        }
    }
    assert forall|i: int, j: int, a: int| 0 <= i < j < all.len() implies !(
    #[trigger] is_memory_of(all[i], a) && #[trigger] is_memory_of(all[j], a)) by {
        assert(is_memory_of(vms[i], a) == is_memory_of(all[i], a));
        if j == vms.len() && is_memory_of(all[i], a) && is_memory_of(vm, a) {
            assert(before.is_free(a));
        }
        if j < vms.len() {
            assert(is_memory_of(vms[j], a) == is_memory_of(all[j], a));
        }
    }
}

/// The kernel image starts at a multiple of 2 MiB, behind the devicetree.
pub proof fn kernel_is_behind_the_devicetree(dtb_size: int)
    requires
        dtb_size >= 0,
    ensures
        kernel_address(dtb_size) % 0x20_0000 == 0,
        kernel_address(dtb_size) >= RAM_VIRTUAL_BASE + dtb_size,
{
}

/// No two devices of a guest share an address, and none is in its memory.
pub proof fn guest_devices_are_apart(i: int, j: int, address: u64)
    requires
        0 <= i < j < 4,
    ensures
        !(guest_devices()[i].contains(address) && guest_devices()[j].contains(address)),
        guest_devices()[i].contains(address) ==> address < RAM_VIRTUAL_BASE,
        guest_devices()[j].contains(address) ==> address < RAM_VIRTUAL_BASE,
{
}

} // verus!
