//! Bringing up the machine: what the boot loader, the devicetree and the disk say.

use crate::device::RegisterOp;
use crate::dma::IoOp;
use crate::drivers::gicv2::{
    GicCpuInterface, GicDistributor, GicGroup, GicHypervisorInterface, DTB_GIC_LEVEL, DTB_GIC_SPI,
    GIC_SPI_BASE,
};
use crate::drivers::pl011::Pl011;
use vstd::prelude::*;

verus! {

/// Where the partition table is in the first sector of a disk.
pub const PARTITION_TABLE_BASE: usize = 0x1BE;

/// The type of a FAT32 partition.
pub const PARTITION_TYPE_FAT32: u8 = 0x0C;

pub const BOOT_SIGNATURE: u64 = 0xAA55;

/// The address of the devicetree, from the arguments of the boot loader, or what the hypervisor
/// returns to it: 1 where there are not two arguments, 2 where the first is not text, 3 where it is
/// not a number.
pub fn entry_main(argc: usize, argument: &[u8]) -> (result: Result<usize, usize>)
    ensures
        result == if argc != 2 {
            Err::<usize, usize>(1)
        } else if !vstd::utf8::valid_utf8(argument@) {
            Err(2)
        } else {
            match crate::text::usize_of(argument@) {
                Some(address) => Ok(address as usize),
                None => Err(3),
            }
        },
{
    if argc != 2 {
        return Err(1);
    }
    if !crate::text::is_valid_utf8(argument) {
        return Err(2);
    }
    match crate::text::str_to_usize(argument) {
        Some(address) => Ok(address),
        None => Err(3),
    }
}

/// The UART and its interrupt, or what the hypervisor returns: 5 where the devicetree has no UART, 6
/// where the UART has no registers, 7 where they are not all there. A UART without a level-triggered
/// shared interrupt has the interrupt 0.
pub open spec fn serial_port(node: Option<Option<(u64, u64)>>, interrupts: Seq<u32>) -> Result<
    (Pl011, u32),
    usize,
> {
    match node {
        None => Err(5),
        Some(None) => Err(6),
        Some(Some((base_address, range))) => if range < 0x46 {
            Err(7)
        } else {
            Ok(
                (
                    Pl011 { base_address },
                    if interrupts[0] == DTB_GIC_SPI && interrupts[2] == DTB_GIC_LEVEL {
                        (32 + interrupts[1]) as u32
                    } else {
                        0
                    },
                ),
            )
        },
    }
}

/// Sets up the UART. `node` is the first UART of the devicetree that is in operation, with its
/// registers, and `interrupts` are the cells of its interrupt.
pub fn init_serial_port(node: Option<Option<(u64, u64)>>, interrupts: &[u32]) -> (result: Result<
    (Pl011, u32),
    usize,
>)
    requires
        node matches Some(Some(_)) ==> interrupts@.len() >= 3 && (interrupts@[0] == 0
            && interrupts@[2] == 4 ==> interrupts@[1] <= u32::MAX - 32),
    ensures
        result == serial_port(node, interrupts@),
{
    let (base_address, range): (u64, u64) = match node {
        None => {
            return Err(5);
        },
        Some(None) => {
            return Err(6);
        },
        Some(Some(registers)) => registers,
    };
    let mut interrupt_number: u32 = 0;
    if interrupts[0] == DTB_GIC_SPI && interrupts[2] == DTB_GIC_LEVEL {
        interrupt_number = GIC_SPI_BASE + interrupts[1];
    }
    match Pl011::new(base_address, range) {
        Ok(pl011) => Ok((pl011, interrupt_number)),
        Err(()) => Err(7),
    }
}

/// The CPU interface of the interrupt controller. `Err` where its registers are not all there.
pub fn init_gic_cpu_interface(base_address: usize, size: usize) -> (interface: Result<
    GicCpuInterface,
    (),
>)
    ensures
        match interface {
            Ok(i) => size >= 0x1000 && i.base_address == base_address,
            Err(_) => size < 0x1000,
        },
{
    if size < GicCpuInterface::GICC_MMIO_SIZE {
        return Err(());
    }
    Ok(GicCpuInterface::new(base_address))
}

/// The hypervisor interface of the interrupt controller. `Err` where its registers are not all
/// there.
pub fn init_gic_hypervisor_interface(base_address: usize, size: usize) -> (interface: Result<
    GicHypervisorInterface,
    (),
>)
    ensures
        match interface {
            Ok(i) => size >= 0x1000 && i.base_address == base_address,
            Err(_) => size < 0x1000,
        },
{
    if size < GicHypervisorInterface::GICH_MMIO_SIZE {
        return Err(());
    }
    Ok(GicHypervisorInterface::new(base_address))
}

/// The accesses that direct a level-triggered Group 1 interrupt of the highest priority to a CPU.
pub open spec fn route_ops(base: int, int_id: int, target: u8) -> Seq<RegisterOp> {
    let bit = 1u32 << ((int_id % 32) as u32);
    let byte = ((int_id % 4) * 8) as u32;
    let pair = ((int_id % 16) * 2) as u32;
    seq![
        RegisterOp::Modify {
            address: (base + 0x080 + 4 * (int_id / 32)) as usize,
            clear: bit,
            set: bit,
        },
        RegisterOp::Modify {
            address: (base + 0x400 + 4 * (int_id / 4)) as usize,
            clear: 0xFFu32 << byte,
            set: 0u32 << byte,
        },
        RegisterOp::Modify {
            address: (base + 0x800 + 4 * (int_id / 4)) as usize,
            clear: 0xFFu32 << byte,
            set: (target as u32) << byte,
        },
        RegisterOp::Modify {
            address: (base + 0xC00 + 4 * (int_id / 16)) as usize,
            clear: 3u32 << pair,
            set: 0u32 << pair,
        },
        RegisterOp::Modify {
            address: (base + 0x280 + 4 * (int_id / 32)) as usize,
            clear: 0,
            set: bit,
        },
        RegisterOp::Write { address: (base + 0x100 + 4 * (int_id / 32)) as usize, value: bit },
    ]
}

fn route_interrupt(distributor: &GicDistributor, int_id: u32, target: u8) -> (ops: Vec<RegisterOp>)
    requires
        distributor.reaches(int_id),
    ensures
        ops@ == route_ops(distributor.base_address as int, int_id as int, target),
{
    let mut ops: Vec<RegisterOp> = Vec::new();
    ops.push(distributor.set_group(int_id, GicGroup::NonSecureGroup1));
    ops.push(distributor.set_priority(int_id, 0x00));
    ops.push(distributor.set_target(int_id, target));
    ops.push(distributor.set_trigger_mode(int_id, true));
    ops.push(distributor.set_pending(int_id, false));
    ops.push(distributor.set_enable(int_id, true));
    assert(ops@ =~= route_ops(distributor.base_address as int, int_id as int, target));
    ops
}

/// Enables the interrupt of the UART: first in the interrupt controller, then in the UART. `None`
/// where it has no interrupt.
pub fn enable_serial_port_interrupt(
    pl011: &Pl011,
    int_id: u32,
    distributor: &GicDistributor,
    target: u8,
) -> (ops: Option<(Vec<RegisterOp>, Vec<IoOp>)>)
    requires
        pl011.wf(),
        distributor.reaches(int_id),
    ensures
        match ops {
            Some((route, uart)) => {
                &&& int_id != 0
                &&& route@ == route_ops(distributor.base_address as int, int_id as int, target)
                &&& uart@ == pl011.enable_ops()
            },
            None => int_id == 0,
        },
{
    if int_id == 0 {
        return None;
    }
    Some((route_interrupt(distributor, int_id, target), pl011.enable_interrupt()))
}

/// Enables the interrupt of the network device. A VM has to be active.
pub fn enable_net_interrupt(int_id: u32, distributor: &GicDistributor, target: u8) -> (ops: Vec<
    RegisterOp,
>)
    requires
        distributor.reaches(int_id),
    ensures
        ops@ == route_ops(distributor.base_address as int, int_id as int, target),
{
    route_interrupt(distributor, int_id, target)
}

/// The interrupt of a network device, from the cells of its node. `None` where it is not a shared
/// one.
pub fn net_interrupt(interrupts: &[u32]) -> (int_id: Option<u32>)
    requires
        interrupts@.len() >= 2,
        interrupts@[0] == 0 ==> interrupts@[1] <= u32::MAX - 32,
    ensures
        int_id == if interrupts@[0] == 0 {
            Some((32 + interrupts@[1]) as u32)
        } else {
            None
        },
{
    if interrupts[0] == DTB_GIC_SPI {
        Some(GIC_SPI_BASE + interrupts[1])
    } else {
        None
    }
}

/// Why there is no FAT32 partition.
#[derive(Clone, Copy, PartialEq, Eq, Debug, Structural)]
pub enum PartitionError {
    /// The sector does not end in the boot signature.
    Signature,
    NotFound,
}

/// The first entry of the partition table from `i` on that is a FAT32 partition.
pub open spec fn fat32_entry(mbr: Seq<u8>, i: int) -> Option<int>
    decreases 4 - i,
{
    if i < 0 || i >= 4 {
        None
    } else if mbr[0x1BE + 16 * i + 4] == 0x0C {
        Some(i)
    } else {
        fat32_entry(mbr, i + 1)
    }
}

/// The first sector of the first FAT32 partition, from the first sector of the disk.
pub open spec fn partition_of(mbr: Seq<u8>) -> Result<u32, PartitionError> {
    if crate::bits::le_number(mbr, 510, 2) != 0xAA55 {
        Err(PartitionError::Signature)
    } else {
        match fat32_entry(mbr, 0) {
            Some(i) => Ok(crate::bits::le_number(mbr, 0x1BE + 16 * i + 8, 4) as u32),
            None => Err(PartitionError::NotFound),
        }
    }
}

/// Finds the first sector of the FAT32 partition, in the first sector of the disk.
pub fn init_fat32(mbr: &[u8]) -> (first_sector: Result<u32, PartitionError>)
    requires
        mbr@.len() == 512,
    ensures
        first_sector == partition_of(mbr@),
{
    if crate::bits::read_le(mbr, 510, 2) != BOOT_SIGNATURE {
        return Err(PartitionError::Signature);
    }
    let mut i: usize = 0;
    while i < 4
        invariant
            i <= 4,
            mbr@.len() == 512,
            fat32_entry(mbr@, 0) == fat32_entry(mbr@, i as int),
            crate::bits::le_number(mbr@, 510, 2) == 0xAA55,
        decreases 4 - i,
    {
        let entry: usize = PARTITION_TABLE_BASE + 16 * i;
        if mbr[entry + 4] == PARTITION_TYPE_FAT32 {
            proof {
                reveal_with_fuel(crate::bits::le_number, 5);
            }
            return Ok(crate::bits::read_le(mbr, entry + 8, 4) as u32);
        }
        i = i + 1;
    }
    Err(PartitionError::NotFound)
}

/// The property starts with "spin-table".
pub open spec fn is_spin_table(value: Seq<u8>) -> bool {
    value.len() >= 10 && value.take(10) == seq![
        0x73u8,
        0x70,
        0x69,
        0x6E,
        0x2D,
        0x74,
        0x61,
        0x62,
        0x6C,
        0x65,
    ]
}

/// Whether a CPU is started by the spin-table protocol, from the `enable-method` property of its
/// node.
pub fn is_spin_table_enable_method(property: Option<&[u8]>) -> (spin_table: bool)
    ensures
        spin_table == match property {
            Some(value) => is_spin_table(value@),
            None => false,
        },
{
    let value: &[u8] = match property {
        Some(value) => value,
        None => {
            return false;
        },
    };
    if value.len() < 10 {
        return false;
    }
    let name: [u8; 10] = [0x73, 0x70, 0x69, 0x6E, 0x2D, 0x74, 0x61, 0x62, 0x6C, 0x65];
    let ghost expected = seq![0x73u8, 0x70, 0x69, 0x6E, 0x2D, 0x74, 0x61, 0x62, 0x6C, 0x65];
    assert(name@ =~= expected);
    let mut i: usize = 0;
    while i < 10
        invariant
            i <= 10,
            value@.len() >= 10,
            name@ == expected,
            property == Some(value),
            expected == seq![0x73u8, 0x70, 0x69, 0x6E, 0x2D, 0x74, 0x61, 0x62, 0x6C, 0x65],
            forall|k: int| 0 <= k < i ==> #[trigger] value@[k] == name@[k],
        decreases 10 - i,
    {
        if value[i] != name[i] {
            assert(value@.take(10)[i as int] != expected[i as int]);
            return false;
        }
        i = i + 1;
    }
    assert(value@.take(10) =~= expected);
    true
}

/// The address that releases a CPU from the spin table, from the cells of its node: one 64-bit
/// number. `None` where there are too few.
pub fn read_cpu_release_address(cells: Option<&[u32]>) -> (address: Option<u64>)
    ensures
        match cells {
            Some(c) => if c@.len() < 2 {
                address is None
            } else {
                address matches Some(a) && a == c@[0] * 0x1_0000_0000 + c@[1]
            },
            None => address is None,
        },
{
    match cells {
        Some(cells) => if cells.len() < 2 {
            None
        } else {
            Some(cells[0] as u64 * 0x1_0000_0000 + cells[1] as u64)
        },
        None => None,
    }
}

} // verus!
