//! Virtual machines.

use crate::exception::Registers;
use crate::guest_ram::{GuestRam, Ram};
use crate::mmio::gicv2::GicDistributorMmio;
use crate::mmio::pl011::Pl011Mmio;
use crate::mmio::virtio_net::VirtioNetMmio;
use crate::registers::SPSR_EL2_M_EL1H;
use crate::stage2::Stage2Table;
use crate::vgic::{CpuInterface, CpuModel};
use vstd::prelude::*;

verus! {

/// A device whose registers the guest reads and writes.
pub trait MmioHandler {
    fn read(&mut self, offset: usize, access_width: u64) -> Result<u64, ()>;

    fn write(&mut self, offset: usize, access_width: u64, value: u64) -> Result<(), ()>;
}

/// The devices of a guest.
#[derive(Clone, Copy, PartialEq, Eq, Debug, Structural)]
pub enum MmioDevice {
    Pl011,
    VirtioBlk,
    GicDistributor,
    VirtioNet,
}

/// Where the registers of a device are.
#[derive(Clone, Copy, PartialEq, Eq, Debug, Structural)]
pub struct MmioEntry {
    pub base_address: u64,
    pub length: u64,
    pub device: MmioDevice,
}

impl MmioEntry {
    pub fn new(base_address: u64, length: u64, device: MmioDevice) -> (entry: Self)
        ensures
            entry == (MmioEntry { base_address, length, device }),
    {
        Self { base_address, length, device }
    }

    pub open spec fn contains(self, address: u64) -> bool {
        self.base_address <= address < self.base_address + self.length
    }

    /// The registers end inside the address space, and their offsets are machine words.
    pub open spec fn wf(self) -> bool {
        self.base_address + self.length <= u64::MAX && self.length <= usize::MAX + 1
    }
}

/// The first of the entries from `i` on that contains the address.
pub open spec fn entry_from(entries: Seq<MmioEntry>, address: u64, i: int) -> Option<int>
    decreases entries.len() - i,
{
    if i < 0 || i >= entries.len() {
        None
    } else if entries[i].contains(address) {
        Some(i)
    } else {
        entry_from(entries, address, i + 1)
    }
}

/// The system registers of a guest. The hardware has one copy of each for all the guests of a CPU.
#[derive(Clone, Copy, PartialEq, Eq, Debug, Structural)]
pub struct El1Context {
    pub sctlr_el1: u64,
    pub ttbr0_el1: u64,
    pub ttbr1_el1: u64,
    pub tcr_el1: u64,
    pub mair_el1: u64,
    pub amair_el1: u64,
    pub vbar_el1: u64,
    pub cpacr_el1: u64,
    pub contextidr_el1: u64,
    pub esr_el1: u64,
    pub far_el1: u64,
    pub par_el1: u64,
    pub afsr0_el1: u64,
    pub afsr1_el1: u64,
    pub tpidr_el0: u64,
    pub tpidr_el1: u64,
    pub sp_el0: u64,
    pub sp_el1: u64,
    pub elr_el1: u64,
    pub spsr_el1: u64,
    pub cntkctl_el1: u64,
    pub cntv_ctl_el0: u64,
    pub cntv_cval_el0: u64,
}

/// The state of a vCPU that does not run: what it starts with, or what it had when it yielded.
pub struct VcpuContext {
    pub regs: [u64; 32],
    pub elr_el2: u64,
    pub spsr_el2: u64,
    pub gich_lr: [u32; 4],
    pub el1: El1Context,
}

impl VcpuContext {
    pub fn new(el1: El1Context) -> (context: Self)
        ensures
            context.regs@ == Seq::new(32, |i: int| 0u64),
            context.elr_el2 == 0,
            context.spsr_el2 == 0,
            context.gich_lr@ == Seq::new(4, |i: int| 0u32),
            context.el1 == el1,
    {
        let context = Self { regs: [0; 32], elr_el2: 0, spsr_el2: 0, gich_lr: [0; 4], el1 };
        assert(context.regs@ =~= Seq::new(32, |i: int| 0u64));
        assert(context.gich_lr@ =~= Seq::new(4, |i: int| 0u32));
        context
    }
}

pub struct VM {
    pub vm_id: usize,
    /// The affinity of the CPU that runs this vCPU.
    pub owner_affinity: u64,
    /// Every vCPU has a translation table of its own, so that switching between them never lets
    /// one see the memory of another.
    pub stage2_table: Stage2Table,
    /// It tags the TLB entries of this vCPU.
    pub vmid: u64,
    pub ram_virtual_base_address: u64,
    pub ram_physical_base_address: u64,
    pub ram_size: u64,
    pub mmio_handlers: Vec<MmioEntry>,
    pub gic_distributor_mmio: GicDistributorMmio,
    pub pl011_mmio: Pl011Mmio,
    pub virtio_net_mmio: VirtioNetMmio,
    pub context: VcpuContext,
}

/// What a read of the guest gives.
#[derive(Clone, Copy, PartialEq, Eq, Debug, Structural)]
pub enum MmioValue {
    Value(u64),
    /// The Virtio-Blk device is read at this offset.
    Block(usize),
}

/// What is left to do after a write of the guest.
#[derive(Clone, Copy, PartialEq, Eq, Debug, Structural)]
pub enum MmioNotice {
    Done,
    /// This byte goes out through the UART.
    Output(u8),
    /// The guest has frames to send.
    NetTx,
    /// The Virtio-Blk device is written at this offset.
    Block(usize),
}

impl VM {
    pub open spec fn wf(&self) -> bool {
        &&& self.pl011_mmio.wf()
        &&& self.virtio_net_mmio.wf()
        &&& self.ram_virtual_base_address + self.ram_size <= u64::MAX
        &&& self.ram_physical_base_address + self.ram_size <= u64::MAX
        &&& forall|i: int|
            0 <= i < self.mmio_handlers@.len() ==> (#[trigger] self.mmio_handlers@[i]).wf()
    }

    /// Nothing but the devices differs.
    pub open spec fn same_but_devices(&self, other: Self) -> bool {
        &&& self.vm_id == other.vm_id
        &&& self.owner_affinity == other.owner_affinity
        &&& self.stage2_table == other.stage2_table
        &&& self.vmid == other.vmid
        &&& self.ram_virtual_base_address == other.ram_virtual_base_address
        &&& self.ram_physical_base_address == other.ram_physical_base_address
        &&& self.ram_size == other.ram_size
        &&& self.mmio_handlers == other.mmio_handlers
        &&& self.context == other.context
    }

    /// Nothing but the context differs.
    pub open spec fn same_but_context(&self, other: Self) -> bool {
        *self == (VM { context: self.context, ..other })
    }

    /// The device that an access goes to, and the offset in it.
    pub open spec fn device_at(&self, address: u64) -> Option<(MmioDevice, int)> {
        match entry_from(self.mmio_handlers@, address, 0) {
            Some(i) => Some(
                (
                    self.mmio_handlers@[i].device,
                    address - self.mmio_handlers@[i].base_address,
                ),
            ),
            None => None,
        }
    }

    pub fn new(
        vm_id: usize,
        owner_affinity: u64,
        stage2_table: Stage2Table,
        vmid: u64,
        ram_virtual_base_address: u64,
        ram_physical_base_address: u64,
        ram_size: u64,
        mmio_handlers: Vec<MmioEntry>,
        gic_distributor_mmio: GicDistributorMmio,
        pl011_mmio: Pl011Mmio,
        virtio_net_mmio: VirtioNetMmio,
        el1: El1Context,
    ) -> (vm: Self)
        ensures
            vm.vm_id == vm_id,
            vm.owner_affinity == owner_affinity,
            vm.stage2_table == stage2_table,
            vm.vmid == vmid,
            vm.ram_virtual_base_address == ram_virtual_base_address,
            vm.ram_physical_base_address == ram_physical_base_address,
            vm.ram_size == ram_size,
            vm.mmio_handlers == mmio_handlers,
            vm.gic_distributor_mmio == gic_distributor_mmio,
            vm.pl011_mmio == pl011_mmio,
            vm.virtio_net_mmio == virtio_net_mmio,
            vm.context.regs@ == Seq::new(32, |i: int| 0u64),
            vm.context.elr_el2 == 0,
            vm.context.spsr_el2 == 0,
            vm.context.gich_lr@ == Seq::new(4, |i: int| 0u32),
            vm.context.el1 == el1,
    {
        Self {
            vm_id,
            owner_affinity,
            stage2_table,
            vmid,
            ram_virtual_base_address,
            ram_physical_base_address,
            ram_size,
            mmio_handlers,
            gic_distributor_mmio,
            pl011_mmio,
            virtio_net_mmio,
            context: VcpuContext::new(el1),
        }
    }

    /// What this vCPU starts with: at `boot_entry_point` in EL1h, with the argument in x0.
    pub fn set_initial_context(&mut self, boot_entry_point: u64, boot_argument: u64)
        ensures
            final(self).same_but_context(*old(self)),
            final(self).context.regs@ == old(self).context.regs@.update(0, boot_argument),
            final(self).context.elr_el2 == boot_entry_point,
            final(self).context.spsr_el2 == 5,
            final(self).context.gich_lr == old(self).context.gich_lr,
            final(self).context.el1 == old(self).context.el1,
    {
        self.context.regs[0] = boot_argument;
        self.context.elr_el2 = boot_entry_point;
        self.context.spsr_el2 = SPSR_EL2_M_EL1H;
    }

    /// Saves the state of this vCPU, so that it can be resumed later.
    pub fn save_context(
        &mut self,
        registers: &Registers,
        elr_el2: u64,
        spsr_el2: u64,
        gich_lr: [u32; 4],
        el1: El1Context,
    )
        ensures
            final(self).same_but_context(*old(self)),
            final(self).context.regs@ == registers@,
            final(self).context.elr_el2 == elr_el2,
            final(self).context.spsr_el2 == spsr_el2,
            final(self).context.gich_lr == gich_lr,
            final(self).context.el1 == el1,
    {
        self.context.regs = registers.as_array();
        self.context.elr_el2 = elr_el2;
        self.context.spsr_el2 = spsr_el2;
        self.context.gich_lr = gich_lr;
        self.context.el1 = el1;
    }

    /// Puts the saved state of this vCPU into the trap frame. The rest of the state has to be put
    /// into the hardware: ELR_EL2, SPSR_EL2, the List Registers and the system registers.
    pub fn restore_context(&self, registers: &mut Registers) -> (state: (
        u64,
        u64,
        [u32; 4],
        El1Context,
    ))
        ensures
            final(registers)@ == self.context.regs@,
            state == (
                self.context.elr_el2,
                self.context.spsr_el2,
                self.context.gich_lr,
                self.context.el1,
            ),
    {
        registers.load_array(&self.context.regs);
        (self.context.elr_el2, self.context.spsr_el2, self.context.gich_lr, self.context.el1)
    }

    /// This VM's unique identifier. Each CPU holds the one of its guest in TPIDR_EL2.
    pub fn vm_id(&self) -> (id: usize)
        ensures
            id == self.vm_id,
    {
        self.vm_id
    }

    fn find_device(&self, address: u64) -> (found: Option<(MmioDevice, usize)>)
        requires
            self.wf(),
        ensures
            match self.device_at(address) {
                Some((device, offset)) => found matches Some((d, o)) && d == device && o == offset,
                None => found is None,
            },
    {
        let mut i: usize = 0;
        while i < self.mmio_handlers.len()
            invariant
                self.wf(),
                i <= self.mmio_handlers@.len(),
                entry_from(self.mmio_handlers@, address, 0) == entry_from(
                    self.mmio_handlers@,
                    address,
                    i as int,
                ),
            decreases self.mmio_handlers@.len() - i,
        {
            let entry: MmioEntry = self.mmio_handlers[i];
            assert(self.mmio_handlers@[i as int].wf());
            if entry.base_address <= address && address < entry.base_address + entry.length {
                return Some((entry.device, (address - entry.base_address) as usize));
            }
            i = i + 1;
        }
        None
    }

    /// What a read of the guest at `address` gives. `Err` where there is no device, or the device
    /// cannot give the register.
    pub open spec fn read_result(&self, cpu: CpuModel, address: u64, access_width: u64) -> Result<
        MmioValue,
        (),
    > {
        match self.device_at(address) {
            Some((MmioDevice::Pl011, offset)) => Ok(
                MmioValue::Value(self.pl011_mmio@.read_value(offset)),
            ),
            Some((MmioDevice::VirtioBlk, offset)) => Ok(MmioValue::Block(offset as usize)),
            Some((MmioDevice::GicDistributor, offset)) => Ok(
                MmioValue::Value(
                    self.gic_distributor_mmio@.read_value(cpu, offset, access_width as int),
                ),
            ),
            Some((MmioDevice::VirtioNet, offset)) => if offset
                == crate::drivers::virtio::VIRTIO_MMIO_QUEUE_PFN
                && self.virtio_net_mmio.device.page_size == 0 {
                Err(())
            } else {
                Ok(
                    MmioValue::Value(
                        crate::mmio::virtio_net::read_value(
                            self.virtio_net_mmio.mac@,
                            self.virtio_net_mmio.device@,
                            offset,
                        ),
                    ),
                )
            },
            None => Err(()),
        }
    }

    /// The VM once the guest has read at `address`.
    pub open spec fn is_read(&self, after: Self, address: u64) -> bool {
        &&& after.same_but_devices(*self)
        &&& after.gic_distributor_mmio == self.gic_distributor_mmio
        &&& after.virtio_net_mmio == self.virtio_net_mmio
        &&& after.pl011_mmio@ == match self.device_at(address) {
            Some((MmioDevice::Pl011, offset)) => self.pl011_mmio@.after_read(offset),
            _ => self.pl011_mmio@,
        }
    }

    /// What is left to do after a write of the guest at `address`. `Err` where there is no device, or
    /// the device cannot take the value.
    pub open spec fn write_result(
        &self,
        cpu: CpuModel,
        ram: Ram,
        address: u64,
        access_width: u64,
        value: u64,
    ) -> Result<MmioNotice, ()> {
        match self.device_at(address) {
            Some((MmioDevice::Pl011, offset)) => Ok(
                if offset == crate::mmio::pl011::UART_DR {
                    MmioNotice::Output(#[verifier::truncate] (value as u8))
                } else {
                    MmioNotice::Done
                },
            ),
            Some((MmioDevice::VirtioBlk, offset)) => Ok(MmioNotice::Block(offset as usize)),
            Some((MmioDevice::GicDistributor, offset)) => if self.gic_distributor_mmio@.can_write(
                cpu,
                offset,
                access_width as int,
                value,
            ) {
                Ok(MmioNotice::Done)
            } else {
                Err(())
            },
            Some((MmioDevice::VirtioNet, offset)) => if !self.virtio_net_mmio.device@.can_write(
                ram,
                offset,
                value,
            ) {
                Err(())
            } else if offset == crate::drivers::virtio::VIRTIO_MMIO_QUEUE_NOTIFY && value == 1 {
                Ok(MmioNotice::NetTx)
            } else {
                Ok(MmioNotice::Done)
            },
            None => Err(()),
        }
    }

    /// The VM and the CPU once the guest has written at `address`.
    pub open spec fn is_written(
        &self,
        after: Self,
        cpu: CpuModel,
        cpu_after: CpuModel,
        ram: Ram,
        address: u64,
        access_width: u64,
        value: u64,
    ) -> bool {
        let done = self.write_result(cpu, ram, address, access_width, value) is Ok;
        &&& after.same_but_devices(*self)
        &&& after.pl011_mmio@ == match self.device_at(address) {
            Some((MmioDevice::Pl011, offset)) => self.pl011_mmio@.written(offset, value),
            _ => self.pl011_mmio@,
        }
        &&& (after.gic_distributor_mmio@, cpu_after) == match self.device_at(address) {
            Some((MmioDevice::GicDistributor, offset)) => if done {
                self.gic_distributor_mmio@.written(cpu, offset, access_width as int, value)
            } else {
                (self.gic_distributor_mmio@, cpu)
            },
            _ => (self.gic_distributor_mmio@, cpu),
        }
        &&& after.virtio_net_mmio.mac == self.virtio_net_mmio.mac
        &&& after.virtio_net_mmio.device@ == match self.device_at(address) {
            Some((MmioDevice::VirtioNet, offset)) => if done {
                self.virtio_net_mmio.device@.written(ram, offset, value)
            } else {
                self.virtio_net_mmio.device@
            },
            _ => self.virtio_net_mmio.device@,
        }
    }

    /// Handles a read of the guest at an address that is not memory.
    pub fn handle_mmio_read(&mut self, cpu: &CpuInterface, address: u64, access_width: u64) -> (result:
        Result<MmioValue, ()>)
        requires
            old(self).wf(),
        ensures
            final(self).wf(),
            old(self).is_read(*final(self), address),
            result == old(self).read_result(cpu@, address, access_width),
    {
        let (device, offset): (MmioDevice, usize) = match self.find_device(address) {
            Some(found) => found,
            None => {
                return Err(());
            },
        };
        let value: Result<u64, ()> = match device {
            MmioDevice::Pl011 => self.pl011_mmio.read(offset, access_width),
            MmioDevice::VirtioBlk => {
                return Ok(MmioValue::Block(offset));
            },
            MmioDevice::GicDistributor => self.gic_distributor_mmio.read(cpu, offset, access_width),
            MmioDevice::VirtioNet => {
                if offset == crate::drivers::virtio::VIRTIO_MMIO_QUEUE_PFN
                    && self.virtio_net_mmio.device.page_size == 0 {
                    return Err(());
                }
                self.virtio_net_mmio.read(offset, access_width)
            },
        };
        match value {
            Ok(value) => Ok(MmioValue::Value(value)),
            Err(()) => Err(()),
        }
    }

    /// Handles a write of the guest at an address that is not memory.
    pub fn handle_mmio_write(
        &mut self,
        cpu: &mut CpuInterface,
        ram: &GuestRam,
        address: u64,
        access_width: u64,
        value: u64,
    ) -> (result: Result<MmioNotice, ()>)
        requires
            old(self).wf(),
            ram@.valid(),
        ensures
            final(self).wf(),
            result == old(self).write_result(old(cpu)@, ram@, address, access_width, value),
            old(self).is_written(
                *final(self),
                old(cpu)@,
                final(cpu)@,
                ram@,
                address,
                access_width,
                value,
            ),
    {
        let (device, offset): (MmioDevice, usize) = match self.find_device(address) {
            Some(found) => found,
            None => {
                return Err(());
            },
        };
        match device {
            MmioDevice::Pl011 => match self.pl011_mmio.write(offset, access_width, value) {
                Ok(Some(byte)) => Ok(MmioNotice::Output(byte)),
                Ok(None) => Ok(MmioNotice::Done),
                Err(()) => Err(()),
            },
            MmioDevice::VirtioBlk => Ok(MmioNotice::Block(offset)),
            MmioDevice::GicDistributor => {
                if !self.gic_distributor_mmio.accepts_write(cpu, offset, access_width, value) {
                    return Err(());
                }
                match self.gic_distributor_mmio.write(cpu, offset, access_width, value) {
                    Ok(()) => Ok(MmioNotice::Done),
                    Err(()) => Err(()),
                }
            },
            MmioDevice::VirtioNet => {
                if !self.virtio_net_mmio.device.accepts_write(ram, offset, value) {
                    return Err(());
                }
                match self.virtio_net_mmio.write(ram, offset, access_width, value) {
                    Ok(true) => Ok(MmioNotice::NetTx),
                    Ok(false) => Ok(MmioNotice::Done),
                    Err(()) => Err(()),
                }
            },
        }
    }

    /// The physical address of the guest's memory at `virtual_address`.
    pub open spec fn physical_address(&self, virtual_address: u64) -> Option<u64> {
        if self.ram_virtual_base_address <= virtual_address < self.ram_virtual_base_address
            + self.ram_size {
            Some(
                (virtual_address - self.ram_virtual_base_address
                    + self.ram_physical_base_address) as u64,
            )
        } else {
            None
        }
    }

    pub fn get_physical_address(&self, virtual_address: u64) -> (address: Option<u64>)
        requires
            self.wf(),
        ensures
            address == self.physical_address(virtual_address),
    {
        if self.ram_virtual_base_address <= virtual_address && virtual_address
            < self.ram_virtual_base_address + self.ram_size {
            Some(
                virtual_address - self.ram_virtual_base_address + self.ram_physical_base_address,
            )
        } else {
            None
        }
    }

    pub fn get_gic_distributor_mmio(&self) -> (distributor: &GicDistributorMmio)
        ensures
            *distributor == self.gic_distributor_mmio,
    {
        &self.gic_distributor_mmio
    }

    pub fn get_pl011_mmio(&self) -> (uart: &Pl011Mmio)
        ensures
            *uart == self.pl011_mmio,
    {
        &self.pl011_mmio
    }

    pub fn get_virtio_net_mmio(&self) -> (net: &VirtioNetMmio)
        ensures
            *net == self.virtio_net_mmio,
    {
        &self.virtio_net_mmio
    }
}

} // verus!
