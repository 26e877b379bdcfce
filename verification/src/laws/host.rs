//! The interrupt controller, the UART and the timers of the machine itself.

use crate::boot::{
    enable_net_interrupt, enable_serial_port_interrupt, init_gic_cpu_interface,
    init_gic_hypervisor_interface, init_serial_port, net_interrupt,
};
use crate::device::RegisterOp;
use crate::dma::IoOp;
use crate::drivers::generic_timer::{
    generic_timer_interrupt_handler, init_generic_timer_global, init_generic_timer_local,
};
use crate::drivers::gicv2::{
    get_current_cpu_target, get_gich_lr, get_gich_vtr_list_regs, send_sgi, set_gich_lr,
    GicCpuInterface, GicDistributor, GicGroup, GicHypervisorInterface, SpiConfig,
};
use crate::drivers::pl011::{Pl011, PutcCounters};
use crate::laws::fields::{lemma_list_register, lemma_prod, lemma_replaced};
use crate::mmio::gicv2::GicDistributorMmio;
use crate::serial::Serial;
use crate::timer::{deadline, deadline_passed};
use crate::vgic::{enable_interrupt, init_vgic, CpuInterface};
use vstd::prelude::*;

verus! {

/// An access tells the value that the register gets: the one that is written, or the current one without
/// the bits that are cleared and with those that are set. Only the latter has to be read.
pub proof fn access_has_its_effect(
    address: usize,
    clear: u32,
    set: u32,
    current: u32,
    written: u32,
    modified: u32,
    reads_first: bool,
    reads: bool,
)
    requires
        call_ensures(RegisterOp::apply, (&RegisterOp::Write { address, value: set }, current), written),
        call_ensures(
            RegisterOp::apply,
            (&RegisterOp::Modify { address, clear, set }, current),
            modified,
        ),
        call_ensures(RegisterOp::reads, (&RegisterOp::Write { address, value: set },), reads_first),
        call_ensures(RegisterOp::reads, (&RegisterOp::Modify { address, clear, set },), reads),
    ensures
        written == set,
        modified == (current & !clear) | set,
        !reads_first && reads,
{
}

/// Setting the priority or the target of an interrupt puts it into the interrupt's own byte of the
/// registers from 0x400 or 0x800 on, and leaves the other bytes.
pub proof fn interrupt_byte_is_set(
    distributor: &GicDistributor,
    int_id: u32,
    byte: u8,
    priority: RegisterOp,
    target: RegisterOp,
    current: u32,
    new_priority: u32,
    new_target: u32,
    other: u32,
)
    requires
        distributor.reaches(int_id),
        call_ensures(GicDistributor::set_priority, (distributor, int_id, byte), priority),
        call_ensures(GicDistributor::set_target, (distributor, int_id, byte), target),
        call_ensures(RegisterOp::apply, (&priority, current), new_priority),
        call_ensures(RegisterOp::apply, (&target, current), new_target),
        other < 4,
    ensures
        ({
            let place = (int_id % 4) as u32;
            &&& priority.target() == distributor.base_address + 0x400 + int_id - place
            &&& target.target() == distributor.base_address + 0x800 + int_id - place
            &&& (new_priority >> ((8 * place) as u32)) & 0xFF == byte
            &&& (new_target >> ((8 * place) as u32)) & 0xFF == byte
            &&& other != place ==> (new_priority >> ((8 * other) as u32)) & 0xFF == (current >> ((8
                * other) as u32)) & 0xFF
            &&& other != place ==> (new_target >> ((8 * other) as u32)) & 0xFF == (current >> ((8
                * other) as u32)) & 0xFF
        }),
{
    lemma_replaced(current, byte as u32, (int_id % 4) as u32, other);
}

/// Enabling, disabling, pending and clearing write a one to the interrupt's own bit of the registers from
/// 0x100, 0x180, 0x200 and 0x280 on.
pub proof fn interrupt_bit_is_written(
    distributor: &GicDistributor,
    int_id: u32,
    on: bool,
    enable: RegisterOp,
    pending: RegisterOp,
    current: u32,
    written: u32,
    pended: u32,
    other: u32,
)
    requires
        distributor.reaches(int_id),
        call_ensures(GicDistributor::set_enable, (distributor, int_id, on), enable),
        call_ensures(GicDistributor::set_pending, (distributor, int_id, on), pending),
        call_ensures(RegisterOp::apply, (&enable, current), written),
        call_ensures(RegisterOp::apply, (&pending, current), pended),
        other < 32,
    ensures
        ({
            let place = (int_id % 32) as u32;
            &&& 8 * (enable.target() - distributor.base_address - (if on {
                0x100int
            } else {
                0x180
            })) == int_id - place
            &&& 8 * (pending.target() - distributor.base_address - (if on {
                0x200int
            } else {
                0x280
            })) == int_id - place
            &&& (written >> place) & 1 == 1
            &&& other != place ==> (written >> other) & 1 == 0
            &&& (pended >> place) & 1 == 1
        }),
{
    lemma_replaced(current, 0, (int_id % 32) as u32, other);
}

/// The group of an interrupt is one bit of the registers from 0x80 on, its trigger mode two bits of those
/// from 0xC00 on: zero for a level, two for an edge. The other interrupts of the register keep theirs.
pub proof fn interrupt_field_is_set(
    distributor: &GicDistributor,
    int_id: u32,
    level: bool,
    group: RegisterOp,
    trigger: RegisterOp,
    current: u32,
    new_group: u32,
    new_trigger: u32,
    other: u32,
)
    requires
        distributor.reaches(int_id),
        call_ensures(
            GicDistributor::set_group,
            (distributor, int_id, GicGroup::NonSecureGroup1),
            group,
        ),
        call_ensures(GicDistributor::set_trigger_mode, (distributor, int_id, level), trigger),
        call_ensures(RegisterOp::apply, (&group, current), new_group),
        call_ensures(RegisterOp::apply, (&trigger, current), new_trigger),
        other < 32,
    ensures
        ({
            let bit = (int_id % 32) as u32;
            let pair = (int_id % 16) as u32;
            &&& 8 * (group.target() - distributor.base_address - 0x80) == int_id - bit
            &&& (new_group >> bit) & 1 == 1
            &&& other != bit ==> (new_group >> other) & 1 == (current >> other) & 1
            &&& 4 * (trigger.target() - distributor.base_address - 0xC00) == int_id - pair
            &&& (new_trigger >> ((2 * pair) as u32)) & 3 == if level {
                0u32
            } else {
                2u32
            }
            &&& other < 16 && other != pair ==> (new_trigger >> ((2 * other) as u32)) & 3 == (current
                >> ((2 * other) as u32)) & 3
        }),
{
    lemma_replaced(current, 0, (int_id % 32) as u32, other);
    lemma_replaced(
        current,
        if level {
            0
        } else {
            2
        },
        (int_id % 16) as u32,
        (other % 16) as u32,
    );
}

/// An interrupt is enabled by making it a Group 1 interrupt of priority zero with the trigger mode, in
/// this order, and enabling it last.
pub proof fn interrupt_is_enabled_last(
    distributor: &GicDistributor,
    int_id: u32,
    level: bool,
    ops: Vec<RegisterOp>,
    group: RegisterOp,
    priority: RegisterOp,
    trigger: RegisterOp,
    enable: RegisterOp,
)
    requires
        distributor.reaches(int_id),
        call_ensures(enable_interrupt, (distributor, int_id, level), ops),
        call_ensures(
            GicDistributor::set_group,
            (distributor, int_id, GicGroup::NonSecureGroup1),
            group,
        ),
        call_ensures(GicDistributor::set_priority, (distributor, int_id, 0u8), priority),
        call_ensures(GicDistributor::set_trigger_mode, (distributor, int_id, level), trigger),
        call_ensures(GicDistributor::set_enable, (distributor, int_id, true), enable),
    ensures
        ops@ == seq![group, priority, trigger, enable],
{
    assert(ops@ =~= seq![group, priority, trigger, enable]);
}

/// The interrupts of the virtual interrupt controller are those of the maintenance, 25, which is a level,
/// and of the prod, 11, which is an edge. The Hypervisor Interface is turned on first.
pub proof fn virtual_interrupt_controller_is_set_up(
    gich: &GicHypervisorInterface,
    distributor: &GicDistributor,
    ops: Vec<RegisterOp>,
    on: RegisterOp,
    maintenance: Vec<RegisterOp>,
    prod: Vec<RegisterOp>,
)
    requires
        distributor.reaches(25),
        call_ensures(init_vgic, (gich, distributor), ops),
        call_ensures(GicHypervisorInterface::init, (gich,), on),
        call_ensures(enable_interrupt, (distributor, 25u32, true), maintenance),
        call_ensures(enable_interrupt, (distributor, 11u32, false), prod),
    ensures
        on == (RegisterOp::Write { address: gich.base_address, value: 1 }),
        ops@ == seq![on] + maintenance@ + prod@,
{
}

/// The interrupt of a device is a Group 1 interrupt of priority zero for the given CPU. It is a level, it
/// is not pending any more, and it is enabled last. A UART without an interrupt has none enabled.
pub proof fn device_interrupt_is_routed(
    uart: &Pl011,
    distributor: &GicDistributor,
    int_id: u32,
    cpu: u8,
    net: Vec<RegisterOp>,
    serial: Option<(Vec<RegisterOp>, Vec<IoOp>)>,
    uart_ops: Vec<IoOp>,
    group: RegisterOp,
    priority: RegisterOp,
    target: RegisterOp,
    trigger: RegisterOp,
    pending: RegisterOp,
    enable: RegisterOp,
)
    requires
        uart.wf(),
        distributor.reaches(int_id),
        call_ensures(enable_net_interrupt, (int_id, distributor, cpu), net),
        call_ensures(enable_serial_port_interrupt, (uart, int_id, distributor, cpu), serial),
        call_ensures(Pl011::enable_interrupt, (uart,), uart_ops),
        call_ensures(
            GicDistributor::set_group,
            (distributor, int_id, GicGroup::NonSecureGroup1),
            group,
        ),
        call_ensures(GicDistributor::set_priority, (distributor, int_id, 0u8), priority),
        call_ensures(GicDistributor::set_target, (distributor, int_id, cpu), target),
        call_ensures(GicDistributor::set_trigger_mode, (distributor, int_id, true), trigger),
        call_ensures(GicDistributor::set_pending, (distributor, int_id, false), pending),
        call_ensures(GicDistributor::set_enable, (distributor, int_id, true), enable),
    ensures
        net@ == seq![group, priority, target, trigger, pending, enable],
        serial is None <==> int_id == 0,
        serial matches Some((route, accesses)) ==> route@ == net@ && accesses@ == uart_ops@,
{
    assert(net@ =~= seq![group, priority, target, trigger, pending, enable]);
}

/// What is read back of an interrupt is in the registers that its settings are written to, and in the same
/// bits.
pub proof fn interrupt_settings_are_read_back(
    distributor: &GicDistributor,
    int_id: u32,
    addresses: [usize; 5],
    registers: &[u32; 5],
    config: SpiConfig,
    group: RegisterOp,
    enable: RegisterOp,
    target: RegisterOp,
    priority: RegisterOp,
    trigger: RegisterOp,
    byte: u8,
    level: bool,
)
    requires
        distributor.reaches(int_id),
        call_ensures(GicDistributor::spi_config_registers, (distributor, int_id), addresses),
        call_ensures(GicDistributor::dump_spi_config, (distributor, int_id, registers), config),
        call_ensures(
            GicDistributor::set_group,
            (distributor, int_id, GicGroup::NonSecureGroup1),
            group,
        ),
        call_ensures(GicDistributor::set_enable, (distributor, int_id, true), enable),
        call_ensures(GicDistributor::set_target, (distributor, int_id, byte), target),
        call_ensures(GicDistributor::set_priority, (distributor, int_id, byte), priority),
        call_ensures(GicDistributor::set_trigger_mode, (distributor, int_id, level), trigger),
        call_ensures(RegisterOp::apply, (&group, 0u32), registers[0]),
        call_ensures(RegisterOp::apply, (&enable, 0u32), registers[1]),
        call_ensures(RegisterOp::apply, (&target, 0u32), registers[2]),
        call_ensures(RegisterOp::apply, (&priority, 0u32), registers[3]),
        call_ensures(RegisterOp::apply, (&trigger, 0u32), registers[4]),
    ensures
        addresses[0] == group.target(),
        addresses[1] == enable.target(),
        addresses[2] == target.target(),
        addresses[3] == priority.target(),
        addresses[4] == trigger.target(),
        config.group == 1,
        config.enable == 1,
        config.target == byte,
        config.priority == byte,
        config.configuration == if level {
            0u32
        } else {
            2u32
        },
{
    lemma_replaced(0, 0, (int_id % 32) as u32, 0);
    lemma_replaced(0, byte as u32, (int_id % 4) as u32, 0);
    lemma_replaced(
        0,
        if level {
            0
        } else {
            2
        },
        (int_id % 16) as u32,
        0,
    );
}

/// A prod of other CPUs is written to the register at 0xF00: the number of the interrupt in the lowest four
/// bits, and the CPUs in bits 16 to 23.
pub proof fn prod_names_its_cpus(base_address: usize, target: u8, sgi_id: u32, op: RegisterOp)
    requires
        base_address + 0xF00 <= usize::MAX,
        call_ensures(send_sgi, (base_address, target, sgi_id), op),
    ensures
        op matches RegisterOp::Write { address, value } && address == base_address + 0xF00 && value
            % 16 == sgi_id % 16 && value / 0x1_0000 % 256 == target && value / 0x100_0000 == 0
            && value / 16 % 0x1000 == 0,
{
    lemma_prod(target, sgi_id);
}

/// An interrupt that was acknowledged is ended under its own number: at 0x10 its priority is dropped, at
/// 0x1000 it is deactivated.
pub proof fn acknowledged_interrupt_is_ended(
    interface: &GicCpuInterface,
    iar: u32,
    acknowledged: (u32, GicGroup),
    dropped: RegisterOp,
    deactivated: RegisterOp,
    set_up: [RegisterOp; 3],
)
    requires
        interface.base_address + 0x1000 <= usize::MAX,
        call_ensures(GicCpuInterface::get_acknowledge, (iar,), acknowledged),
        call_ensures(
            GicCpuInterface::drop_priority,
            (interface, acknowledged.0, acknowledged.1),
            dropped,
        ),
        call_ensures(GicCpuInterface::deactivate, (interface, acknowledged.0), deactivated),
        call_ensures(GicCpuInterface::init, (interface,), set_up),
    ensures
        acknowledged.0 == iar as int % 1024,
        dropped == (RegisterOp::Write {
            address: (interface.base_address + 0x10) as usize,
            value: (iar as int % 1024) as u32,
        }),
        deactivated == (RegisterOp::Write {
            address: (interface.base_address + 0x1000) as usize,
            value: (iar as int % 1024) as u32,
        }),
        set_up@ == seq![
            RegisterOp::Write { address: (interface.base_address + 4) as usize, value: 0xFF },
            RegisterOp::Write { address: (interface.base_address + 8) as usize, value: 3 },
            RegisterOp::Write { address: interface.base_address, value: 0x207 },
        ],
{
    lemma_list_register(iar);
    assert(set_up@ =~= seq![
        RegisterOp::Write { address: (interface.base_address + 4) as usize, value: 0xFF },
        RegisterOp::Write { address: (interface.base_address + 8) as usize, value: 3 },
        RegisterOp::Write { address: interface.base_address, value: 0x207 },
    ]);
}

/// The interfaces of the interrupt controller are where the devicetree says, where they have a page of
/// registers. The Distributor has both groups on.
pub proof fn interrupt_controller_is_found(
    base_address: usize,
    size: usize,
    distributor: Result<GicDistributor, ()>,
    interface: Result<GicCpuInterface, ()>,
    hypervisor: Result<GicHypervisorInterface, ()>,
    op: RegisterOp,
    itargetsr0: u32,
    own: u8,
)
    requires
        base_address + 0x2000 <= usize::MAX,
        call_ensures(GicDistributor::new, (base_address, size), distributor),
        call_ensures(init_gic_cpu_interface, (base_address, size), interface),
        call_ensures(init_gic_hypervisor_interface, (base_address, size), hypervisor),
        distributor is Ok ==> call_ensures(GicDistributor::init, (&distributor->Ok_0,), op),
        call_ensures(get_current_cpu_target, (itargetsr0,), own),
    ensures
        distributor is Ok <==> size >= 0x1000,
        interface is Ok <==> size >= 0x1000,
        hypervisor is Ok <==> size >= 0x1000,
        distributor matches Ok(d) ==> d.base_address == base_address && op == (RegisterOp::Write {
            address: base_address,
            value: 3,
        }),
        interface matches Ok(i) ==> i.base_address == base_address,
        hypervisor matches Ok(i) ==> i.base_address == base_address,
        own == itargetsr0 as int % 256,
{
}

/// There is one List Register more than the lowest six bits of the type register say, and they follow each
/// other from 0x100 on.
pub proof fn list_registers_follow_each_other(
    base_address: usize,
    vtr: u32,
    index: usize,
    entry: u32,
    count: usize,
    address: usize,
    next: usize,
    op: RegisterOp,
)
    requires
        base_address + 0x1000 <= usize::MAX,
        index < 64,
        call_ensures(get_gich_vtr_list_regs, (vtr,), count),
        call_ensures(get_gich_lr, (base_address, index), address),
        call_ensures(get_gich_lr, (base_address, (index + 1) as usize), next),
        call_ensures(set_gich_lr, (base_address, index, entry), op),
    ensures
        count == vtr as int % 64 + 1,
        address == base_address + 0x100 + 4 * index,
        next == address + 4,
        op == (RegisterOp::Write { address, value: entry }),
{
}

/// The interrupt of the virtual timer is the third one of its node, where that is a private one. It is
/// enabled as a level.
pub proof fn timer_interrupt_is_the_third(
    interrupts: &[u32],
    int_id: Option<u32>,
    distributor: &GicDistributor,
    ops: Vec<RegisterOp>,
    enabled: Vec<RegisterOp>,
)
    requires
        interrupts@.len() >= 8,
        interrupts@[6] == 1 ==> interrupts@[7] <= u32::MAX - 16,
        call_ensures(init_generic_timer_global, (interrupts,), int_id),
        int_id matches Some(id) ==> distributor.reaches(id) && call_ensures(
            init_generic_timer_local,
            (distributor, id),
            ops,
        ) && call_ensures(enable_interrupt, (distributor, id, true), enabled),
    ensures
        int_id is Some <==> interrupts@[6] == 1,
        int_id matches Some(id) ==> id == 16 + interrupts@[7] && ops@ == enabled@,
{
}

/// The interrupt of a device is 32 more than its node says, where it is a shared one; for a UART, also
/// where it is a level. A UART with too few registers is refused.
pub proof fn device_interrupt_is_shared(
    node: Option<Option<(u64, u64)>>,
    interrupts: &[u32],
    net: Option<u32>,
    uart: Result<(Pl011, u32), usize>,
)
    requires
        interrupts@.len() >= 3,
        interrupts@[1] <= u32::MAX - 32,
        call_ensures(net_interrupt, (interrupts,), net),
        call_ensures(init_serial_port, (node, interrupts), uart),
    ensures
        net is Some <==> interrupts@[0] == 0,
        net matches Some(id) ==> id == interrupts@[1] + 32,
        node is None ==> uart == Err::<(Pl011, u32), usize>(5),
        node == Some(None::<(u64, u64)>) ==> uart == Err::<(Pl011, u32), usize>(6),
        node matches Some(Some((base_address, range))) ==> {
            &&& range < 0x46 ==> uart == Err::<(Pl011, u32), usize>(7)
            &&& range >= 0x46 ==> (uart matches Ok((pl011, id)) && pl011.base_address == base_address
                && id == if interrupts@[0] == 0 && interrupts@[2] == 4 {
                interrupts@[1] + 32
            } else {
                0
            })
        },
{
}

/// The registers of the UART are at their places, and bit 5 of the flags says that nothing can be put out,
/// bit 4 that nothing can be taken.
pub proof fn uart_flags_are_read(
    uart: &Pl011,
    flags: u16,
    flag_address: u64,
    data_address: u64,
    full: bool,
    empty: bool,
    clear: IoOp,
    ops: Vec<IoOp>,
)
    requires
        uart.wf(),
        call_ensures(Pl011::flag_address, (uart,), flag_address),
        call_ensures(Pl011::data_address, (uart,), data_address),
        call_ensures(Pl011::is_tx_fifo_full, (flags,), full),
        call_ensures(Pl011::is_rx_fifo_empty, (flags,), empty),
        call_ensures(Pl011::clear_rx_interrupt, (uart,), clear),
        call_ensures(Pl011::enable_interrupt, (uart,), ops),
    ensures
        flag_address == uart.base_address + 0x18,
        data_address == uart.base_address,
        full <==> flags as int / 32 % 2 == 1,
        empty <==> flags as int / 16 % 2 == 1,
        clear == (IoOp::Write16 { address: (uart.base_address + 0x44) as u64, value: 0x50 }),
        ops@ == seq![
            IoOp::Modify16 { address: (uart.base_address + 0x30) as u64, clear: 0, set: 0x301 },
            IoOp::Modify16 { address: (uart.base_address + 0x34) as u64, clear: 0x38, set: 0 },
            clear,
            IoOp::Modify16 { address: (uart.base_address + 0x38) as u64, clear: 0, set: 0x50 },
        ],
{
    assert(ops@ =~= seq![
        IoOp::Modify16 { address: (uart.base_address + 0x30) as u64, clear: 0, set: 0x301 },
        IoOp::Modify16 { address: (uart.base_address + 0x34) as u64, clear: 0x38, set: 0 },
        clear,
        IoOp::Modify16 { address: (uart.base_address + 0x38) as u64, clear: 0, set: 0x50 },
    ]);
}

/// The cost of output adds up: one more character, and the ticks between the two counter values.
pub proof fn output_costs_add_up(counters: &mut PutcCounters, start: u64, end: u64)
    requires
        start <= end,
        old(counters).count < u64::MAX,
        old(counters).cycles + (end - start) <= u64::MAX,
        call_ensures(PutcCounters::record, (counters, start, end), ()),
    ensures
        final(counters).count == old(counters).count + 1,
        final(counters).cycles == old(counters).cycles + (end - start),
{
}

/// A deadline is the first tick at which the microseconds have passed. A counter without a frequency ticks
/// once per microsecond.
pub proof fn deadline_is_the_first_tick(
    timeout_us: u64,
    frequency: u64,
    now: u64,
    at: u64,
)
    requires
        timeout_us * frequency <= u64::MAX,
        call_ensures(deadline, (timeout_us, frequency, now), at),
        now + timeout_us + timeout_us * frequency < u64::MAX,
    ensures
        at >= now,
        frequency == 0 ==> at - now == timeout_us,
        frequency != 0 ==> (at - now) * 1_000_000 >= timeout_us * frequency,
        frequency != 0 && at > now ==> (at - now - 1) * 1_000_000 < timeout_us * frequency,
{
}

/// A deadline has passed from its tick on, as far as half a turn of the counter, and not before.
pub proof fn deadline_passes_at_its_tick(at: u64, now: u64, passed: bool)
    requires
        call_ensures(deadline_passed, (at, now), passed),
    ensures
        at <= now && now - at < 0x8000_0000_0000_0000 ==> passed,
        now < at && at - now <= 0x8000_0000_0000_0000 ==> !passed,
{
}

/// Putting out one text and then another is putting out both together.
proof fn lemma_put_out(first: Seq<u8>, second: Seq<u8>)
    ensures
        crate::serial::with_carriage_returns(first + second)
            == crate::serial::with_carriage_returns(first) + crate::serial::with_carriage_returns(
            second,
        ),
    decreases second.len(),
{
    let both = first + second;
    if second.len() == 0 {
        assert(both =~= first);
        assert(crate::serial::with_carriage_returns(first) + Seq::<u8>::empty()
            =~= crate::serial::with_carriage_returns(first));
    } else {
        assert(both.drop_last() =~= first + second.drop_last());
        assert(both.last() == second.last());
        lemma_put_out(first, second.drop_last());
        assert(crate::serial::with_carriage_returns(both) =~= crate::serial::with_carriage_returns(
            first,
        ) + crate::serial::with_carriage_returns(second));
    }
}

/// A text is put out character by character: a line feed with a carriage return in front of it, anything
/// else as it is. Without a port nothing is put out.
pub proof fn text_is_put_out_in_order(
    serial: &Serial,
    first: &[u8],
    second: &[u8],
    both: &[u8],
    put_first: Result<Vec<u8>, ()>,
    put_second: Result<Vec<u8>, ()>,
    put_both: Result<Vec<u8>, ()>,
)
    requires
        both@ == first@ + second@,
        call_ensures(Serial::write_str, (serial, first), put_first),
        call_ensures(Serial::write_str, (serial, second), put_second),
        call_ensures(Serial::write_str, (serial, both), put_both),
    ensures
        put_both is Ok <==> serial.connected,
        put_both matches Ok(bytes) ==> {
            &&& bytes@ == (put_first->Ok_0)@ + (put_second->Ok_0)@
            &&& first@.len() == 1 && first@[0] == 0x0A ==> (put_first->Ok_0)@ == seq![0x0Du8, 0x0A]
            &&& first@.len() == 1 && first@[0] != 0x0A ==> (put_first->Ok_0)@ == first@
        },
{
    lemma_put_out(first@, second@);
    if first@.len() == 1 {
        reveal_with_fuel(crate::serial::with_carriage_returns, 2);
        assert(first@.drop_last() =~= Seq::empty());
        assert(first@ =~= seq![first@[0]]);
        if serial.connected {
            if first@[0] == 0x0A {
                assert((put_first->Ok_0)@ =~= seq![0x0Du8, 0x0A]);
            } else {
                assert((put_first->Ok_0)@ =~= first@);
            }
        }
    }
}

/// The timer raises interrupt 27 at the CPU that it is handled on, together with the physical interrupt.
pub proof fn timer_raises_its_interrupt(
    distributor: &mut GicDistributorMmio,
    cpu: &mut CpuInterface,
    physical: u32,
    injected: bool,
    other_distributor: &mut GicDistributorMmio,
    other_cpu: &mut CpuInterface,
    other_injected: bool,
)
    requires
        *old(distributor) == *old(other_distributor),
        *old(cpu) == *old(other_cpu),
        call_ensures(generic_timer_interrupt_handler, (distributor, cpu, physical), injected),
        call_ensures(
            GicDistributorMmio::trigger_interrupt_to,
            (other_distributor, other_cpu, 27u32, Some(physical), old(other_cpu).target),
            other_injected,
        ),
    ensures
        injected == other_injected,
        final(distributor)@ == final(other_distributor)@,
        final(cpu)@ == final(other_cpu)@,
{
}

} // verus!
