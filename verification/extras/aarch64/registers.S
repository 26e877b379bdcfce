/*
 * System registers, barriers and cache operations, one function each.
 */

.macro read_register name
.global read_\name
read_\name:
    mrs x0, \name
    ret
.endm

.macro write_register name
.global write_\name
write_\name:
    msr \name, x0
    ret
.endm

.section .text

.irp name, currentel, cntpct_el0, cntfrq_el0, ctr_el0, id_aa64mmfr0_el1, midr_el1, mpidr_el1, \
           vttbr_el2, elr_el2, spsr_el2, esr_el2, far_el2, hpfar_el2, tpidr_el2, daif
    read_register \name
.endr

.irp name, hcr_el2, elr_el2, spsr_el2, vtcr_el2, vttbr_el2, vbar_el2, vmpidr_el2, vpidr_el2, \
           tpidr_el2
    write_register \name
.endr

/* The registers of a guest: one copy for all the guests of a CPU. */
.irp name, sctlr_el1, ttbr0_el1, ttbr1_el1, tcr_el1, mair_el1, amair_el1, vbar_el1, cpacr_el1, \
           contextidr_el1, esr_el1, far_el1, par_el1, afsr0_el1, afsr1_el1, tpidr_el0, tpidr_el1, \
           sp_el0, sp_el1, elr_el1, spsr_el1, cntkctl_el1, cntv_ctl_el0, cntv_cval_el0
    read_register \name
    write_register \name
.endr

.global write_daif
write_daif:
    isb
    msr daif, x0
    isb
    ret

.global dc_cvac
dc_cvac:
    dc  cvac, x0
    ret

.global dc_cvau
dc_cvau:
    dc  cvau, x0
    ret

.global dc_ivac
dc_ivac:
    dc  ivac, x0
    ret

.global ic_ivau
ic_ivau:
    ic  ivau, x0
    ret

.global cpu_dsb_sy
cpu_dsb_sy:
    dsb sy
    ret

.global cpu_dsb_ish
cpu_dsb_ish:
    dsb ish
    ret

.global cpu_isb
cpu_isb:
    isb
    ret

.global cpu_sev
cpu_sev:
    sev
    ret

.global cpu_wfe
cpu_wfe:
    wfe
    ret

.global cpu_flush_tlb_el1
cpu_flush_tlb_el1:
    dsb ishst
    tlbi alle1is
    ret

.global cpu_eret
cpu_eret:
    eret

.global cpu_smc
cpu_smc:
    smc #0
    ret
