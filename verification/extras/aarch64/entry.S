/*
 * Where CPUs enter the hypervisor.
 */

.section .text

/* The boot loader jumps here. The stack pointer is taken before anything is put on the stack, so
 * that the whole stack can be reserved. */
.global main
main:
    mov x2, sp
    msr cntvoff_el2, xzr
    b   entry_main

/* A CPU that PSCI has started for a VM of its own, with its stack in x0. */
.global core_entry
core_entry:
    mov sp, x0
    msr cntvoff_el2, xzr
    b   core_main

/* A CPU that PSCI has started for the vCPUs of a guest, with its stack in x0. */
.global smp_park_entry
smp_park_entry:
    mov sp, x0
    msr cntvoff_el2, xzr
    b   smp_park_main

/* A CPU whose vCPU has retired. Its stack starts over, so that none of it is lost. */
.global reset_stack_and_park
reset_stack_and_park:
    mov sp, x0
    b   smp_park_main

/* A CPU that has left the spin table. No register holds anything, so its stack and where it goes
 * are in memory. */
.global spin_table_entry
spin_table_entry:
    adrp x0, SPIN_TABLE_SP
    add  x0, x0, :lo12:SPIN_TABLE_SP
    ldr  x0, [x0]
    mov  sp, x0
    adrp x1, SPIN_TABLE_TARGET
    add  x1, x1, :lo12:SPIN_TABLE_TARGET
    ldr  x1, [x1]
    br   x1
