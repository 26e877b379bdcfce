/*
 * The exception vectors. Those that are not used stay where they are.
 */

.macro save_registers
    sub sp,   sp, #(8 * 32)
    stp x30, xzr, [sp, #(15 * 16)]
    stp x28, x29, [sp, #(14 * 16)]
    stp x26, x27, [sp, #(13 * 16)]
    stp x24, x25, [sp, #(12 * 16)]
    stp x22, x23, [sp, #(11 * 16)]
    stp x20, x21, [sp, #(10 * 16)]
    stp x18, x19, [sp, #( 9 * 16)]
    stp x16, x17, [sp, #( 8 * 16)]
    stp x14, x15, [sp, #( 7 * 16)]
    stp x12, x13, [sp, #( 6 * 16)]
    stp x10, x11, [sp, #( 5 * 16)]
    stp  x8,  x9, [sp, #( 4 * 16)]
    stp  x6,  x7, [sp, #( 3 * 16)]
    stp  x4,  x5, [sp, #( 2 * 16)]
    stp  x2,  x3, [sp, #( 1 * 16)]
    stp  x0,  x1, [sp, #( 0 * 16)]
    mov  x0, sp
.endm

.macro unused
.balign 0x080
    b   .
.endm

.macro handled by
.balign 0x080
    save_registers
    adr x30, exit_exception
    b   \by
.endm

.section .text
.balign 0x800
.global exception_table
exception_table:

/* Current exception level with SP_EL0 */
    unused
    unused
    unused
    unused

/* Current exception level with SP_ELx */
.balign 0x080
    save_registers
    b   el2_synchronous_handler
    handled irq_handler
    handled fiq_handler
    unused

/* A guest */
    handled synchronous_handler
    handled irq_handler
    handled fiq_handler
    unused

/* A 32-bit guest */
    unused
    unused
    unused
    unused

.balign 0x080
exit_exception:
    ldp x30, xzr, [sp, #(15 * 16)]
    ldp x28, x29, [sp, #(14 * 16)]
    ldp x26, x27, [sp, #(13 * 16)]
    ldp x24, x25, [sp, #(12 * 16)]
    ldp x22, x23, [sp, #(11 * 16)]
    ldp x20, x21, [sp, #(10 * 16)]
    ldp x18, x19, [sp, #( 9 * 16)]
    ldp x16, x17, [sp, #( 8 * 16)]
    ldp x14, x15, [sp, #( 7 * 16)]
    ldp x12, x13, [sp, #( 6 * 16)]
    ldp x10, x11, [sp, #( 5 * 16)]
    ldp  x8,  x9, [sp, #( 4 * 16)]
    ldp  x6,  x7, [sp, #( 3 * 16)]
    ldp  x4,  x5, [sp, #( 2 * 16)]
    ldp  x2,  x3, [sp, #( 1 * 16)]
    ldp  x0,  x1, [sp, #( 0 * 16)]
    add  sp,  sp, #(8 * 32)
    eret
