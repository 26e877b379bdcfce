# MiniVisor

A small Type 1 hypervisor for AArch64 (QEMU's `virt` machine and the Raspberry Pi 4), whose logic is
verified with [Verus](https://github.com/verus-lang/verus).

- `src/` is the library `minivisor`: the memory allocator, the Stage 2 translation tables, the
  emulated devices of a guest (GICv2 Distributor, PL011, Virtio-Net, Virtio-Console), the scheduling
  of vCPUs, the console, and the drivers of the physical devices (GICv2, PL011, Virtio-Net, GENET,
  SDHCI, PCIe, xHCI, USB mass storage). It never touches hardware. A driver takes the values of
  registers as arguments, and gives the accesses that are to be made, as `RegisterOp`s and `IoOp`s.
  What every function does is stated in its contract, and what holds of several of them together in
  public proof functions.
- `tests/` runs the library on concrete values.
- `app/` is the hypervisor around the library: it reads the registers, makes the accesses, and holds
  the state that the CPUs share.
- `extras/aarch64/` holds its entry points, exception vectors and system register accesses.

The devicetree, the ELF header, the FAT32 file system and the Virtio-Blk devices come from a support
library of the platform, which is linked in (see `app/platform.rs`).
