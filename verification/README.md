# td_shim

Boot-time logic of a TD shim, verified with Verus.

- `src/e820.rs` — E820 entries (held as their packed 20 bytes), E820 types and
  their codes, conversion to EFI memory descriptors and to an EFI memory map.
- `src/segment.rs` — the address plan for mapping one loadable ELF segment
  into a 4 KiB-paged x86-64 address space: file frames to pages, the `.bss`
  pages, the page to copy and remap, and the bytes to zero.
- `src/acpi.rs` — taking the VMM's MADT out of the ACPI tables it hands over.
- `src/layout.rs` — the firmware image layout and its tiling law.
- `src/boot.rs` — the small decisions of the boot paths.
- `app/` — what stays outside verification: the `#[repr(C)]` layouts handed to
  a payload, the page-table and heap work of loading an ELF payload, and the
  layout-config tool's command line and output.
