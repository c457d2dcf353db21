//! Verified boot-time logic of a TD shim: the E820 memory map and its EFI
//! memory-descriptor form, the firmware image layout, the selection of the
//! VMM-provided ACPI MADT, and the address planning for loading the segments
//! of an ELF payload into a 4 KiB-paged address space.

pub mod acpi;
pub mod boot;
pub mod e820;
pub mod layout;
pub mod segment;
