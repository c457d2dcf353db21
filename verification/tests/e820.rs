use core::mem::size_of;
use td_shim::e820::{efi_memory_map, E820Entry, E820Type, EfiMemoryType, MemoryDescriptor};

const MAX_E820_ENTRY: usize = 128;

#[test]
fn test_e820_entry_size() {
    assert_eq!(size_of::<E820Entry>(), 20);
    assert_eq!(
        size_of::<[E820Entry; MAX_E820_ENTRY]>(),
        20 * MAX_E820_ENTRY
    );
}

#[test]
fn e820_type_from_known_codes() {
    assert_eq!(E820Type::from(1u32), E820Type::Memory);
    assert_eq!(E820Type::from(2u32), E820Type::Reserved);
    assert_eq!(E820Type::from(3u32), E820Type::Acpi);
    assert_eq!(E820Type::from(4u32), E820Type::Nvs);
    assert_eq!(E820Type::from(5u32), E820Type::Unusable);
    assert_eq!(E820Type::from(6u32), E820Type::Disabled);
    assert_eq!(E820Type::from(7u32), E820Type::Pmem);
    assert_eq!(E820Type::from(8u32), E820Type::Unaccepted);
}

#[test]
fn e820_type_from_unknown_codes() {
    assert_eq!(E820Type::from(0u32), E820Type::Unknown);
    assert_eq!(E820Type::from(9u32), E820Type::Unknown);
    assert_eq!(E820Type::from(0xffu32), E820Type::Unknown);
    assert_eq!(E820Type::from(u32::MAX), E820Type::Unknown);
}

#[test]
fn e820_type_code_roundtrip() {
    let all = [
        E820Type::Memory,
        E820Type::Reserved,
        E820Type::Acpi,
        E820Type::Nvs,
        E820Type::Unusable,
        E820Type::Disabled,
        E820Type::Pmem,
        E820Type::Unaccepted,
        E820Type::Unknown,
    ];
    for t in all {
        assert_eq!(E820Type::from(t.e820_code()), t);
    }
    assert_eq!(E820Type::Unknown.e820_code(), 0xff);
    assert_eq!(E820Type::Unaccepted.e820_code(), 8);
}

#[test]
fn e820_type_to_efi_memory_type() {
    let efi = |t: E820Type| -> EfiMemoryType { t.into() };
    assert_eq!(efi(E820Type::Memory), 7);
    assert_eq!(efi(E820Type::Reserved), 0);
    assert_eq!(efi(E820Type::Acpi), 9);
    assert_eq!(efi(E820Type::Nvs), 10);
    assert_eq!(efi(E820Type::Unusable), 8);
    assert_eq!(efi(E820Type::Disabled), 8);
    assert_eq!(efi(E820Type::Pmem), 14);
    assert_eq!(efi(E820Type::Unaccepted), 8);
    assert_eq!(efi(E820Type::Unknown), 8);
}

#[test]
fn e820_entry_new_fields() {
    let e = E820Entry::new(0x1234_5678_9abc_def0, 0x10_0000, E820Type::Acpi);
    assert_eq!(e.addr(), 0x1234_5678_9abc_def0);
    assert_eq!(e.size(), 0x10_0000);
    assert_eq!(e.memory_type(), 3);
}

#[test]
fn e820_entry_packed_little_endian_layout() {
    let e = E820Entry::new(0x0102_0304_0506_0708, 0x1112_1314_1516_1718, E820Type::Unaccepted);
    let b = e.to_bytes();
    assert_eq!(
        b,
        [
            0x08, 0x07, 0x06, 0x05, 0x04, 0x03, 0x02, 0x01, 0x18, 0x17, 0x16, 0x15, 0x14, 0x13,
            0x12, 0x11, 8, 0, 0, 0
        ]
    );
    let back = E820Entry::from_bytes(b);
    assert_eq!(back, e);
    assert_eq!(back.to_bytes(), b);
}

#[test]
fn e820_entry_from_bytes_fields() {
    let mut b = [0u8; 20];
    b[0] = 0x00;
    b[1] = 0x10;
    b[8] = 0x00;
    b[9] = 0x20;
    b[16] = 0x02;
    let e = E820Entry::from_bytes(b);
    assert_eq!(e.addr(), 0x1000);
    assert_eq!(e.size(), 0x2000);
    assert_eq!(e.memory_type(), 2);
}

#[test]
fn e820_entry_default_is_zero() {
    let e = E820Entry::default();
    assert_eq!(e.addr(), 0);
    assert_eq!(e.size(), 0);
    assert_eq!(e.memory_type(), 0);
    assert_eq!(e.to_bytes(), [0u8; 20]);
}

#[test]
fn e820_entry_equality_by_fields() {
    let a = E820Entry::new(0x1000, 0x2000, E820Type::Memory);
    let b = E820Entry::from_fields(0x1000, 0x2000, 1);
    let c = E820Entry::new(0x1000, 0x2000, E820Type::Reserved);
    assert!(a == b);
    assert!(a != c);
}

#[test]
fn e820_entry_to_memory_descriptor() {
    let e = E820Entry::new(0x10_0000, 0x7fff_f123, E820Type::Memory);
    let d: MemoryDescriptor = e.into();
    assert_eq!(d.memory_type, 7);
    assert_eq!(d.physical_start, 0x10_0000);
    assert_eq!(d.virtual_start, 0x10_0000);
    assert_eq!(d.number_of_pages, 0x7ffff);
    assert_eq!(d.attribute, 0);
}

#[test]
fn e820_entry_unknown_code_to_memory_descriptor() {
    let e = E820Entry::from_fields(0xfee0_0000, 0xfff, 42);
    let d: MemoryDescriptor = e.into();
    assert_eq!(d.memory_type, 8);
    assert_eq!(d.number_of_pages, 0);
}

#[test]
fn efi_memory_map_reports_each_entry_in_order() {
    let table = [
        E820Entry::new(0, 0xa0000, E820Type::Memory),
        E820Entry::new(0xa0000, 0x60000, E820Type::Reserved),
        E820Entry::new(0x10_0000, 0x4000, E820Type::Nvs),
        E820Entry::new(0x20_0000, 0x8000, E820Type::Unaccepted),
    ];
    let map = efi_memory_map(&table);
    assert_eq!(map.len(), 4);
    let types: Vec<u32> = map.iter().map(|d| d.memory_type).collect();
    assert_eq!(types, vec![7, 0, 10, 8]);
    let pages: Vec<u64> = map.iter().map(|d| d.number_of_pages).collect();
    assert_eq!(pages, vec![0xa0, 0x60, 4, 8]);
    assert_eq!(map[2].physical_start, 0x10_0000);
    assert_eq!(map[3].virtual_start, 0x20_0000);
}

#[test]
fn efi_memory_map_of_empty_table() {
    let map = efi_memory_map(&[]);
    assert!(map.is_empty());
}
