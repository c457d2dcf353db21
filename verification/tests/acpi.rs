use td_shim::acpi::{check_acpi_tables, take_vmm_madt, AcpiTableError, SDT_HEADER_SIZE};

fn table(signature: &[u8; 4], length: u32, total: usize) -> Vec<u8> {
    let mut t = vec![0u8; total];
    t[..4].copy_from_slice(signature);
    t[4..8].copy_from_slice(&length.to_le_bytes());
    t
}

#[test]
fn madt_is_taken_out_and_returned() {
    let facp = table(b"FACP", 40, 40);
    let apic = table(b"APIC", 44, 44);
    let dsdt = table(b"DSDT", 36, 36);
    let mut tables: Vec<&[u8]> = vec![&facp, &apic, &dsdt];
    assert_eq!(check_acpi_tables(&tables), Ok(()));
    let madt = take_vmm_madt(&mut tables);
    assert_eq!(madt, Some(&apic[..]));
    assert_eq!(tables, vec![&facp[..], &dsdt[..]]);
}

#[test]
fn no_madt_leaves_tables_unchanged() {
    let facp = table(b"FACP", 36, 36);
    let ssdt = table(b"SSDT", 50, 64);
    let mut tables: Vec<&[u8]> = vec![&facp, &ssdt];
    assert_eq!(take_vmm_madt(&mut tables), None);
    assert_eq!(tables, vec![&facp[..], &ssdt[..]]);
}

#[test]
fn table_after_a_taken_madt_is_passed_over() {
    let a1 = table(b"APIC", 36, 36);
    let mut a2 = table(b"APIC", 40, 40);
    a2[36] = 1;
    let facp = table(b"FACP", 36, 36);
    let a3 = table(b"APIC", 48, 48);
    let mut tables: Vec<&[u8]> = vec![&a1, &a2, &facp, &a3];
    let madt = take_vmm_madt(&mut tables);
    assert_eq!(madt, Some(&a3[..]));
    assert_eq!(tables, vec![&a2[..], &facp[..]]);
}

#[test]
fn of_two_adjacent_madts_the_first_is_taken() {
    let a1 = table(b"APIC", 36, 36);
    let mut a2 = table(b"APIC", 40, 40);
    a2[36] = 1;
    let mut tables: Vec<&[u8]> = vec![&a1, &a2];
    assert_eq!(take_vmm_madt(&mut tables), Some(&a1[..]));
    assert_eq!(tables, vec![&a2[..]]);
}

#[test]
fn every_table_is_checked() {
    let apic = table(b"APIC", 36, 36);
    let short = vec![0u8; 10];
    let tables: Vec<&[u8]> = vec![&apic, &short];
    assert_eq!(check_acpi_tables(&tables), Err(AcpiTableError::InvalidTableHob));
}

#[test]
fn table_shorter_than_header_is_rejected() {
    let short = vec![0u8; SDT_HEADER_SIZE - 1];
    let tables: Vec<&[u8]> = vec![&short];
    assert_eq!(check_acpi_tables(&tables), Err(AcpiTableError::InvalidTableHob));
}

#[test]
fn table_shorter_than_its_length_is_rejected() {
    let facp = table(b"FACP", 36, 36);
    let bad = table(b"SSDT", 100, 64);
    let tables: Vec<&[u8]> = vec![&facp, &bad];
    assert_eq!(check_acpi_tables(&tables), Err(AcpiTableError::InvalidTableLength));
}

#[test]
fn first_failing_table_decides_the_error() {
    let bad_len = table(b"SSDT", 100, 64);
    let short = vec![0u8; 8];
    let tables: Vec<&[u8]> = vec![&bad_len, &short];
    assert_eq!(check_acpi_tables(&tables), Err(AcpiTableError::InvalidTableLength));
}

#[test]
fn empty_list_has_no_madt() {
    let mut tables: Vec<&[u8]> = Vec::new();
    assert_eq!(check_acpi_tables(&tables), Ok(()));
    assert_eq!(take_vmm_madt(&mut tables), None);
    assert!(tables.is_empty());
}

#[test]
fn separated_madts_are_all_taken_out_and_the_last_returned() {
    let facp = table(b"FACP", 36, 36);
    let a1 = table(b"APIC", 36, 36);
    let dsdt = table(b"DSDT", 36, 36);
    let mut a2 = table(b"APIC", 40, 40);
    a2[36] = 2;
    let mut tables: Vec<&[u8]> = vec![&facp, &a1, &dsdt, &a2];
    assert_eq!(take_vmm_madt(&mut tables), Some(&a2[..]));
    assert_eq!(tables, vec![&facp[..], &dsdt[..]]);
}
