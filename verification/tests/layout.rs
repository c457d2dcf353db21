use td_shim::boot::{
    boots_linux_kernel, payload_calling_convention, payload_heap_region, payload_stack_top,
    CallingConvention, ExecutablePayloadType, KernelImageType,
};
use td_shim::layout::{
    TD_SHIM_CONFIG_OFFSET,
    TD_SHIM_CONFIG_SIZE,
    TD_SHIM_CONFIG_BASE,
    TD_SHIM_MAILBOX_OFFSET,
    TD_SHIM_MAILBOX_SIZE,
    TD_SHIM_MAILBOX_BASE,
    TD_SHIM_TEMP_STACK_OFFSET,
    TD_SHIM_TEMP_STACK_SIZE,
    TD_SHIM_TEMP_STACK_BASE,
    TD_SHIM_TEMP_HEAP_OFFSET,
    TD_SHIM_TEMP_HEAP_SIZE,
    TD_SHIM_TEMP_HEAP_BASE,
    TD_SHIM_FREE_OFFSET,
    TD_SHIM_FREE_SIZE,
    TD_SHIM_FREE_BASE,
    TD_SHIM_BUILTIN_PAYLOAD_OFFSET,
    TD_SHIM_BUILTIN_PAYLOAD_SIZE,
    TD_SHIM_BUILTIN_PAYLOAD_BASE,
    TD_SHIM_METADATA_OFFSET,
    TD_SHIM_METADATA_SIZE,
    TD_SHIM_METADATA_BASE,
    TD_SHIM_BOOTLOADER_OFFSET,
    TD_SHIM_BOOTLOADER_SIZE,
    TD_SHIM_BOOTLOADER_BASE,
    TD_SHIM_RESET_VECTOR_OFFSET,
    TD_SHIM_RESET_VECTOR_SIZE,
    TD_SHIM_RESET_VECTOR_BASE,
    TD_SHIM_IMAGE_SIZE,
    MEMORY_OFFSET,
};

#[test]
fn image_regions_are_contiguous() {
    let regions = [
        (TD_SHIM_CONFIG_OFFSET, TD_SHIM_CONFIG_SIZE, TD_SHIM_CONFIG_BASE),
        (TD_SHIM_MAILBOX_OFFSET, TD_SHIM_MAILBOX_SIZE, TD_SHIM_MAILBOX_BASE),
        (TD_SHIM_TEMP_STACK_OFFSET, TD_SHIM_TEMP_STACK_SIZE, TD_SHIM_TEMP_STACK_BASE),
        (TD_SHIM_TEMP_HEAP_OFFSET, TD_SHIM_TEMP_HEAP_SIZE, TD_SHIM_TEMP_HEAP_BASE),
        (TD_SHIM_FREE_OFFSET, TD_SHIM_FREE_SIZE, TD_SHIM_FREE_BASE),
        (TD_SHIM_BUILTIN_PAYLOAD_OFFSET, TD_SHIM_BUILTIN_PAYLOAD_SIZE, TD_SHIM_BUILTIN_PAYLOAD_BASE),
        (TD_SHIM_METADATA_OFFSET, TD_SHIM_METADATA_SIZE, TD_SHIM_METADATA_BASE),
        (TD_SHIM_BOOTLOADER_OFFSET, TD_SHIM_BOOTLOADER_SIZE, TD_SHIM_BOOTLOADER_BASE),
        (TD_SHIM_RESET_VECTOR_OFFSET, TD_SHIM_RESET_VECTOR_SIZE, TD_SHIM_RESET_VECTOR_BASE),
    ];
    let mut next = 0u32;
    for (offset, size, base) in regions {
        assert_eq!(offset, next);
        assert_eq!(base, MEMORY_OFFSET + offset);
        assert_eq!(size % 0x1000, 0);
        next = offset + size;
    }
    assert_eq!(next, TD_SHIM_IMAGE_SIZE);
    assert_eq!(MEMORY_OFFSET as u64 + TD_SHIM_IMAGE_SIZE as u64, 0x1_0000_0000);
}

#[test]
fn payload_heap_is_half_of_the_region() {
    assert_eq!(payload_heap_region(0, 0x200_0000), (0x100_0000, 0x100_0000));
    assert_eq!(payload_heap_region(0x400_0000, 0x200_0000), (0x500_0000, 0x100_0000));
    assert_eq!(payload_heap_region(0x1001, 0x2001), (0x2001, 0x1000));
    let (start, size) = payload_heap_region(0x400_0000, 0x200_0000);
    assert!(start >= 0x400_0000 + 0x200_0000 / 2);
    assert!(start + size <= 0x400_0000 + 0x200_0000);
}

#[test]
fn payload_stack_top_is_base_plus_size() {
    assert_eq!(payload_stack_top(0x7f00_0000, 0x2_0000), 0x7f02_0000);
}

#[test]
fn kernel_image_types_booted_as_linux() {
    assert!(boots_linux_kernel(KernelImageType::BzImage));
    assert!(boots_linux_kernel(KernelImageType::RawVmLinux));
    assert!(!boots_linux_kernel(KernelImageType::ExecutablePayload));
}

#[test]
fn payload_calling_conventions() {
    assert_eq!(payload_calling_convention(ExecutablePayloadType::Elf), CallingConvention::SysV);
    assert_eq!(payload_calling_convention(ExecutablePayloadType::PeCoff), CallingConvention::Win64);
}
