//! The decisions of the boot paths: which kernel images are booted as a
//! Linux kernel, how a payload's entry point is called, and where the
//! payload's stack and page-frame heap lie.

use vstd::prelude::*;

verus! {

/// The type of kernel image that the VMM describes.
#[derive(Clone, Copy, Debug, PartialEq, Eq, Structural)]
pub enum KernelImageType {
    ExecutablePayload,
    BzImage,
    RawVmLinux,
    /// Any other type.
    Unknown,
}

/// Whether a kernel image of type `t` is booted as a Linux kernel; an
/// executable payload is not (it is booted on another path).
pub fn boots_linux_kernel(t: KernelImageType) -> (r: bool)
    requires
        t != KernelImageType::Unknown,
    ensures
        r <==> (t == KernelImageType::BzImage || t == KernelImageType::RawVmLinux),
{
    match t {
        KernelImageType::ExecutablePayload => false,
        KernelImageType::BzImage | KernelImageType::RawVmLinux => true,
        KernelImageType::Unknown => false,
    }
}

/// The format of an executable payload.
#[derive(Clone, Copy, Debug, PartialEq, Eq, Structural)]
pub enum ExecutablePayloadType {
    Elf,
    PeCoff,
}

/// The calling convention of a payload's entry point.
#[derive(Clone, Copy, Debug, PartialEq, Eq, Structural)]
pub enum CallingConvention {
    SysV,
    Win64,
}

/// The calling convention of the entry point of a payload of format `t`: the
/// System V convention for ELF, the Microsoft x64 convention for PE/COFF.
pub fn payload_calling_convention(t: ExecutablePayloadType) -> (r: CallingConvention)
    ensures
        t == ExecutablePayloadType::Elf ==> r == CallingConvention::SysV,
        t == ExecutablePayloadType::PeCoff ==> r == CallingConvention::Win64,
{
    match t {
        ExecutablePayloadType::Elf => CallingConvention::SysV,
        ExecutablePayloadType::PeCoff => CallingConvention::Win64,
    }
}

/// The heap given to the payload's page-frame allocator: the second half of
/// the payload region (the first half holds the raw payload binary). It
/// starts half-way into the region and ends at or before the region's end.
pub fn payload_heap_region(payload_base: usize, payload_size: usize) -> (r: (usize, usize))
    requires
        payload_base + payload_size / 2 <= usize::MAX,
    ensures
        r.0 == payload_base + payload_size / 2,
        r.1 == payload_size / 2,
        r.0 + r.1 <= payload_base + payload_size,
{
    let half = payload_size / 2;
    (payload_base + half, half)
}

/// The top of the payload's stack: its base plus its size.
pub fn payload_stack_top(stack_base: u64, stack_size: u32) -> (r: u64)
    requires
        stack_base + stack_size <= u64::MAX,
    ensures
        r == stack_base + stack_size,
{
    stack_base + stack_size as u64
}

} // verus!
