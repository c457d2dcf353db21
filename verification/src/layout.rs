//! The layout of the firmware image.
//!
//! ```text
//! +----------------------------------------+ <- 0x0
//! |                 CONFIG                 |   (0x40000) 256 KB
//! +----------------------------------------+ <- 0x40000
//! |                MAILBOX                 |   (0x1000) 4 KB
//! +----------------------------------------+ <- 0x41000
//! |               TEMP_STACK               |   (0x20000) 128 KB
//! +----------------------------------------+ <- 0x61000
//! |               TEMP_HEAP                |   (0x20000) 128 KB
//! +----------------------------------------+ <- 0x81000
//! |                  FREE                  |   (0x1000) 4 KB
//! +----------------------------------------+ <- 0x82000
//! |            BUILTIN_PAYLOAD             |   (0xC2D000) 12.18 MB
//! +----------------------------------------+ <- 0xCAF000
//! |                METADATA                |   (0x1000) 4 KB
//! +----------------------------------------+ <- 0xCB0000
//! |               BOOTLOADER               |   (0x348000) 3.28 MB
//! +----------------------------------------+ <- 0xFF8000
//! |              RESET_VECTOR              |   (0x8000) 32 KB
//! +----------------------------------------+ <- 0x1000000
//! Image size: 0x1000000 (16 MB)
//! ```
//!
//! The image is loaded at `MEMORY_OFFSET`, so that it ends at 4 GiB.

use vstd::prelude::*;

verus! {

pub const TD_SHIM_CONFIG_OFFSET: u32 = 0x0;
pub const TD_SHIM_CONFIG_SIZE: u32 = 0x40000;

pub const TD_SHIM_MAILBOX_OFFSET: u32 = 0x40000;
pub const TD_SHIM_MAILBOX_SIZE: u32 = 0x1000;

pub const TD_SHIM_TEMP_STACK_OFFSET: u32 = 0x41000;
pub const TD_SHIM_TEMP_STACK_SIZE: u32 = 0x20000;

pub const TD_SHIM_TEMP_HEAP_OFFSET: u32 = 0x61000;
pub const TD_SHIM_TEMP_HEAP_SIZE: u32 = 0x20000;

pub const TD_SHIM_FREE_OFFSET: u32 = 0x81000;
pub const TD_SHIM_FREE_SIZE: u32 = 0x1000;

pub const TD_SHIM_BUILTIN_PAYLOAD_OFFSET: u32 = 0x82000;
pub const TD_SHIM_BUILTIN_PAYLOAD_SIZE: u32 = 0xC2D000;

pub const TD_SHIM_METADATA_OFFSET: u32 = 0xCAF000;
pub const TD_SHIM_METADATA_SIZE: u32 = 0x1000;

pub const TD_SHIM_BOOTLOADER_OFFSET: u32 = 0xCB0000;
pub const TD_SHIM_BOOTLOADER_SIZE: u32 = 0x348000;

pub const TD_SHIM_RESET_VECTOR_OFFSET: u32 = 0xFF8000;
pub const TD_SHIM_RESET_VECTOR_SIZE: u32 = 0x8000;

/// The size of the whole image.
pub const TD_SHIM_IMAGE_SIZE: u32 = 0x1000000;

/// Offset when loading into memory.
pub const MEMORY_OFFSET: u32 = 0xFF000000;

// Base addresses after the image is loaded into memory.
pub const TD_SHIM_CONFIG_BASE: u32 = 0xFF000000;
pub const TD_SHIM_MAILBOX_BASE: u32 = 0xFF040000;
pub const TD_SHIM_TEMP_STACK_BASE: u32 = 0xFF041000;
pub const TD_SHIM_TEMP_HEAP_BASE: u32 = 0xFF061000;
pub const TD_SHIM_FREE_BASE: u32 = 0xFF081000;
pub const TD_SHIM_BUILTIN_PAYLOAD_BASE: u32 = 0xFF082000;
pub const TD_SHIM_METADATA_BASE: u32 = 0xFFCAF000;
pub const TD_SHIM_BOOTLOADER_BASE: u32 = 0xFFCB0000;
pub const TD_SHIM_RESET_VECTOR_BASE: u32 = 0xFFFF8000;

/// The regions of the image in order, each as (offset, size, base).
pub open spec fn image_regions() -> Seq<(u32, u32, u32)> {
    seq![
        (TD_SHIM_CONFIG_OFFSET, TD_SHIM_CONFIG_SIZE, TD_SHIM_CONFIG_BASE),
        (TD_SHIM_MAILBOX_OFFSET, TD_SHIM_MAILBOX_SIZE, TD_SHIM_MAILBOX_BASE),
        (TD_SHIM_TEMP_STACK_OFFSET, TD_SHIM_TEMP_STACK_SIZE, TD_SHIM_TEMP_STACK_BASE),
        (TD_SHIM_TEMP_HEAP_OFFSET, TD_SHIM_TEMP_HEAP_SIZE, TD_SHIM_TEMP_HEAP_BASE),
        (TD_SHIM_FREE_OFFSET, TD_SHIM_FREE_SIZE, TD_SHIM_FREE_BASE),
        (TD_SHIM_BUILTIN_PAYLOAD_OFFSET, TD_SHIM_BUILTIN_PAYLOAD_SIZE, TD_SHIM_BUILTIN_PAYLOAD_BASE),
        (TD_SHIM_METADATA_OFFSET, TD_SHIM_METADATA_SIZE, TD_SHIM_METADATA_BASE),
        (TD_SHIM_BOOTLOADER_OFFSET, TD_SHIM_BOOTLOADER_SIZE, TD_SHIM_BOOTLOADER_BASE),
        (TD_SHIM_RESET_VECTOR_OFFSET, TD_SHIM_RESET_VECTOR_SIZE, TD_SHIM_RESET_VECTOR_BASE),
    ]
}

/// The regions tile the image: the first starts at offset 0, each starts where
/// the one before it ends, and the last ends at the end of the image; every
/// region is a whole number of 4 KiB pages; every base is the load offset plus
/// the region's offset; and the loaded image ends exactly at 4 GiB.
pub proof fn lemma_image_layout()
    ensures
        image_regions().len() == 9,
        image_regions()[0].0 == 0,
        forall|i: int|
            0 <= i < image_regions().len() - 1 ==> #[trigger] image_regions()[i].0
                + image_regions()[i].1 == image_regions()[i + 1].0,
        image_regions().last().0 + image_regions().last().1 == TD_SHIM_IMAGE_SIZE,
        forall|i: int|
            0 <= i < image_regions().len() ==> #[trigger] image_regions()[i].1 % 0x1000 == 0
                && image_regions()[i].1 > 0,
        forall|i: int|
            0 <= i < image_regions().len() ==> #[trigger] image_regions()[i].2 == MEMORY_OFFSET
                + image_regions()[i].0,
        MEMORY_OFFSET + TD_SHIM_IMAGE_SIZE == 0x1_0000_0000,
{
    let r = image_regions();
    assert forall|i: int| 0 <= i < r.len() - 1 implies #[trigger] r[i].0 + r[i].1 == r[i + 1].0 by {
        assert(0 <= i < 8);
    }
}

} // verus!
