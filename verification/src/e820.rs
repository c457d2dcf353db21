//! E820 memory-map entries, their types, and their conversion to EFI memory
//! descriptors.

use vstd::prelude::*;
use vstd::bytes::{
    spec_u32_from_le_bytes, spec_u32_to_le_bytes, spec_u64_from_le_bytes, spec_u64_to_le_bytes,
    u32_from_le_bytes, u32_to_le_bytes, u64_from_le_bytes, u64_to_le_bytes,
    lemma_auto_spec_u32_to_from_le_bytes, lemma_auto_spec_u64_to_from_le_bytes,
};
use vstd::slice::slice_subrange;
use vstd::std_specs::cmp::PartialEqSpec;

verus! {

/// The type of an E820 memory range.
#[derive(Clone, Copy, Debug, PartialEq, Eq, Structural)]
pub enum E820Type {
    Memory,
    Reserved,
    Acpi,
    Nvs,
    Unusable,
    Disabled,
    Pmem,
    Unaccepted,
    Unknown,
}

/// The numeric code that an E820 table stores for each type.
pub open spec fn spec_e820_code(t: E820Type) -> u32 {
    match t {
        E820Type::Memory => 1,
        E820Type::Reserved => 2,
        E820Type::Acpi => 3,
        E820Type::Nvs => 4,
        E820Type::Unusable => 5,
        E820Type::Disabled => 6,
        E820Type::Pmem => 7,
        E820Type::Unaccepted => 8,
        E820Type::Unknown => 0xff,
    }
}

/// The type that a numeric code stands for; codes outside the known set are `Unknown`.
pub open spec fn spec_e820_type_of(i: u32) -> E820Type {
    if i == 1 {
        E820Type::Memory
    } else if i == 2 {
        E820Type::Reserved
    } else if i == 3 {
        E820Type::Acpi
    } else if i == 4 {
        E820Type::Nvs
    } else if i == 5 {
        E820Type::Unusable
    } else if i == 6 {
        E820Type::Disabled
    } else if i == 7 {
        E820Type::Pmem
    } else if i == 8 {
        E820Type::Unaccepted
    } else {
        E820Type::Unknown
    }
}

/// The EFI memory type that an E820 type is reported as.
pub open spec fn spec_efi_memory_type(t: E820Type) -> u32 {
    match t {
        E820Type::Memory => 7,
        E820Type::Reserved => 0,
        E820Type::Acpi => 9,
        E820Type::Nvs => 10,
        E820Type::Unusable => 8,
        E820Type::Disabled => 8,
        E820Type::Pmem => 14,
        E820Type::Unaccepted => 8,
        E820Type::Unknown => 8,
    }
}

/// An EFI memory type (`EFI_MEMORY_TYPE`).
pub type EfiMemoryType = u32;

impl E820Type {
    /// The numeric code of this type in an E820 table.
    pub fn e820_code(self) -> (r: u32)
        ensures
            r == spec_e820_code(self),
    {
        match self {
            E820Type::Memory => 1,
            E820Type::Reserved => 2,
            E820Type::Acpi => 3,
            E820Type::Nvs => 4,
            E820Type::Unusable => 5,
            E820Type::Disabled => 6,
            E820Type::Pmem => 7,
            E820Type::Unaccepted => 8,
            E820Type::Unknown => 0xff,
        }
    }
}

impl From<u32> for E820Type {
    fn from(i: u32) -> (r: Self) {
        match i {
            1 => E820Type::Memory,
            2 => E820Type::Reserved,
            3 => E820Type::Acpi,
            4 => E820Type::Nvs,
            5 => E820Type::Unusable,
            6 => E820Type::Disabled,
            7 => E820Type::Pmem,
            8 => E820Type::Unaccepted,
            _ => E820Type::Unknown,
        }
    }
}

impl vstd::std_specs::convert::FromSpecImpl<u32> for E820Type {
    open spec fn obeys_from_spec() -> bool {
        true
    }

    open spec fn from_spec(i: u32) -> E820Type {
        spec_e820_type_of(i)
    }
}

impl From<E820Type> for EfiMemoryType {
    fn from(t: E820Type) -> (r: Self) {
        match t {
            E820Type::Memory => 7,
            E820Type::Reserved => 0,
            E820Type::Acpi => 9,
            E820Type::Nvs => 10,
            E820Type::Unusable => 8,
            E820Type::Disabled => 8,
            E820Type::Pmem => 14,
            E820Type::Unaccepted => 8,
            E820Type::Unknown => 8,
        }
    }
}

impl vstd::std_specs::convert::FromSpecImpl<E820Type> for EfiMemoryType {
    open spec fn obeys_from_spec() -> bool {
        true
    }

    open spec fn from_spec(t: E820Type) -> EfiMemoryType {
        spec_efi_memory_type(t)
    }
}


/// An EFI memory descriptor (`EFI_MEMORY_DESCRIPTOR`).
#[derive(Debug, Clone, Copy)]
pub struct MemoryDescriptor {
    pub memory_type: u32,
    pub physical_start: u64,
    pub virtual_start: u64,
    pub number_of_pages: u64,
    pub attribute: u64,
}

/// An E820 memory-map entry: a 64-bit base address, a 64-bit length and a
/// 32-bit type code, packed without padding, each little-endian.
///
/// The entry is held as its 20 bytes, so that a table of entries has exactly
/// the layout that a boot protocol hands over.
#[derive(Clone, Copy, Debug)]
pub struct E820Entry {
    bytes: [u8; 20],
}

impl E820Entry {
    /// The 20 bytes of the entry.
    pub closed spec fn spec_bytes(self) -> Seq<u8> {
        self.bytes@
    }

    /// The base address of the range.
    pub open spec fn spec_addr(self) -> u64 {
        spec_u64_from_le_bytes(self.spec_bytes().subrange(0, 8))
    }

    /// The length of the range in bytes.
    pub open spec fn spec_size(self) -> u64 {
        spec_u64_from_le_bytes(self.spec_bytes().subrange(8, 16))
    }

    /// The type code of the range.
    pub open spec fn spec_memory_type(self) -> u32 {
        spec_u32_from_le_bytes(self.spec_bytes().subrange(16, 20))
    }

    pub proof fn lemma_bytes_len(self)
        ensures
            self.spec_bytes().len() == 20,
    {
    }

    /// Creates the entry for the range of `size` bytes at `addr` of type `memory_type`.
    pub fn new(addr: u64, size: u64, memory_type: E820Type) -> (r: Self)
        ensures
            r.spec_addr() == addr,
            r.spec_size() == size,
            r.spec_memory_type() == spec_e820_code(memory_type),
            r.spec_bytes() == spec_u64_to_le_bytes(addr) + spec_u64_to_le_bytes(size)
                + spec_u32_to_le_bytes(spec_e820_code(memory_type)),
    {
        Self::from_fields(addr, size, memory_type.e820_code())
    }

    /// Creates the entry with the given fields, the type given by its code.
    pub fn from_fields(addr: u64, size: u64, memory_type: u32) -> (r: Self)
        ensures
            r.spec_addr() == addr,
            r.spec_size() == size,
            r.spec_memory_type() == memory_type,
            r.spec_bytes() == spec_u64_to_le_bytes(addr) + spec_u64_to_le_bytes(size)
                + spec_u32_to_le_bytes(memory_type),
    {
        proof {
            lemma_auto_spec_u64_to_from_le_bytes();
            lemma_auto_spec_u32_to_from_le_bytes();
        }
        let a = u64_to_le_bytes(addr);
        let s = u64_to_le_bytes(size);
        let t = u32_to_le_bytes(memory_type);
        let bytes: [u8; 20] = [
            a[0], a[1], a[2], a[3], a[4], a[5], a[6], a[7],
            s[0], s[1], s[2], s[3], s[4], s[5], s[6], s[7],
            t[0], t[1], t[2], t[3],
        ];
        let r = E820Entry { bytes };
        assert(r.spec_bytes().subrange(0, 8) =~= a@);
        assert(r.spec_bytes().subrange(8, 16) =~= s@);
        assert(r.spec_bytes().subrange(16, 20) =~= t@);
        assert(r.spec_bytes() =~= a@ + s@ + t@);
        r
    }

    /// The base address of the range.
    pub fn addr(&self) -> (r: u64)
        ensures
            r == self.spec_addr(),
    {
        u64_from_le_bytes(slice_subrange(self.bytes.as_slice(), 0, 8))
    }

    /// The length of the range in bytes.
    pub fn size(&self) -> (r: u64)
        ensures
            r == self.spec_size(),
    {
        u64_from_le_bytes(slice_subrange(self.bytes.as_slice(), 8, 16))
    }

    /// The type code of the range.
    pub fn memory_type(&self) -> (r: u32)
        ensures
            r == self.spec_memory_type(),
    {
        u32_from_le_bytes(slice_subrange(self.bytes.as_slice(), 16, 20))
    }

    /// The entry as it is laid out in memory.
    pub fn to_bytes(&self) -> (r: [u8; 20])
        ensures
            r@ == self.spec_bytes(),
    {
        self.bytes
    }

    /// The entry that the 20 bytes `bytes` hold.
    pub fn from_bytes(bytes: [u8; 20]) -> (r: Self)
        ensures
            r.spec_bytes() == bytes@,
    {
        E820Entry { bytes }
    }
}


impl Default for E820Entry {
    /// The all-zero entry.
    fn default() -> (r: Self)
        ensures
            r.spec_addr() == 0,
            r.spec_size() == 0,
            r.spec_memory_type() == 0,
    {
        E820Entry::from_fields(0, 0, 0)
    }
}

impl PartialEq for E820Entry {
    fn eq(&self, other: &Self) -> (r: bool) {
        self.addr() == other.addr() && self.size() == other.size() && self.memory_type()
            == other.memory_type()
    }
}

impl vstd::std_specs::cmp::PartialEqSpecImpl for E820Entry {
    open spec fn obeys_eq_spec() -> bool {
        true
    }

    open spec fn eq_spec(&self, other: &E820Entry) -> bool {
        &&& self.spec_addr() == other.spec_addr()
        &&& self.spec_size() == other.spec_size()
        &&& self.spec_memory_type() == other.spec_memory_type()
    }
}

/// The EFI memory descriptor that reports an E820 entry: the same start
/// address, physical and virtual, the whole 4 KiB pages of its length, the
/// EFI type of its E820 type, and no attributes.
pub open spec fn spec_memory_descriptor(e: E820Entry) -> MemoryDescriptor {
    MemoryDescriptor {
        memory_type: spec_efi_memory_type(spec_e820_type_of(e.spec_memory_type())),
        physical_start: e.spec_addr(),
        virtual_start: e.spec_addr(),
        number_of_pages: e.spec_size() / 0x1000,
        attribute: 0,
    }
}

impl From<E820Entry> for MemoryDescriptor {
    fn from(e: E820Entry) -> (r: Self) {
        let t: E820Type = E820Type::from(e.memory_type());
        MemoryDescriptor {
            memory_type: t.into(),
            physical_start: e.addr(),
            virtual_start: e.addr(),
            number_of_pages: e.size() / 0x1000,
            attribute: 0,
        }
    }
}

impl vstd::std_specs::convert::FromSpecImpl<E820Entry> for MemoryDescriptor {
    open spec fn obeys_from_spec() -> bool {
        true
    }

    open spec fn from_spec(e: E820Entry) -> MemoryDescriptor {
        spec_memory_descriptor(e)
    }
}

/// The number of descriptors that the EFI memory map handed to a payload can hold.
pub const MAX_EFI_MEMORY_MAP_ENTRIES: usize = 128;

/// The EFI memory map that reports an E820 table: one descriptor for each
/// entry, in the same order.
pub fn efi_memory_map(e820: &[E820Entry]) -> (r: Vec<MemoryDescriptor>)
    requires
        e820@.len() <= MAX_EFI_MEMORY_MAP_ENTRIES,
    ensures
        r@.len() == e820@.len(),
        forall|i: int| 0 <= i < e820@.len() ==> #[trigger] r@[i] == spec_memory_descriptor(e820@[i]),
{
    let mut r: Vec<MemoryDescriptor> = Vec::new();
    let mut idx: usize = 0;
    while idx < e820.len()
        invariant
            idx <= e820@.len(),
            r@.len() == idx,
            forall|i: int| 0 <= i < idx ==> #[trigger] r@[i] == spec_memory_descriptor(e820@[i]),
        decreases e820@.len() - idx,
    {
        let d: MemoryDescriptor = e820[idx].into();
        r.push(d);
        idx = idx + 1;
    }
    r
}


/// Reading back the code of a type gives the type: `E820Type::from(t.e820_code()) == t`.
pub proof fn lemma_e820_type_code_roundtrip(t: E820Type)
    ensures
        spec_e820_type_of(spec_e820_code(t)) == t,
{
}

/// A code survives the trip through `E820Type` exactly when it is one of the
/// known codes (1 to 8, or 0xff for `Unknown`); every other code reads as `Unknown`.
pub proof fn lemma_e820_code_roundtrip(i: u32)
    ensures
        spec_e820_code(spec_e820_type_of(i)) == i <==> (1 <= i <= 8 || i == 0xff),
        !(1 <= i <= 8) ==> spec_e820_type_of(i) == E820Type::Unknown,
{
}

/// Every E820 type is reported as one of the EFI types conventional (7),
/// reserved (0), ACPI reclaim (9), ACPI NVS (10), unusable (8) or persistent (14).
pub proof fn lemma_efi_memory_type_range(t: E820Type)
    ensures
        spec_efi_memory_type(t) == 0 || spec_efi_memory_type(t) == 7 || spec_efi_memory_type(t)
            == 8 || spec_efi_memory_type(t) == 9 || spec_efi_memory_type(t) == 10
            || spec_efi_memory_type(t) == 14,
        spec_efi_memory_type(t) == 7 <==> t == E820Type::Memory,
{
}

/// The bytes of an entry are the little-endian address, then the little-endian
/// length, then the little-endian type code: the packed layout.
pub proof fn lemma_e820_entry_layout(e: E820Entry)
    ensures
        e.spec_bytes() == spec_u64_to_le_bytes(e.spec_addr()) + spec_u64_to_le_bytes(e.spec_size())
            + spec_u32_to_le_bytes(e.spec_memory_type()),
{
    lemma_auto_spec_u64_to_from_le_bytes();
    lemma_auto_spec_u32_to_from_le_bytes();
    e.lemma_bytes_len();
    let b = e.spec_bytes();
    assert(spec_u64_to_le_bytes(spec_u64_from_le_bytes(b.subrange(0, 8))) == b.subrange(0, 8));
    assert(spec_u64_to_le_bytes(spec_u64_from_le_bytes(b.subrange(8, 16))) == b.subrange(8, 16));
    assert(spec_u32_to_le_bytes(spec_u32_from_le_bytes(b.subrange(16, 20))) == b.subrange(16, 20));
    assert(b =~= b.subrange(0, 8) + b.subrange(8, 16) + b.subrange(16, 20));
}

/// Two entries with the same address, length and type are the same 20 bytes.
pub proof fn lemma_e820_entry_fields_determine_bytes(e1: E820Entry, e2: E820Entry)
    requires
        e1.spec_addr() == e2.spec_addr(),
        e1.spec_size() == e2.spec_size(),
        e1.spec_memory_type() == e2.spec_memory_type(),
    ensures
        e1.spec_bytes() == e2.spec_bytes(),
{
    lemma_e820_entry_layout(e1);
    lemma_e820_entry_layout(e2);
}


/// Two entries are equal (`==`) exactly when they are the same 20 bytes, that
/// is, when address, length and type code all agree.
pub proof fn lemma_e820_entry_eq(e1: E820Entry, e2: E820Entry)
    ensures
        e1.eq_spec(&e2) <==> e1.spec_bytes()
            == e2.spec_bytes(),
        e1.eq_spec(&e2) <==> (e1.spec_addr()
            == e2.spec_addr() && e1.spec_size() == e2.spec_size() && e1.spec_memory_type()
            == e2.spec_memory_type()),
{
    if e1.spec_addr() == e2.spec_addr() && e1.spec_size() == e2.spec_size() && e1.spec_memory_type()
        == e2.spec_memory_type() {
        lemma_e820_entry_fields_determine_bytes(e1, e2);
    }
}

/// The EFI descriptor of an entry: same start address, physical and virtual;
/// the number of whole 4 KiB pages in its length; no attributes; and the EFI
/// type given by its E820 type code: 1 (RAM) is conventional memory (7),
/// 2 (reserved) is reserved (0), 3 (ACPI) is ACPI reclaim (9), 4 (NVS) is ACPI
/// NVS (10), 7 (persistent) is persistent memory (14), and every other code
/// is unusable memory (8).
pub proof fn lemma_memory_descriptor(e: E820Entry)
    ensures
        spec_memory_descriptor(e).physical_start == e.spec_addr(),
        spec_memory_descriptor(e).virtual_start == e.spec_addr(),
        spec_memory_descriptor(e).number_of_pages * 4096 <= e.spec_size(),
        e.spec_size() < spec_memory_descriptor(e).number_of_pages * 4096 + 4096,
        spec_memory_descriptor(e).attribute == 0,
        e.spec_memory_type() == 1 ==> spec_memory_descriptor(e).memory_type == 7,
        e.spec_memory_type() == 2 ==> spec_memory_descriptor(e).memory_type == 0,
        e.spec_memory_type() == 3 ==> spec_memory_descriptor(e).memory_type == 9,
        e.spec_memory_type() == 4 ==> spec_memory_descriptor(e).memory_type == 10,
        e.spec_memory_type() == 7 ==> spec_memory_descriptor(e).memory_type == 14,
        !(e.spec_memory_type() == 1 || e.spec_memory_type() == 2 || e.spec_memory_type() == 3
            || e.spec_memory_type() == 4 || e.spec_memory_type() == 7)
            ==> spec_memory_descriptor(e).memory_type == 8,
{
}

} // verus!
