//! Address planning for loading one loadable segment of an ELF payload into a
//! 4 KiB-paged x86-64 address space.
//!
//! The payload image lies in physical memory at `kernel_start`; each loadable
//! segment is mapped from the frames that hold its file image, and the part of
//! its memory image beyond the file image (`.bss`) is backed by fresh frames
//! and zeroed. The plan gives every address that the mapping needs; the
//! mapping itself is done by the caller, frame by frame.
//!
//! Addresses follow the x86-64 rules: a virtual address is canonical when
//! bits 47 to 63 are all equal; creating a virtual address from a value whose
//! bits 48 to 63 are clear but whose bit 47 is set sign-extends it; any other
//! non-canonical value is rejected. A physical address must be below 2^52.

use vstd::prelude::*;

verus! {

/// The size of a page and of a frame.
pub const PAGE_SIZE: u64 = 0x1000;

/// Physical addresses lie below this bound (52 address bits).
pub const PHYS_ADDR_LIMIT: u64 = 0x10_0000_0000_0000;

/// Sign-extends bit 47 of `a` into bits 48 to 63.
pub open spec fn spec_sign_extend(a: u64) -> u64 {
    if (a >> 47u64) & 1 == 1 {
        a | 0xffff_0000_0000_0000u64
    } else {
        a & 0x0000_7fff_ffff_ffffu64
    }
}

/// The virtual address that `a` denotes: `a` itself when it is canonical, `a`
/// sign-extended when only bit 47 of bits 47 to 63 is set, and none otherwise.
pub open spec fn spec_virt_addr(a: u64) -> Option<u64> {
    let hi = a >> 47u64;
    if hi == 0 || hi == 0x1ffff {
        Some(a)
    } else if hi == 1 {
        Some(spec_sign_extend(a))
    } else {
        None
    }
}

/// The start of the 4 KiB page that holds the virtual address `v`.
pub open spec fn spec_virt_page(v: u64) -> u64 {
    spec_sign_extend(v & !0xfffu64)
}

/// The start of the 4 KiB frame that holds the physical address `p`.
pub open spec fn spec_frame(p: u64) -> u64 {
    p & !0xfffu64
}

/// `a` rounded up to a multiple of 4 KiB.
pub open spec fn spec_align_up_page(a: u64) -> int {
    if a & 0xfffu64 == 0 {
        a as int
    } else {
        (a | 0xfffu64) + 1
    }
}

/// The virtual address that `a` denotes, or `None` where it denotes none.
pub fn virt_addr(a: u64) -> (r: Option<u64>)
    ensures
        r == spec_virt_addr(a),
{
    let hi = a >> 47u64;
    if hi == 0 || hi == 0x1ffff {
        Some(a)
    } else if hi == 1 {
        Some(sign_extend(a))
    } else {
        None
    }
}

fn sign_extend(a: u64) -> (r: u64)
    ensures
        r == spec_sign_extend(a),
{
    if (a >> 47u64) & 1 == 1 {
        a | 0xffff_0000_0000_0000u64
    } else {
        a & 0x0000_7fff_ffff_ffffu64
    }
}

/// The values of an ELF program header that loading a segment reads.
#[derive(Clone, Copy, Debug)]
pub struct ProgramSegment {
    /// Offset of the segment's file image in the ELF file.
    pub offset: u64,
    /// Virtual address of the segment.
    pub virtual_addr: u64,
    /// Length of the file image.
    pub file_size: u64,
    /// Length of the memory image.
    pub mem_size: u64,
}

/// How the part of a segment's memory image beyond its file image is set up.
#[derive(Clone, Copy, Debug, PartialEq, Eq, Structural)]
pub struct BssPlan {
    /// First byte to zero: the end of the file image.
    pub zero_start: u64,
    /// End of the memory image.
    pub zero_end: u64,
    /// Number of bytes to zero.
    pub zero_len: u64,
    /// Where the file image ends inside a page, that page: its content is
    /// copied to a fresh frame, and the page is remapped to that frame before
    /// the zeroing.
    pub copy_last_page: Option<u64>,
    /// First page to back with a fresh frame.
    pub first_page: u64,
    /// Last page (inclusive) to back with a fresh frame.
    pub last_page: u64,
}

/// The addresses that mapping a loadable segment needs.
#[derive(Clone, Copy, Debug, PartialEq, Eq, Structural)]
pub struct SegmentPlan {
    /// Physical address of the page-aligned start of the file image.
    pub phys_start: u64,
    /// Virtual address of the segment.
    pub virt_start: u64,
    /// Page of the virtual start.
    pub start_page: u64,
    /// Frame of the physical start.
    pub start_frame: u64,
    /// Frame of the last byte of the file image.
    pub end_frame: u64,
    /// Whether the frames `start_frame..=end_frame` are mapped (the file image is not empty).
    pub map_file: bool,
    /// Set-up of the memory beyond the file image, where the memory image is longer.
    pub bss: Option<BssPlan>,
}

/// The physical address of the page-aligned start of the segment's file image.
pub open spec fn spec_phys_start(seg: ProgramSegment, kernel_start: u64) -> int {
    kernel_start + (seg.offset & !0xfffu64)
}

/// Mapping the segment is defined: every address that the mapping computes
/// outside its loop over the file frames is in range (no sum overflows 64
/// bits, each physical address is below 2^52, each virtual address is
/// canonical or sign-extends to one), the physical end of the file image is
/// not 0 (its last byte is found as the end minus one), and, where the file image is mapped, the frame after
/// the last file frame (where the frame iteration stops) is a physical address.
pub open spec fn segment_plan_defined(seg: ProgramSegment, kernel_start: u64) -> bool {
    let ps = spec_phys_start(seg, kernel_start);
    &&& ps < PHYS_ADDR_LIMIT
    &&& spec_virt_addr(seg.virtual_addr) is Some
    &&& ps + seg.file_size < PHYS_ADDR_LIMIT
    &&& ps + seg.file_size >= 1
    &&& seg.file_size != 0 ==> spec_frame((ps + seg.file_size - 1) as u64) + PAGE_SIZE
        < PHYS_ADDR_LIMIT
    &&& seg.mem_size > seg.file_size ==> bss_defined(
        spec_virt_addr(seg.virtual_addr)->0,
        seg.file_size,
        seg.mem_size,
    )
}

/// The addresses of the memory beyond the file image are in range.
pub open spec fn bss_defined(vs: u64, file_size: u64, mem_size: u64) -> bool {
    &&& vs + file_size <= u64::MAX
    &&& spec_virt_addr((vs + file_size) as u64) is Some
    &&& vs + mem_size <= u64::MAX
    &&& spec_virt_addr((vs + mem_size) as u64) is Some
    &&& spec_align_up_page(spec_virt_addr((vs + file_size) as u64)->0) <= u64::MAX
    &&& spec_virt_addr(
        spec_align_up_page(spec_virt_addr((vs + file_size) as u64)->0) as u64,
    ) is Some
}

/// The set-up of the memory beyond the file image.
pub open spec fn spec_bss_plan(vs: u64, file_size: u64, mem_size: u64) -> BssPlan {
    let zs = spec_virt_addr((vs + file_size) as u64)->0;
    let ze = spec_virt_addr((vs + mem_size) as u64)->0;
    BssPlan {
        zero_start: zs,
        zero_end: ze,
        zero_len: (mem_size - file_size) as u64,
        copy_last_page: if zs & 0xfffu64 != 0 {
            Some(spec_virt_page(spec_virt_addr((zs - 1) as u64)->0))
        } else {
            None
        },
        first_page: spec_virt_page(spec_virt_addr(spec_align_up_page(zs) as u64)->0),
        last_page: spec_virt_page(ze),
    }
}

/// The plan for mapping the segment `seg` of the payload that lies at `kernel_start`.
pub open spec fn spec_plan_segment(seg: ProgramSegment, kernel_start: u64) -> SegmentPlan {
    let ps = spec_phys_start(seg, kernel_start) as u64;
    let vs = spec_virt_addr(seg.virtual_addr)->0;
    SegmentPlan {
        phys_start: ps,
        virt_start: vs,
        start_page: spec_virt_page(vs),
        start_frame: spec_frame(ps),
        end_frame: spec_frame((ps + seg.file_size - 1) as u64),
        map_file: seg.file_size != 0,
        bss: if seg.mem_size > seg.file_size {
            Some(spec_bss_plan(vs, seg.file_size, seg.mem_size))
        } else {
            None
        },
    }
}


/// A virtual address is canonical: bits 47 to 63 are all clear or all set.
pub open spec fn is_canonical(v: u64) -> bool {
    v >> 47u64 == 0 || v >> 47u64 == 0x1ffff
}

/// Every virtual address that a value denotes is canonical.
pub proof fn lemma_virt_addr_canonical(a: u64)
    ensures
        spec_virt_addr(a) is Some ==> is_canonical(spec_virt_addr(a)->0),
        is_canonical(a) ==> spec_virt_addr(a) == Some(a),
{
    if a >> 47u64 == 1 {
        assert(((a >> 47u64) == 1u64) ==> (((a >> 47u64) & 1u64) == 1u64 && ((a
            | 0xffff_0000_0000_0000u64) >> 47u64) == 0x1ffffu64)) by (bit_vector);
    }
}

/// The address just below a canonical address that does not start a page is
/// canonical too.
proof fn lemma_pred_canonical(z: u64)
    requires
        is_canonical(z),
        z & 0xfffu64 != 0,
    ensures
        z >= 1,
        is_canonical((z - 1) as u64),
{
    let y = (z - 1) as u64;
    assert(z & 0xfffu64 != 0 ==> z >= 1) by (bit_vector);
    assert(((z >> 47u64 == 0 || z >> 47u64 == 0x1ffffu64) && z & 0xfffu64 != 0 && y + 1 == z)
        ==> (y >> 47u64 == z >> 47u64)) by (bit_vector);
}

fn virt_page(v: u64) -> (r: u64)
    ensures
        r == spec_virt_page(v),
{
    sign_extend(v & !0xfffu64)
}

fn align_up_page(a: u64) -> (r: u64)
    requires
        spec_align_up_page(a) <= u64::MAX,
    ensures
        r == spec_align_up_page(a),
{
    if a & 0xfffu64 == 0 {
        a
    } else {
        (a | 0xfffu64) + 1
    }
}

fn plan_bss(vs: u64, file_size: u64, mem_size: u64) -> (r: BssPlan)
    requires
        bss_defined(vs, file_size, mem_size),
        mem_size > file_size,
    ensures
        r == spec_bss_plan(vs, file_size, mem_size),
{
    let zs = virt_addr(vs + file_size).unwrap();
    let ze = virt_addr(vs + mem_size).unwrap();
    let copy_last_page = if zs & 0xfffu64 != 0 {
        proof {
            lemma_virt_addr_canonical((vs + file_size) as u64);
            lemma_pred_canonical(zs);
            lemma_virt_addr_canonical((zs - 1) as u64);
        }
        Some(virt_page(virt_addr(zs - 1).unwrap()))
    } else {
        None
    };
    let up = align_up_page(zs);
    let first_page = virt_page(virt_addr(up).unwrap());
    BssPlan {
        zero_start: zs,
        zero_end: ze,
        zero_len: mem_size - file_size,
        copy_last_page,
        first_page,
        last_page: virt_page(ze),
    }
}

/// The plan for mapping the loadable segment `seg` of the payload that lies at
/// the physical address `kernel_start`.
pub fn plan_segment(seg: &ProgramSegment, kernel_start: u64) -> (r: SegmentPlan)
    requires
        segment_plan_defined(*seg, kernel_start),
    ensures
        r == spec_plan_segment(*seg, kernel_start),
{
    let ps = kernel_start + (seg.offset & !0xfffu64);
    let vs = virt_addr(seg.virtual_addr).unwrap();
    let last = ps + seg.file_size - 1;
    let bss = if seg.mem_size > seg.file_size {
        Some(plan_bss(vs, seg.file_size, seg.mem_size))
    } else {
        None
    };
    SegmentPlan {
        phys_start: ps,
        virt_start: vs,
        start_page: virt_page(vs),
        start_frame: ps & !0xfffu64,
        end_frame: last & !0xfffu64,
        map_file: seg.file_size != 0,
        bss,
    }
}

fn bss_defined_exec(vs: u64, file_size: u64, mem_size: u64) -> (r: bool)
    ensures
        r == bss_defined(vs, file_size, mem_size),
{
    if file_size > u64::MAX - vs || mem_size > u64::MAX - vs {
        return false;
    }
    let zs = match virt_addr(vs + file_size) {
        Some(z) => z,
        None => {
            return false;
        },
    };
    if virt_addr(vs + mem_size).is_none() {
        return false;
    }
    if zs & 0xfffu64 != 0 && (zs | 0xfffu64) == u64::MAX {
        return false;
    }
    let up = align_up_page(zs);
    virt_addr(up).is_some()
}

/// Whether mapping the segment `seg` of the payload at `kernel_start` is
/// defined (see `segment_plan_defined`).
pub fn check_segment_plan(seg: &ProgramSegment, kernel_start: u64) -> (r: bool)
    ensures
        r == segment_plan_defined(*seg, kernel_start),
{
    let fo = seg.offset & !0xfffu64;
    if fo > u64::MAX - kernel_start {
        return false;
    }
    let ps = kernel_start + fo;
    if ps >= PHYS_ADDR_LIMIT {
        return false;
    }
    let vs = match virt_addr(seg.virtual_addr) {
        Some(v) => v,
        None => {
            return false;
        },
    };
    if seg.file_size >= PHYS_ADDR_LIMIT - ps {
        return false;
    }
    if ps + seg.file_size < 1 {
        return false;
    }
    if seg.file_size != 0 && ((ps + seg.file_size - 1) & !0xfffu64) >= PHYS_ADDR_LIMIT - PAGE_SIZE {
        return false;
    }
    if seg.mem_size > seg.file_size {
        bss_defined_exec(vs, seg.file_size, seg.mem_size)
    } else {
        true
    }
}


/// The virtual address of the page that the file frame `frame` is mapped at:
/// the start page advanced by as many pages as `frame` lies frames after the
/// start frame.
pub open spec fn spec_file_page_addr(plan: SegmentPlan, frame: u64) -> int {
    plan.start_page + (frame - plan.start_frame) / (PAGE_SIZE as int) * (PAGE_SIZE as int)
}

/// The page for the file frame `frame` is defined.
pub open spec fn file_page_defined(plan: SegmentPlan, frame: u64) -> bool {
    &&& plan.start_frame <= frame
    &&& spec_file_page_addr(plan, frame) <= u64::MAX
    &&& spec_virt_addr(spec_file_page_addr(plan, frame) as u64) is Some
}

/// The page that the file frame `frame` is mapped at.
pub open spec fn spec_file_page(plan: SegmentPlan, frame: u64) -> u64 {
    spec_virt_page(spec_virt_addr(spec_file_page_addr(plan, frame) as u64)->0)
}

impl SegmentPlan {
    /// The page that the file frame `frame` is mapped at.
    pub fn page_for_frame(&self, frame: u64) -> (r: u64)
        requires
            file_page_defined(*self, frame),
        ensures
            r == spec_file_page(*self, frame),
    {
        let k = (frame - self.start_frame) / PAGE_SIZE;
        assert(k * PAGE_SIZE <= frame - self.start_frame) by (nonlinear_arith)
            requires
                k == (frame - self.start_frame) / (PAGE_SIZE as int),
                frame - self.start_frame >= 0,
        ;
        virt_page(virt_addr(self.start_page + k * PAGE_SIZE).unwrap())
    }

    /// Whether the page for the file frame `frame` is defined.
    pub fn check_page_for_frame(&self, frame: u64) -> (r: bool)
        ensures
            r == file_page_defined(*self, frame),
    {
        if frame < self.start_frame {
            return false;
        }
        let k = (frame - self.start_frame) / PAGE_SIZE;
        assert(k * PAGE_SIZE <= frame - self.start_frame) by (nonlinear_arith)
            requires
                k == (frame - self.start_frame) / (PAGE_SIZE as int),
                frame - self.start_frame >= 0,
        ;
        let off = k * PAGE_SIZE;
        if off > u64::MAX - self.start_page {
            return false;
        }
        virt_addr(self.start_page + off).is_some()
    }
}


/// The page of a canonical address is the address with its low 12 bits
/// cleared, and is canonical itself.
proof fn lemma_virt_page_of_canonical(v: u64)
    requires
        is_canonical(v),
    ensures
        spec_virt_page(v) == v & !0xfffu64,
        is_canonical(v & !0xfffu64),
        (v & !0xfffu64) & 0xfffu64 == 0,
        v & !0xfffu64 <= v,
        v - (v & !0xfffu64) < PAGE_SIZE,
{
    assert((v >> 47u64 == 0 || v >> 47u64 == 0x1ffffu64) ==> (spec_sign_extend(v & !0xfffu64) == v
        & !0xfffu64 && ((v & !0xfffu64) >> 47u64 == 0 || (v & !0xfffu64) >> 47u64 == 0x1ffffu64)
        && (v & !0xfffu64) & 0xfffu64 == 0 && v & !0xfffu64 <= v && v - (v & !0xfffu64) < 0x1000))
        by (bit_vector);
}

/// The frame of a physical address is at most 4095 bytes below it and starts a frame.
proof fn lemma_frame_bounds(p: u64)
    ensures
        spec_frame(p) <= p,
        p - spec_frame(p) < PAGE_SIZE,
        spec_frame(p) % PAGE_SIZE == 0,
{
    assert((p & !0xfffu64) <= p && p - (p & !0xfffu64) < 0x1000 && (p & !0xfffu64) % 0x1000 == 0)
        by (bit_vector);
}

/// Rounding up to a page gives the least multiple of 4 KiB at or above the address.
proof fn lemma_align_up_page_bounds(a: u64)
    requires
        spec_align_up_page(a) <= u64::MAX,
    ensures
        a <= spec_align_up_page(a) < a + PAGE_SIZE,
        spec_align_up_page(a) % (PAGE_SIZE as int) == 0,
        a & 0xfffu64 == 0 <==> spec_align_up_page(a) == a,
{
    if a & 0xfffu64 == 0 {
        assert(a & 0xfffu64 == 0 ==> a % 0x1000 == 0) by (bit_vector);
    } else {
        let u = (a | 0xfffu64) as int + 1;
        assert((a & 0xfffu64 != 0 && (a | 0xfffu64) < 0xffff_ffff_ffff_ffffu64) ==> (a < (a
            | 0xfffu64) + 1 && (a | 0xfffu64) + 1 < a + 0x1000 && ((a | 0xfffu64) + 1) % 0x1000
            == 0)) by (bit_vector);
    }
}

/// The frames `start_frame..=end_frame` that are mapped for a non-empty file
/// image hold every byte of it and no whole frame beyond it: the start frame
/// holds its first byte and the end frame its last.
pub proof fn lemma_file_frames_cover_file_image(seg: ProgramSegment, kernel_start: u64)
    requires
        segment_plan_defined(seg, kernel_start),
        seg.file_size != 0,
    ensures
        ({
            let p = spec_plan_segment(seg, kernel_start);
            &&& p.map_file
            &&& p.start_frame % PAGE_SIZE == 0
            &&& p.end_frame % PAGE_SIZE == 0
            &&& p.start_frame <= p.phys_start < p.start_frame + PAGE_SIZE
            &&& p.end_frame <= p.phys_start + seg.file_size - 1 < p.end_frame + PAGE_SIZE
            &&& p.start_frame <= p.end_frame
            &&& p.end_frame + PAGE_SIZE < PHYS_ADDR_LIMIT
        }),
{
    let p = spec_plan_segment(seg, kernel_start);
    lemma_frame_bounds(p.phys_start);
    lemma_frame_bounds((p.phys_start + seg.file_size - 1) as u64);
    let a = p.phys_start;
    let b = (p.phys_start + seg.file_size - 1) as u64;
    assert(a <= b ==> (a & !0xfffu64) <= (b & !0xfffu64)) by (bit_vector);
}

/// The first file frame is mapped at the start page, and the start page is the
/// page that holds the segment's virtual address.
pub proof fn lemma_first_file_frame_at_start_page(seg: ProgramSegment, kernel_start: u64)
    requires
        segment_plan_defined(seg, kernel_start),
    ensures
        ({
            let p = spec_plan_segment(seg, kernel_start);
            &&& file_page_defined(p, p.start_frame)
            &&& spec_file_page(p, p.start_frame) == p.start_page
            &&& p.start_page == p.virt_start & !0xfffu64
            &&& p.start_page <= p.virt_start < p.start_page + PAGE_SIZE
        }),
{
    let p = spec_plan_segment(seg, kernel_start);
    lemma_virt_addr_canonical(seg.virtual_addr);
    lemma_virt_page_of_canonical(p.virt_start);
    lemma_virt_addr_canonical(p.start_page);
    lemma_virt_page_of_canonical(p.start_page);
    let sp = p.start_page;
    assert(sp & 0xfffu64 == 0 ==> sp & !0xfffu64 == sp) by (bit_vector);
    assert(spec_file_page_addr(p, p.start_frame) == p.start_page);
}

/// Beyond the file image: exactly `mem_size - file_size` bytes are zeroed from
/// the end of the file image; the page holding that end is copied and remapped
/// exactly when the end does not start a page; fresh frames back the pages
/// from the first page boundary at or after the end of the file image up to
/// the page holding the end of the memory image.
pub proof fn lemma_bss_plan(seg: ProgramSegment, kernel_start: u64)
    requires
        segment_plan_defined(seg, kernel_start),
        seg.mem_size > seg.file_size,
    ensures
        ({
            let p = spec_plan_segment(seg, kernel_start);
            let b = p.bss->0;
            let up = spec_align_up_page(b.zero_start);
            &&& p.bss is Some
            &&& b.zero_len == seg.mem_size - seg.file_size
            &&& (b.copy_last_page is None <==> b.zero_start & 0xfffu64 == 0)
            &&& (b.copy_last_page is Some ==> b.copy_last_page->0 == b.zero_start & !0xfffu64)
            &&& b.last_page == b.zero_end & !0xfffu64
            &&& is_canonical(up as u64) ==> {
                &&& b.first_page == up
                &&& b.zero_start <= b.first_page < b.zero_start + PAGE_SIZE
                &&& b.first_page % PAGE_SIZE == 0
            }
            &&& b.copy_last_page is None ==> b.first_page == b.zero_start
        }),
{
    let p = spec_plan_segment(seg, kernel_start);
    let b = p.bss->0;
    let vs = p.virt_start;
    let zs = b.zero_start;
    lemma_virt_addr_canonical((vs + seg.file_size) as u64);
    lemma_virt_addr_canonical((vs + seg.mem_size) as u64);
    lemma_virt_page_of_canonical(zs);
    lemma_virt_page_of_canonical(b.zero_end);
    lemma_align_up_page_bounds(zs);
    let up = spec_align_up_page(zs) as u64;
    lemma_virt_addr_canonical(up);
    if zs & 0xfffu64 != 0 {
        lemma_pred_canonical(zs);
        let y = (zs - 1) as u64;
        lemma_virt_addr_canonical(y);
        lemma_virt_page_of_canonical(y);
        assert((zs & 0xfffu64 != 0 && y + 1 == zs) ==> (y & !0xfffu64) == (zs & !0xfffu64))
            by (bit_vector);
    }
    if is_canonical(up) {
        lemma_virt_page_of_canonical(up);
        assert(up % 0x1000 == 0 ==> up & !0xfffu64 == up) by (bit_vector);
    }
    if zs & 0xfffu64 == 0 {
        assert(zs & 0xfffu64 == 0 ==> zs & !0xfffu64 == zs) by (bit_vector);
    }
}


/// A file frame that lies `d` bytes after the start frame is mapped at the page
/// `d` bytes after the start page, unless that address has left the lower
/// canonical half (where x86-64 sign-extends it).
pub proof fn lemma_file_page_offset(seg: ProgramSegment, kernel_start: u64, frame: u64)
    requires
        segment_plan_defined(seg, kernel_start),
        file_page_defined(spec_plan_segment(seg, kernel_start), frame),
        frame % PAGE_SIZE == 0,
        is_canonical(
            spec_file_page_addr(spec_plan_segment(seg, kernel_start), frame) as u64,
        ),
    ensures
        ({
            let p = spec_plan_segment(seg, kernel_start);
            spec_file_page(p, frame) == p.start_page + (frame - p.start_frame)
        }),
{
    let p = spec_plan_segment(seg, kernel_start);
    lemma_frame_bounds(p.phys_start);
    lemma_virt_addr_canonical(seg.virtual_addr);
    lemma_virt_page_of_canonical(p.virt_start);
    let sf = p.start_frame;
    let d: int = frame - sf;
    assert(d / 4096 * 4096 == d) by (nonlinear_arith)
        requires
            frame % 4096 == 0,
            sf % 4096 == 0,
            d == frame - sf,
            d >= 0,
    {
        assert(d % 4096 == 0);
    }
    let a = spec_file_page_addr(p, frame) as u64;
    let sp = p.start_page;
    assert(a == sp + d);
    assert((sp & 0xfffu64 == 0 && frame % 0x1000 == 0 && sf % 0x1000 == 0 && frame >= sf && a
        == sp + (frame - sf)) ==> a & 0xfffu64 == 0) by (bit_vector);
    lemma_virt_addr_canonical(a);
    lemma_virt_page_of_canonical(a);
    assert(a & 0xfffu64 == 0 ==> a & !0xfffu64 == a) by (bit_vector);
}


/// The last page of the lower canonical half.
pub const LOW_HALF_LAST_PAGE: u64 = 0x0000_7fff_ffff_f000;

/// The first page of the upper canonical half.
pub const HIGH_HALF_FIRST_PAGE: u64 = 0xffff_8000_0000_0000;

/// The addresses `first`, `first` + 4 KiB, ... up to `last`.
pub open spec fn spec_page_run(first: u64, last: u64) -> Seq<u64> {
    if first <= last {
        Seq::new(
            ((last - first) / (PAGE_SIZE as int) + 1) as nat,
            |i: int| (first + i * (PAGE_SIZE as int)) as u64,
        )
    } else {
        Seq::empty()
    }
}

/// The pages from `first` to `last` inclusive, in the order a page walk
/// visits them: where the range spans the non-canonical gap, the walk goes
/// from the last page of the lower half straight to the first page of the
/// upper half.
pub open spec fn spec_page_range(first: u64, last: u64) -> Seq<u64> {
    if first <= LOW_HALF_LAST_PAGE && HIGH_HALF_FIRST_PAGE <= last {
        spec_page_run(first, LOW_HALF_LAST_PAGE) + spec_page_run(HIGH_HALF_FIRST_PAGE, last)
    } else {
        spec_page_run(first, last)
    }
}

fn push_page_run(r: &mut Vec<u64>, first: u64, last: u64)
    ensures
        final(r)@ == old(r)@ + spec_page_run(first, last),
{
    if first > last {
        assert(old(r)@ + spec_page_run(first, last) =~= old(r)@);
        return;
    }
    let n = (last - first) / PAGE_SIZE;
    let ghost run = spec_page_run(first, last);
    let ghost r0 = r@;
    let mut i: u64 = 0;
    while i <= n
        invariant
            n == (last - first) / (PAGE_SIZE as int),
            first <= last,
            run == spec_page_run(first, last),
            run.len() == n + 1,
            i <= n + 1,
            r@ == r0 + run.subrange(0, i as int),
        decreases n + 1 - i,
    {
        assert(i * PAGE_SIZE <= last - first) by (nonlinear_arith)
            requires
                i <= n,
                n == (last - first) / 4096,
                last - first >= 0,
        ;
        let p = first + i * PAGE_SIZE;
        r.push(p);
        assert(run[i as int] == p);
        assert(r@ =~= r0 + run.subrange(0, i + 1));
        i = i + 1;
    }
    assert(run.subrange(0, i as int) =~= run);
}

/// The pages from `first` to `last` inclusive, in the order a page walk visits them.
pub fn page_range(first: u64, last: u64) -> (r: Vec<u64>)
    ensures
        r@ == spec_page_range(first, last),
{
    let mut r: Vec<u64> = Vec::new();
    if first <= LOW_HALF_LAST_PAGE && HIGH_HALF_FIRST_PAGE <= last {
        push_page_run(&mut r, first, LOW_HALF_LAST_PAGE);
        push_page_run(&mut r, HIGH_HALF_FIRST_PAGE, last);
    } else {
        push_page_run(&mut r, first, last);
    }
    assert(r@ =~= spec_page_range(first, last));
    r
}

/// The number of file frames mapped: those from the start frame to the end
/// frame inclusive, where the file image is mapped.
pub open spec fn spec_file_frame_count(plan: SegmentPlan) -> int {
    if plan.map_file && plan.start_frame <= plan.end_frame {
        (plan.end_frame - plan.start_frame) / (PAGE_SIZE as int) + 1
    } else {
        0
    }
}

/// The `i`-th file frame.
pub open spec fn spec_file_frame(plan: SegmentPlan, i: int) -> u64 {
    (plan.start_frame + i * (PAGE_SIZE as int)) as u64
}

/// The page of every file frame is defined.
pub open spec fn file_mappings_defined(plan: SegmentPlan) -> bool {
    forall|i: int|
        0 <= i < spec_file_frame_count(plan) ==> file_page_defined(
            plan,
            #[trigger] spec_file_frame(plan, i),
        )
}

/// The (page, frame) pairs that map the file image, in frame order.
pub open spec fn spec_file_mappings(plan: SegmentPlan) -> Seq<(u64, u64)> {
    Seq::new(
        spec_file_frame_count(plan) as nat,
        |i: int| (spec_file_page(plan, spec_file_frame(plan, i)), spec_file_frame(plan, i)),
    )
}

impl SegmentPlan {
    /// The (page, frame) pairs that map the file image, in frame order.
    pub fn file_mappings(&self) -> (r: Vec<(u64, u64)>)
        requires
            file_mappings_defined(*self),
        ensures
            r@ == spec_file_mappings(*self),
    {
        let mut r: Vec<(u64, u64)> = Vec::new();
        if !self.map_file || self.start_frame > self.end_frame {
            assert(r@ =~= spec_file_mappings(*self));
            return r;
        }
        let n = (self.end_frame - self.start_frame) / PAGE_SIZE;
        let mut i: u64 = 0;
        while i <= n
            invariant
                self.map_file,
                self.start_frame <= self.end_frame,
                n == (self.end_frame - self.start_frame) / (PAGE_SIZE as int),
                spec_file_frame_count(*self) == n + 1,
                file_mappings_defined(*self),
                i <= n + 1,
                r@ == spec_file_mappings(*self).subrange(0, i as int),
            decreases n + 1 - i,
        {
            assert(i * PAGE_SIZE <= self.end_frame - self.start_frame) by (nonlinear_arith)
                requires
                    i <= n,
                    n == (self.end_frame - self.start_frame) / 4096,
                    self.end_frame - self.start_frame >= 0,
            ;
            let frame = self.start_frame + i * PAGE_SIZE;
            assert(frame == spec_file_frame(*self, i as int));
            let page = self.page_for_frame(frame);
            r.push((page, frame));
            assert(r@ =~= spec_file_mappings(*self).subrange(0, i + 1));
            i = i + 1;
        }
        assert(spec_file_mappings(*self).subrange(0, i as int) =~= spec_file_mappings(*self));
        r
    }

    /// Whether the page of every file frame is defined.
    pub fn check_file_mappings(&self) -> (r: bool)
        ensures
            r == file_mappings_defined(*self),
    {
        if !self.map_file || self.start_frame > self.end_frame {
            return true;
        }
        let n = (self.end_frame - self.start_frame) / PAGE_SIZE;
        let mut i: u64 = 0;
        while i <= n
            invariant
                self.map_file,
                self.start_frame <= self.end_frame,
                n == (self.end_frame - self.start_frame) / (PAGE_SIZE as int),
                spec_file_frame_count(*self) == n + 1,
                i <= n + 1,
                forall|j: int|
                    0 <= j < i ==> file_page_defined(*self, #[trigger] spec_file_frame(*self, j)),
            decreases n + 1 - i,
        {
            assert(i * PAGE_SIZE <= self.end_frame - self.start_frame) by (nonlinear_arith)
                requires
                    i <= n,
                    n == (self.end_frame - self.start_frame) / 4096,
                    self.end_frame - self.start_frame >= 0,
            ;
            let frame = self.start_frame + i * PAGE_SIZE;
            assert(frame == spec_file_frame(*self, i as int));
            if !self.check_page_for_frame(frame) {
                return false;
            }
            i = i + 1;
        }
        true
    }
}

impl BssPlan {
    /// The pages to back with fresh frames, in the order a page walk visits them.
    pub fn fresh_pages(&self) -> (r: Vec<u64>)
        ensures
            r@ == spec_page_range(self.first_page, self.last_page),
    {
        page_range(self.first_page, self.last_page)
    }
}


proof fn lemma_page_run(first: u64, last: u64)
    requires
        first % PAGE_SIZE == 0,
    ensures
        ({
            let s = spec_page_run(first, last);
            &&& forall|i: int|
                0 <= i < s.len() ==> #[trigger] s[i] == first + i * 4096 && s[i] % PAGE_SIZE == 0
                    && first <= s[i] <= last
            &&& forall|p: u64|
                p % PAGE_SIZE == 0 && first <= p <= last ==> 0 <= (p - first) / 4096 < s.len()
                    && #[trigger] s[(p - first) / 4096] == p
        }),
{
    let s = spec_page_run(first, last);
    if first <= last {
        assert forall|i: int| 0 <= i < s.len() implies #[trigger] s[i] == first + i * 4096 && s[i]
            % PAGE_SIZE == 0 && first <= s[i] <= last by {
            assert(0 <= i * 4096 <= last - first && (first + i * 4096) % 4096 == 0)
                by (nonlinear_arith)
                requires
                    0 <= i < (last - first) / 4096 + 1,
                    first % 4096 == 0,
                    last - first >= 0,
            ;
        }
        assert forall|p: u64| p % PAGE_SIZE == 0 && first <= p <= last implies 0 <= (p - first)
            / 4096 < s.len() && #[trigger] s[(p - first) / 4096] == p by {
            let k = (p - first) / 4096;
            assert(0 <= k <= (last - first) / 4096 && first + k * 4096 == p) by (nonlinear_arith)
                requires
                    k == (p - first) / 4096,
                    p % 4096 == 0,
                    first % 4096 == 0,
                    first <= p <= last,
            ;
        }
    }
}

proof fn lemma_canonical_bounds(v: u64)
    ensures
        is_canonical(v) <==> (v <= 0x0000_7fff_ffff_ffffu64 || v >= HIGH_HALF_FIRST_PAGE),
{
    assert((v >> 47u64 == 0 || v >> 47u64 == 0x1ffffu64) <==> (v <= 0x0000_7fff_ffff_ffffu64 || v
        >= 0xffff_8000_0000_0000u64)) by (bit_vector);
}

/// Between two canonical page addresses, the page walk visits every canonical
/// page address once, in increasing order, and nothing else.
pub proof fn lemma_page_range(first: u64, last: u64)
    requires
        first % PAGE_SIZE == 0,
        last % PAGE_SIZE == 0,
        is_canonical(first),
        is_canonical(last),
    ensures
        ({
            let s = spec_page_range(first, last);
            &&& forall|i: int|
                0 <= i < s.len() ==> #[trigger] s[i] % PAGE_SIZE == 0 && is_canonical(s[i])
                    && first <= s[i] <= last
            &&& forall|i: int, j: int| 0 <= i < j < s.len() ==> #[trigger] s[i] < #[trigger] s[j]
            &&& forall|p: u64|
                p % PAGE_SIZE == 0 && is_canonical(p) && first <= p <= last ==> #[trigger] s.contains(
                    p,
                )
        }),
{
    let s = spec_page_range(first, last);
    lemma_canonical_bounds(first);
    lemma_canonical_bounds(last);
    assert forall|v: u64| #[trigger] is_canonical(v) <==> (v <= 0x0000_7fff_ffff_ffffu64 || v
        >= HIGH_HALF_FIRST_PAGE) by {
        lemma_canonical_bounds(v);
    }
    if first <= LOW_HALF_LAST_PAGE && HIGH_HALF_FIRST_PAGE <= last {
        let a = spec_page_run(first, LOW_HALF_LAST_PAGE);
        let b = spec_page_run(HIGH_HALF_FIRST_PAGE, last);
        lemma_page_run(first, LOW_HALF_LAST_PAGE);
        lemma_page_run(HIGH_HALF_FIRST_PAGE, last);
        assert forall|i: int| 0 <= i < s.len() implies #[trigger] s[i] % PAGE_SIZE == 0
            && is_canonical(s[i]) && first <= s[i] <= last by {
            if i < a.len() {
                assert(s[i] == a[i]);
            } else {
                assert(s[i] == b[i - a.len()]);
            }
        }
        assert forall|i: int, j: int| 0 <= i < j < s.len() implies #[trigger] s[i]
            < #[trigger] s[j] by {
            if j < a.len() {
                assert(s[i] == a[i] && s[j] == a[j]);
            } else if i >= a.len() {
                assert(s[i] == b[i - a.len()] && s[j] == b[j - a.len()]);
            } else {
                assert(s[i] == a[i] && s[j] == b[j - a.len()]);
            }
        }
        assert forall|p: u64| p % PAGE_SIZE == 0 && is_canonical(p) && first <= p <= last implies #[trigger] s.contains(p) by {
            if p <= 0x0000_7fff_ffff_ffffu64 {
                assert(p <= LOW_HALF_LAST_PAGE);
                let k = (p - first) / 4096;
                assert(s[k] == a[k]);
            } else {
                let k = (p - HIGH_HALF_FIRST_PAGE) / 4096;
                assert(s[a.len() + k] == b[k]);
            }
        }
    } else {
        lemma_page_run(first, last);
        if first <= last {
            assert(first <= 0x0000_7fff_ffff_ffffu64 ==> first <= LOW_HALF_LAST_PAGE);
            assert(last <= 0x0000_7fff_ffff_ffffu64 ==> last <= LOW_HALF_LAST_PAGE);
        }
        assert forall|p: u64| p % PAGE_SIZE == 0 && is_canonical(p) && first <= p <= last implies #[trigger] s.contains(p) by {
            let k = (p - first) / 4096;
            assert(s[k] == p);
        }
    }
}

/// A non-empty file image is mapped frame by frame from the start frame to the
/// end frame, one page per frame; an empty one maps nothing.
pub proof fn lemma_file_mappings_span(seg: ProgramSegment, kernel_start: u64)
    requires
        segment_plan_defined(seg, kernel_start),
    ensures
        ({
            let p = spec_plan_segment(seg, kernel_start);
            let n = spec_file_frame_count(p);
            &&& seg.file_size == 0 ==> n == 0
            &&& seg.file_size != 0 ==> {
                &&& n == (p.end_frame - p.start_frame) / (PAGE_SIZE as int) + 1
                &&& spec_file_mappings(p)[0] == (p.start_page, p.start_frame)
                &&& spec_file_frame(p, n - 1) == p.end_frame
            }
        }),
{
    let p = spec_plan_segment(seg, kernel_start);
    if seg.file_size != 0 {
        lemma_file_frames_cover_file_image(seg, kernel_start);
        lemma_first_file_frame_at_start_page(seg, kernel_start);
        let sf = p.start_frame;
        let ef = p.end_frame;
        let n = spec_file_frame_count(p);
        assert(sf + (n - 1) * 4096 == ef) by (nonlinear_arith)
            requires
                n == (ef - sf) / 4096 + 1,
                sf % 4096 == 0,
                ef % 4096 == 0,
                sf <= ef,
        ;
        assert(spec_file_frame(p, 0) == sf);
    }
}


/// The first and last fresh pages of a segment's `.bss` are canonical page
/// addresses, so its fresh pages are every canonical page between them, in
/// increasing order (`lemma_page_range`).
pub proof fn lemma_bss_fresh_pages(seg: ProgramSegment, kernel_start: u64)
    requires
        segment_plan_defined(seg, kernel_start),
        seg.mem_size > seg.file_size,
    ensures
        ({
            let b = spec_plan_segment(seg, kernel_start).bss->0;
            &&& b.first_page % PAGE_SIZE == 0
            &&& b.last_page % PAGE_SIZE == 0
            &&& is_canonical(b.first_page)
            &&& is_canonical(b.last_page)
        }),
{
    let p = spec_plan_segment(seg, kernel_start);
    let b = p.bss->0;
    let vs = p.virt_start;
    lemma_virt_addr_canonical((vs + seg.mem_size) as u64);
    lemma_virt_page_of_canonical(b.zero_end);
    let up = spec_align_up_page(b.zero_start) as u64;
    lemma_virt_addr_canonical(up);
    let w = spec_virt_addr(up)->0;
    lemma_virt_page_of_canonical(w);
    let x = b.zero_end & !0xfffu64;
    let y = w & !0xfffu64;
    assert(x & 0xfffu64 == 0 ==> x % 0x1000 == 0) by (bit_vector);
    assert(y & 0xfffu64 == 0 ==> y % 0x1000 == 0) by (bit_vector);
}

} // verus!
