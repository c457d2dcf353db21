use td_shim::segment::{check_segment_plan, plan_segment, virt_addr, BssPlan, ProgramSegment};

fn seg(offset: u64, virtual_addr: u64, file_size: u64, mem_size: u64) -> ProgramSegment {
    ProgramSegment {
        offset,
        virtual_addr,
        file_size,
        mem_size,
    }
}

#[test]
fn virt_addr_canonical_and_sign_extended() {
    assert_eq!(virt_addr(0x0000_7fff_ffff_f000), Some(0x0000_7fff_ffff_f000));
    assert_eq!(virt_addr(0xffff_ffff_8000_0000), Some(0xffff_ffff_8000_0000));
    assert_eq!(virt_addr(0x0000_8000_0000_1234), Some(0xffff_8000_0000_1234));
    assert_eq!(virt_addr(0x0001_0000_0000_0000), None);
    assert_eq!(virt_addr(0x8000_0000_0000_0000), None);
}

#[test]
fn plan_segment_with_bss_in_higher_half() {
    let s = seg(0x1234, 0xffff_ffff_8000_1234, 0x2000, 0x5000);
    let ks = 0x100_0000;
    assert!(check_segment_plan(&s, ks));
    let p = plan_segment(&s, ks);
    assert_eq!(p.phys_start, 0x100_1000);
    assert_eq!(p.virt_start, 0xffff_ffff_8000_1234);
    assert_eq!(p.start_page, 0xffff_ffff_8000_1000);
    assert_eq!(p.start_frame, 0x100_1000);
    assert_eq!(p.end_frame, 0x100_2000);
    assert!(p.map_file);
    assert_eq!(
        p.bss,
        Some(BssPlan {
            zero_start: 0xffff_ffff_8000_3234,
            zero_end: 0xffff_ffff_8000_6234,
            zero_len: 0x3000,
            copy_last_page: Some(0xffff_ffff_8000_3000),
            first_page: 0xffff_ffff_8000_4000,
            last_page: 0xffff_ffff_8000_6000,
        })
    );
    assert!(p.check_page_for_frame(0x100_1000));
    assert_eq!(p.page_for_frame(0x100_1000), 0xffff_ffff_8000_1000);
    assert!(p.check_page_for_frame(0x100_2000));
    assert_eq!(p.page_for_frame(0x100_2000), 0xffff_ffff_8000_2000);
    assert!(p.check_file_mappings());
    assert_eq!(
        p.file_mappings(),
        vec![
            (0xffff_ffff_8000_1000, 0x100_1000),
            (0xffff_ffff_8000_2000, 0x100_2000)
        ]
    );
    let b = p.bss.unwrap();
    assert_eq!(
        b.fresh_pages(),
        vec![0xffff_ffff_8000_4000, 0xffff_ffff_8000_5000, 0xffff_ffff_8000_6000]
    );
}

#[test]
fn empty_file_image_maps_no_frames() {
    let p = plan_segment(&seg(0, 0x40_0000, 0, 0x1000), 0x1000);
    assert!(p.check_file_mappings());
    assert!(p.file_mappings().is_empty());
}

#[test]
fn plan_segment_without_bss() {
    let s = seg(0x3000, 0x40_0000, 0x1800, 0x1800);
    let p = plan_segment(&s, 0x20_0000);
    assert_eq!(p.phys_start, 0x20_3000);
    assert_eq!(p.start_frame, 0x20_3000);
    assert_eq!(p.end_frame, 0x20_4000);
    assert_eq!(p.start_page, 0x40_0000);
    assert!(p.map_file);
    assert_eq!(p.bss, None);
}

#[test]
fn plan_segment_empty_file_image_page_aligned_bss() {
    let s = seg(0, 0x40_0000, 0, 0x2100);
    assert!(check_segment_plan(&s, 0x1000));
    let p = plan_segment(&s, 0x1000);
    assert!(!p.map_file);
    let b = p.bss.unwrap();
    assert_eq!(b.zero_start, 0x40_0000);
    assert_eq!(b.zero_len, 0x2100);
    assert_eq!(b.copy_last_page, None);
    assert_eq!(b.first_page, 0x40_0000);
    assert_eq!(b.last_page, 0x40_2000);
}

#[test]
fn plan_segment_sign_extends_virtual_address() {
    let s = seg(0, 0x0000_8000_0000_0000, 0x10, 0x10);
    assert!(check_segment_plan(&s, 0x1000));
    let p = plan_segment(&s, 0x1000);
    assert_eq!(p.virt_start, 0xffff_8000_0000_0000);
    assert_eq!(p.start_page, 0xffff_8000_0000_0000);
    assert_eq!(p.end_frame, 0x1000);
}

#[test]
fn file_page_crossing_into_higher_half_is_sign_extended() {
    let s = seg(0, 0x0000_7fff_ffff_f000, 0x2000, 0x2000);
    let p = plan_segment(&s, 0x10_0000);
    assert_eq!(p.start_frame, 0x10_0000);
    assert_eq!(p.end_frame, 0x10_1000);
    assert_eq!(p.page_for_frame(0x10_0000), 0x0000_7fff_ffff_f000);
    assert!(p.check_page_for_frame(0x10_1000));
    assert_eq!(p.page_for_frame(0x10_1000), 0xffff_8000_0000_0000);
    assert!(!p.check_page_for_frame(0x1_0000_0010_0000));
    assert!(!p.check_page_for_frame(0xf_0000));
}

#[test]
fn check_segment_plan_rejects_non_canonical_address() {
    assert!(!check_segment_plan(&seg(0, 0x0001_0000_0000_0000, 0x10, 0x10), 0x1000));
}

#[test]
fn check_segment_plan_rejects_physical_address_past_52_bits() {
    assert!(!check_segment_plan(&seg(0x1000, 0x40_0000, 0x10, 0x10), 0xf_ffff_ffff_f000));
    assert!(!check_segment_plan(&seg(0, 0x40_0000, 0x10, 0x10), 0xf_ffff_ffff_f000));
    assert!(check_segment_plan(&seg(0, 0x40_0000, 0x10, 0x10), 0xf_ffff_ffff_e000));
}

#[test]
fn check_segment_plan_rejects_empty_image_at_zero() {
    assert!(!check_segment_plan(&seg(0, 0x40_0000, 0, 0), 0));
    assert!(check_segment_plan(&seg(0, 0x40_0000, 0, 0), 0x1000));
}

#[test]
fn check_segment_plan_rejects_bss_past_the_top() {
    assert!(!check_segment_plan(&seg(0, 0xffff_ffff_ffff_f000, 0x10, 0x20), 0x1000));
    assert!(!check_segment_plan(&seg(0, 0xffff_ffff_ffff_f000, 0x10, 0x1000), 0x1000));
    assert!(check_segment_plan(&seg(0, 0xffff_ffff_ffff_e000, 0x10, 0x20), 0x1000));
}
