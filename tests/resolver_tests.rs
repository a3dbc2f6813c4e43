use storvsp_engine::resolver::{contiguous, page_add, resolve, Access, GuestMemory, MemoryDescriptor, RangeError};

#[test]
fn page_add_counts_pages() {
    assert_eq!(page_add(0, 0), Some(0));
    assert_eq!(page_add(0, 1), Some(1));
    assert_eq!(page_add(0, 4096), Some(1));
    assert_eq!(page_add(1, 4096), Some(2));
    assert_eq!(page_add(4095, 2), Some(2));
    assert_eq!(page_add(u64::MAX, 1), None);
    assert_eq!(page_add(u64::MAX - 4096, 1), None);
}

#[test]
fn resolve_within_bounds_gives_exact_length() {
    let d = MemoryDescriptor { offset: 100, len: 3 * 4096 - 100, gpns: vec![0, 1, 2] };
    let r = resolve(&d, GuestMemory { page_count: 3 }, Access::Write).expect("in bounds");
    assert_eq!(r.len, 3 * 4096 - 100);
    assert_eq!(r.offset, 100);
    assert_eq!(r.gpns, vec![0, 1, 2]);
    assert_eq!(r.access, Access::Write);
}

#[test]
fn resolve_refuses_length_past_pages() {
    let d = MemoryDescriptor { offset: 1, len: 2 * 4096, gpns: vec![0, 1] };
    assert_eq!(resolve(&d, GuestMemory { page_count: 8 }, Access::Read).unwrap_err(), RangeError::LengthExceedsPages);
    let d = MemoryDescriptor { offset: 0, len: 1, gpns: vec![] };
    assert_eq!(resolve(&d, GuestMemory { page_count: 8 }, Access::Read).unwrap_err(), RangeError::LengthExceedsPages);
}

#[test]
fn resolve_refuses_offset_outside_first_page() {
    let d = MemoryDescriptor { offset: 4096, len: 0, gpns: vec![0, 1] };
    assert_eq!(resolve(&d, GuestMemory { page_count: 8 }, Access::Read).unwrap_err(), RangeError::OffsetOutOfPage);
}

#[test]
fn resolve_names_first_unmapped_page() {
    let d = MemoryDescriptor { offset: 0, len: 4096, gpns: vec![3, 9, 12] };
    assert_eq!(resolve(&d, GuestMemory { page_count: 8 }, Access::Read).unwrap_err(), RangeError::PageNotMapped(1));
}

#[test]
fn contiguous_descriptor_covers_range() {
    let d = contiguous(5 * 4096 + 10, 8192);
    assert_eq!(d.offset, 10);
    assert_eq!(d.len, 8192);
    assert_eq!(d.gpns, vec![5, 6, 7]);
    let top = contiguous(u64::MAX, 2);
    assert_eq!(top.offset, 4095);
    assert_eq!(top.gpns, vec![u64::MAX / 4096, u64::MAX / 4096 + 1]);
}
