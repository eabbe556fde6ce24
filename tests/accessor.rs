use os_core::accessor::{copy_to_user, translate_user_range, UserSlice};
use os_core::region::{map_region, MemoryError};
use os_core::space::AddressSpace;

#[test]
fn single_page_gives_one_slice() {
    let mut s = AddressSpace::new();
    assert_eq!(map_region(&mut s, 0x1000, 0x1000, 0b011), Ok(()));
    let segs = translate_user_range(&s, 0x1010, 16).unwrap();
    assert_eq!(segs, vec![UserSlice { vpn: 1, offset: 0x10, len: 16 }]);
}

#[test]
fn straddling_range_gives_two_slices() {
    let mut s = AddressSpace::new();
    assert_eq!(map_region(&mut s, 0x1000, 0x2000, 0b011), Ok(()));
    let segs = translate_user_range(&s, 0x2000 - 4, 16).unwrap();
    assert_eq!(
        segs,
        vec![UserSlice { vpn: 1, offset: 0xffc, len: 4 }, UserSlice { vpn: 2, offset: 0, len: 12 }]
    );
}

#[test]
fn unwritable_or_unmapped_is_invalid_pointer() {
    let mut s = AddressSpace::new();
    assert_eq!(map_region(&mut s, 0x1000, 0x1000, 0b001), Ok(()));
    assert_eq!(translate_user_range(&s, 0x1000, 4), Err(MemoryError::InvalidUserPointer));
    assert_eq!(translate_user_range(&s, 0x5000, 4), Err(MemoryError::InvalidUserPointer));
    assert_eq!(translate_user_range(&s, 0x5000, 0), Ok(vec![]));
}

#[test]
fn copy_straddling_reads_back_same_as_inside() {
    let mut s = AddressSpace::new();
    assert_eq!(map_region(&mut s, 0x1000, 0x2000, 0b011), Ok(()));
    let bytes: Vec<u8> = (1..=16).collect();
    assert_eq!(copy_to_user(&mut s, 0x2000 - 4, &bytes), Ok(()));
    assert_eq!(copy_to_user(&mut s, 0x1200, &bytes), Ok(()));
    let a: Vec<u8> = (0..16).map(|i| s.read_byte(0x2000 - 4 + i).unwrap()).collect();
    let b: Vec<u8> = (0..16).map(|i| s.read_byte(0x1200 + i).unwrap()).collect();
    assert_eq!(a, bytes);
    assert_eq!(b, bytes);
    assert_eq!(s.read_byte(0x2000 - 5), Some(0));
    assert_eq!(s.read_byte(0x2000 + 12), Some(0));
}

#[test]
fn failed_copy_changes_nothing() {
    let mut s = AddressSpace::new();
    assert_eq!(map_region(&mut s, 0x1000, 0x1000, 0b011), Ok(()));
    let bytes = vec![9u8; 16];
    assert_eq!(copy_to_user(&mut s, 0x2000 - 4, &bytes), Err(MemoryError::InvalidUserPointer));
    assert_eq!(s.read_byte(0x2000 - 4), Some(0));
}
