use os_core::region::{map_region, unmap_region, MemoryError};
use os_core::space::AddressSpace;
use os_core::flags::ProtectionFlags;

#[test]
fn map_then_unmap_restores_space() {
    let mut s = AddressSpace::new();
    assert_eq!(map_region(&mut s, 0x3000, 0x1800, 0b101), Ok(()));
    assert!(s.is_mapped(3));
    assert!(s.is_mapped(4));
    assert!(!s.is_mapped(5));
    assert_eq!(unmap_region(&mut s, 0x3000, 0x1800), Ok(()));
    for vpn in 0..8 {
        assert!(!s.is_mapped(vpn));
    }
}

#[test]
fn map_sets_requested_flags() {
    let mut s = AddressSpace::new();
    assert_eq!(map_region(&mut s, 0x1000, 1, 0b110), Ok(()));
    assert_eq!(
        s.page_flags(1),
        Some(ProtectionFlags { readable: false, writable: true, executable: true, user: true })
    );
    assert_eq!(s.page_flags(2), None);
    assert_eq!(s.read_byte(0x1fff), Some(0));
}

#[test]
fn map_zero_protection_rejected() {
    let mut s = AddressSpace::new();
    assert_eq!(map_region(&mut s, 0x1000, 0x1000, 0), Err(MemoryError::InvalidProtection));
    assert_eq!(map_region(&mut s, 4097, 5, 0), Err(MemoryError::InvalidProtection));
    assert!(!s.is_mapped(1));
}

#[test]
fn map_high_bits_rejected() {
    let mut s = AddressSpace::new();
    assert_eq!(map_region(&mut s, 0x1000, 0x1000, 8), Err(MemoryError::InvalidProtection));
    assert_eq!(map_region(&mut s, 0x1000, 0x1000, 15), Err(MemoryError::InvalidProtection));
    assert!(!s.is_mapped(1));
}

#[test]
fn map_overlap_rejected_without_change() {
    let mut s = AddressSpace::new();
    assert_eq!(map_region(&mut s, 0x4000, 0x1000, 0b001), Ok(()));
    assert_eq!(map_region(&mut s, 0x2000, 0x3000, 0b011), Err(MemoryError::OverlapDetected));
    assert!(!s.is_mapped(2));
    assert!(!s.is_mapped(3));
    assert!(s.is_mapped(4));
    assert_eq!(
        s.page_flags(4),
        Some(ProtectionFlags { readable: true, writable: false, executable: false, user: true })
    );
}

#[test]
fn unmap_gap_rejected_without_change() {
    let mut s = AddressSpace::new();
    assert_eq!(map_region(&mut s, 0x1000, 0x1000, 0b011), Ok(()));
    assert_eq!(map_region(&mut s, 0x3000, 0x1000, 0b011), Ok(()));
    assert_eq!(unmap_region(&mut s, 0x1000, 0x3000), Err(MemoryError::UnmappedRegion));
    assert!(s.is_mapped(1));
    assert!(!s.is_mapped(2));
    assert!(s.is_mapped(3));
}

#[test]
fn misaligned_start_rejected() {
    let mut s = AddressSpace::new();
    assert_eq!(map_region(&mut s, 4097, 0x1000, 0b011), Err(MemoryError::MisalignedAddress));
    assert_eq!(unmap_region(&mut s, 4097, 0x1000), Err(MemoryError::MisalignedAddress));
    assert!(!s.is_mapped(1));
}

#[test]
fn zero_length_touches_nothing() {
    let mut s = AddressSpace::new();
    assert_eq!(map_region(&mut s, 0x5000, 0, 0b001), Ok(()));
    assert!(!s.is_mapped(5));
    assert_eq!(unmap_region(&mut s, 0x5000, 0), Ok(()));
}

#[test]
fn range_rounds_end_up() {
    let mut s = AddressSpace::new();
    assert_eq!(map_region(&mut s, 0x1000, 0x1001, 0b001), Ok(()));
    assert!(s.is_mapped(1));
    assert!(s.is_mapped(2));
    assert!(!s.is_mapped(3));
}

#[test]
fn largest_start_does_not_overflow() {
    let mut s = AddressSpace::new();
    let start = usize::MAX - 0xfff;
    assert_eq!(map_region(&mut s, start, 0x1000, 0b001), Ok(()));
    assert!(s.is_mapped(usize::MAX / 4096));
    assert_eq!(unmap_region(&mut s, start, 0x1000), Ok(()));
    assert!(!s.is_mapped(usize::MAX / 4096));
}
