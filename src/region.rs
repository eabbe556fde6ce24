//! Validation and application of anonymous mapping requests.
use vstd::prelude::*;

use crate::address::{aligned, aligned_spec, ceil_spec, floor_spec, PageRange};
use crate::flags::{flags_of, lemma_high_bits, protection_ok, valid_protection, ProtectionFlags};
use crate::space::{with_range_mapped, without_range, AddressSpace, PageState};

verus! {

/// Why a memory request was refused.
#[derive(Clone, Copy, Debug, PartialEq, Eq, Structural)]
pub enum MemoryError {
    MisalignedAddress,
    InvalidProtection,
    OverlapDetected,
    UnmappedRegion,
    InvalidUserPointer,
}

/// Pages covered by `[start, start + len)`: from `floor(start)` to `ceil(start + len)`.
pub open spec fn range_of(start: usize, len: usize) -> PageRange {
    PageRange {
        start: floor_spec(start as int) as usize,
        end: ceil_spec(start as int + len as int) as usize,
    }
}

/// Whether some page of `r` is mapped in `m`.
pub open spec fn any_mapped(m: Map<usize, PageState>, r: PageRange) -> bool {
    exists|v: usize| r.contains_spec(v as int) && #[trigger] m.contains_key(v)
}

/// Whether every page of `r` is mapped in `m`.
pub open spec fn all_mapped(m: Map<usize, PageState>, r: PageRange) -> bool {
    forall|v: usize| r.contains_spec(v as int) ==> #[trigger] m.contains_key(v)
}

/// Result and resulting page table of a mapping request on `m`.
pub open spec fn map_outcome(m: Map<usize, PageState>, start: usize, len: usize, prot: usize) -> (
    Result<(), MemoryError>,
    Map<usize, PageState>,
) {
    if !valid_protection(prot as int) {
        (Err(MemoryError::InvalidProtection), m)
    } else if !aligned_spec(start as int) {
        (Err(MemoryError::MisalignedAddress), m)
    } else if any_mapped(m, range_of(start, len)) {
        (Err(MemoryError::OverlapDetected), m)
    } else {
        (Ok(()), with_range_mapped(m, range_of(start, len), flags_of(prot)))
    }
}

/// Result and resulting page table of an unmapping request on `m`.
pub open spec fn unmap_outcome(m: Map<usize, PageState>, start: usize, len: usize) -> (
    Result<(), MemoryError>,
    Map<usize, PageState>,
) {
    if !aligned_spec(start as int) {
        (Err(MemoryError::MisalignedAddress), m)
    } else if !all_mapped(m, range_of(start, len)) {
        (Err(MemoryError::UnmappedRegion), m)
    } else {
        (Ok(()), without_range(m, range_of(start, len)))
    }
}

/// Maps `[start, start + len)` with the rights in `prot`; a refused request
/// leaves the page table untouched.
pub fn map_region(space: &mut AddressSpace, start: usize, len: usize, prot: usize) -> (r: Result<
    (),
    MemoryError,
>)
    requires
        old(space).wf(),
    ensures
        final(space).wf(),
        (r, final(space)@) == map_outcome(old(space)@, start, len, prot),
{
    if !protection_ok(prot) {
        return Err(MemoryError::InvalidProtection);
    }
    if !aligned(start) {
        return Err(MemoryError::MisalignedAddress);
    }
    let range = PageRange::covering(start, len);
    assert(range == range_of(start, len));
    let mut vpn = range.start;
    while vpn < range.end
        invariant
            range.start <= vpn <= range.end,
            range == range_of(start, len),
            aligned_spec(start as int),
            valid_protection(prot as int),
            space.wf(),
            space@ == old(space)@,
            forall|v: usize| range.start <= v < vpn ==> !(#[trigger] space@.contains_key(v)),
        decreases range.end - vpn,
    {
        if space.is_mapped(vpn) {
            assert(any_mapped(old(space)@, range_of(start, len)));
            return Err(MemoryError::OverlapDetected);
        }
        vpn = vpn + 1;
    }
    let flags = ProtectionFlags::from_request(prot);
    space.insert_mapping(range, flags);
    Ok(())
}

/// Unmaps `[start, start + len)`; every page must be mapped, and a refused
/// request leaves the page table untouched.
pub fn unmap_region(space: &mut AddressSpace, start: usize, len: usize) -> (r: Result<
    (),
    MemoryError,
>)
    requires
        old(space).wf(),
    ensures
        final(space).wf(),
        (r, final(space)@) == unmap_outcome(old(space)@, start, len),
{
    if !aligned(start) {
        return Err(MemoryError::MisalignedAddress);
    }
    let range = PageRange::covering(start, len);
    assert(range == range_of(start, len));
    let mut vpn = range.start;
    while vpn < range.end
        invariant
            range.start <= vpn <= range.end,
            range == range_of(start, len),
            aligned_spec(start as int),
            space.wf(),
            space@ == old(space)@,
            forall|v: usize| range.start <= v < vpn ==> #[trigger] space@.contains_key(v),
        decreases range.end - vpn,
    {
        if !space.is_mapped(vpn) {
            assert(!all_mapped(old(space)@, range_of(start, len)));
            return Err(MemoryError::UnmappedRegion);
        }
        vpn = vpn + 1;
    }
    space.remove_mapping(range);
    Ok(())
}

/// Mapping a free range and then unmapping the same range both succeed, and
/// afterwards no page of the range is mapped: the table is back where it was.
pub proof fn lemma_map_then_unmap(m: Map<usize, PageState>, start: usize, len: usize, prot: usize)
    requires
        aligned_spec(start as int),
        len > 0,
        1 <= prot <= 7,
        !any_mapped(m, range_of(start, len)),
    ensures
        map_outcome(m, start, len, prot).0 == Ok::<(), MemoryError>(()),
        unmap_outcome(map_outcome(m, start, len, prot).1, start, len).0 == Ok::<(), MemoryError>(()),
        forall|v: usize|
            range_of(start, len).contains_spec(v as int) ==> !(#[trigger] unmap_outcome(
                map_outcome(m, start, len, prot).1,
                start,
                len,
            ).1.contains_key(v)),
        unmap_outcome(map_outcome(m, start, len, prot).1, start, len).1 == m,
{
    let m1 = map_outcome(m, start, len, prot).1;
    let m2 = unmap_outcome(m1, start, len).1;
    assert(all_mapped(m1, range_of(start, len)));
    assert(m2 =~= m);
}

/// A request for no access rights at all is refused, whatever the range.
pub proof fn lemma_map_zero_protection(m: Map<usize, PageState>, start: usize, len: usize)
    ensures
        map_outcome(m, start, len, 0) == (Err::<(), MemoryError>(MemoryError::InvalidProtection), m),
{
}

/// A request with any bit at position 3 or above is refused, whatever the range.
pub proof fn lemma_map_high_bits(m: Map<usize, PageState>, start: usize, len: usize, prot: usize)
    requires
        prot & !7usize != 0,
    ensures
        map_outcome(m, start, len, prot) == (Err::<(), MemoryError>(MemoryError::InvalidProtection), m),
{
    lemma_high_bits(prot);
}

/// Mapping over a range with one page already mapped is refused and changes nothing.
pub proof fn lemma_map_overlap(
    m: Map<usize, PageState>,
    start: usize,
    len: usize,
    prot: usize,
    vpn: usize,
)
    requires
        1 <= prot <= 7,
        aligned_spec(start as int),
        range_of(start, len).contains_spec(vpn as int),
        m.contains_key(vpn),
    ensures
        map_outcome(m, start, len, prot) == (Err::<(), MemoryError>(MemoryError::OverlapDetected), m),
{
    assert(any_mapped(m, range_of(start, len)));
}

/// Unmapping a range with one page not mapped is refused and changes nothing.
pub proof fn lemma_unmap_gap(m: Map<usize, PageState>, start: usize, len: usize, vpn: usize)
    requires
        aligned_spec(start as int),
        range_of(start, len).contains_spec(vpn as int),
        !m.contains_key(vpn),
    ensures
        unmap_outcome(m, start, len) == (Err::<(), MemoryError>(MemoryError::UnmappedRegion), m),
{
}

/// A start that is not page-aligned is refused by both requests and changes
/// nothing (for a mapping, once its protection mask is acceptable).
pub proof fn lemma_misaligned(m: Map<usize, PageState>, start: usize, len: usize, prot: usize)
    requires
        !aligned_spec(start as int),
        1 <= prot <= 7,
    ensures
        map_outcome(m, start, len, prot) == (Err::<(), MemoryError>(MemoryError::MisalignedAddress), m),
        unmap_outcome(m, start, len) == (Err::<(), MemoryError>(MemoryError::MisalignedAddress), m),
{
}

} // verus!
