//! Model of one process's address space: a page table keyed by page number
//! whose entries each own the bytes of their frame.
use vstd::prelude::*;

use vstd::hash_map::HashMapWithView;

use crate::address::{
    floor_spec, lemma_page_join, page_offset_spec, PageRange,
};
use crate::config::PAGE_SIZE;
use crate::flags::ProtectionFlags;

verus! {

/// Abstract content of one mapped page.
pub ghost struct PageState {
    pub flags: ProtectionFlags,
    pub data: Seq<u8>,
}

/// The bytes of a freshly mapped page.
pub open spec fn zero_page() -> Seq<u8> {
    Seq::new(PAGE_SIZE as nat, |i: int| 0u8)
}

/// `m` after mapping every page of `r` to a zeroed frame with flags `f`.
pub open spec fn with_range_mapped(
    m: Map<usize, PageState>,
    r: PageRange,
    f: ProtectionFlags,
) -> Map<usize, PageState> {
    Map::new(
        |v: usize| m.contains_key(v) || r.contains_spec(v as int),
        |v: usize|
            if r.contains_spec(v as int) {
                PageState { flags: f, data: zero_page() }
            } else {
                m[v]
            },
    )
}

/// `m` after removing every page of `r`.
pub open spec fn without_range(m: Map<usize, PageState>, r: PageRange) -> Map<usize, PageState> {
    Map::new(|v: usize| m.contains_key(v) && !r.contains_spec(v as int), |v: usize| m[v])
}

/// Page number of address `a`, as a key of the page table.
pub open spec fn page_key(a: int) -> usize {
    floor_spec(a) as usize
}

/// Whether the page holding address `a` is mapped in `m`.
pub open spec fn page_present(m: Map<usize, PageState>, a: int) -> bool {
    m.contains_key(page_key(a))
}

/// Byte stored at user address `a` of `m` (meaningful when its page is present).
pub open spec fn byte_at(m: Map<usize, PageState>, a: int) -> u8 {
    m[page_key(a)].data[page_offset_spec(a)]
}

/// The `len` user bytes of `m` starting at `va`.
pub open spec fn user_bytes(m: Map<usize, PageState>, va: int, len: nat) -> Seq<u8> {
    Seq::new(len, |i: int| byte_at(m, va + i))
}

/// One page table entry: its flags and the bytes of its frame.
pub struct PageEntry {
    pub flags: ProtectionFlags,
    pub frame: Vec<u8>,
}

/// Abstract content of an entry.
pub open spec fn entry_state(e: PageEntry) -> PageState {
    PageState { flags: e.flags, data: e.frame@ }
}

/// Page table of one address space.
pub struct AddressSpace {
    pages: HashMapWithView<usize, PageEntry>,
}

impl View for AddressSpace {
    type V = Map<usize, PageState>;

    closed spec fn view(&self) -> Map<usize, PageState> {
        self.pages@.map_values(|e: PageEntry| entry_state(e))
    }
}

/// A zero-filled frame.
fn zeroed_frame() -> (r: Vec<u8>)
    ensures
        r@ == zero_page(),
{
    let mut v: Vec<u8> = Vec::new();
    let mut i: usize = 0;
    while i < PAGE_SIZE
        invariant
            i <= PAGE_SIZE,
            v@ == Seq::new(i as nat, |k: int| 0u8),
        decreases PAGE_SIZE - i,
    {
        v.push(0u8);
        i = i + 1;
        assert(v@ =~= Seq::new(i as nat, |k: int| 0u8));
    }
    v
}

impl AddressSpace {
    /// Every mapped page holds exactly one page of bytes.
    pub open spec fn wf(&self) -> bool {
        forall|v: usize| #[trigger] self@.contains_key(v) ==> self@[v].data.len() == PAGE_SIZE
    }

    /// An address space with nothing mapped.
    pub fn new() -> (r: AddressSpace)
        ensures
            r.wf(),
            r@ == Map::<usize, PageState>::empty(),
    {
        let r = AddressSpace { pages: HashMapWithView::new() };
        assert(r@ =~= Map::<usize, PageState>::empty());
        r
    }

    /// Whether page `vpn` is mapped.
    pub fn is_mapped(&self, vpn: usize) -> (r: bool)
        ensures
            r == self@.contains_key(vpn),
    {
        self.pages.contains_key(&vpn)
    }

    /// Flags of page `vpn`, if it is mapped.
    pub fn page_flags(&self, vpn: usize) -> (r: Option<ProtectionFlags>)
        ensures
            r == (if self@.contains_key(vpn) {
                Some(self@[vpn].flags)
            } else {
                None::<ProtectionFlags>
            }),
    {
        match self.pages.get(&vpn) {
            Some(e) => Some(e.flags),
            None => None,
        }
    }

    /// Maps every page of `range` to a fresh zeroed frame with `flags`.
    pub fn insert_mapping(&mut self, range: PageRange, flags: ProtectionFlags)
        requires
            old(self).wf(),
            range.wf(),
        ensures
            final(self).wf(),
            final(self)@ == with_range_mapped(old(self)@, range, flags),
    {
        let mut vpn = range.start;
        assert(self@ =~= with_range_mapped(old(self)@, PageRange { start: range.start, end: vpn }, flags));
        while vpn < range.end
            invariant
                range.start <= vpn <= range.end,
                self.wf(),
                self@ == with_range_mapped(old(self)@, PageRange { start: range.start, end: vpn }, flags),
            decreases range.end - vpn,
        {
            let frame = zeroed_frame();
            let ghost before = self@;
            let e = PageEntry { flags, frame };
            self.pages.insert(vpn, e);
            assert(self@ =~= before.insert(vpn, PageState { flags, data: zero_page() }));
            vpn = vpn + 1;
            assert(self@ =~= with_range_mapped(old(self)@, PageRange { start: range.start, end: vpn }, flags));
        }
    }

    /// Removes every page of `range` from the table.
    pub fn remove_mapping(&mut self, range: PageRange)
        requires
            old(self).wf(),
            range.wf(),
        ensures
            final(self).wf(),
            final(self)@ == without_range(old(self)@, range),
    {
        let mut vpn = range.start;
        assert(self@ =~= without_range(old(self)@, PageRange { start: range.start, end: vpn }));
        while vpn < range.end
            invariant
                range.start <= vpn <= range.end,
                self.wf(),
                self@ == without_range(old(self)@, PageRange { start: range.start, end: vpn }),
            decreases range.end - vpn,
        {
            let ghost before = self@;
            let _ = self.pages.remove(&vpn);
            assert(self@ =~= before.remove(vpn));
            vpn = vpn + 1;
            assert(self@ =~= without_range(old(self)@, PageRange { start: range.start, end: vpn }));
        }
    }

    /// Byte at user address `va`, or `None` when its page is not mapped.
    pub fn read_byte(&self, va: usize) -> (r: Option<u8>)
        requires
            self.wf(),
        ensures
            r == (if page_present(self@, va as int) {
                Some(byte_at(self@, va as int))
            } else {
                None::<u8>
            }),
    {
        let vpn = va / PAGE_SIZE;
        let off = va % PAGE_SIZE;
        match self.pages.get(&vpn) {
            Some(e) => {
                assert(self@.contains_key(vpn));
                assert(self@[vpn] == entry_state(*e));
                Some(e.frame[off])
            },
            None => None,
        }
    }

    /// Stores `b` at user address `va`, whose page must be mapped.
    pub fn write_byte(&mut self, va: usize, b: u8)
        requires
            old(self).wf(),
            page_present(old(self)@, va as int),
        ensures
            final(self).wf(),
            final(self)@ == old(self)@.insert(
                page_key(va as int),
                PageState {
                    flags: old(self)@[page_key(va as int)].flags,
                    data: old(self)@[page_key(va as int)].data.update(page_offset_spec(va as int), b),
                },
            ),
    {
        let vpn = va / PAGE_SIZE;
        let off = va % PAGE_SIZE;
        let ghost before = self@;
        let removed = self.pages.remove(&vpn);
        match removed {
            Some(e) => {
                assert(before[vpn] == entry_state(e));
                let mut e = e;
                e.frame[off] = b;
                self.pages.insert(vpn, e);
                assert(self@ =~= before.insert(
                    vpn,
                    PageState { flags: before[vpn].flags, data: before[vpn].data.update(off as int, b) },
                ));
            },
            None => {},
        }
    }
}

/// The page number of an address is a valid key.
pub proof fn lemma_floor_fits(a: int)
    requires
        0 <= a <= usize::MAX,
    ensures
        0 <= floor_spec(a) <= a,
        page_key(a) as int == floor_spec(a),
{
    lemma_page_join(a);
    let f = floor_spec(a);
    assert(0 <= f <= a) by (nonlinear_arith)
        requires
            a == f * 4096 + page_offset_spec(a),
            0 <= page_offset_spec(a) < 4096,
            0 <= a,
    ;
}

} // verus!
