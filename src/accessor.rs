//! Transfer of kernel bytes into a user range that may span several pages.
use vstd::prelude::*;

use crate::address::{lemma_page_join, lemma_page_split, page_offset_spec};
use crate::config::PAGE_SIZE;
use crate::region::MemoryError;
use crate::space::{
    lemma_floor_fits, page_key, page_present, user_bytes, AddressSpace, PageState,
};

verus! {

/// A run of bytes inside one user page: `len` bytes from `offset` of page `vpn`.
#[derive(Clone, Copy, Debug, PartialEq, Eq, Structural)]
pub struct UserSlice {
    pub vpn: usize,
    pub offset: usize,
    pub len: usize,
}

/// User addresses covered by slice `s`, in order.
pub open spec fn slice_addrs(s: UserSlice) -> Seq<int> {
    Seq::new(s.len as nat, |j: int| s.vpn * PAGE_SIZE + s.offset + j)
}

/// User addresses covered by `segs`, one slice after the other.
pub open spec fn flatten(segs: Seq<UserSlice>) -> Seq<int>
    decreases segs.len(),
{
    if segs.len() == 0 {
        Seq::empty()
    } else {
        flatten(segs.drop_last()) + slice_addrs(segs.last())
    }
}

/// The consecutive addresses `[va, va + len)`.
pub open spec fn span(va: int, len: nat) -> Seq<int> {
    Seq::new(len, |i: int| va + i)
}

/// Whether user code may write the byte at address `a` of `m`.
pub open spec fn byte_writable(m: Map<usize, PageState>, a: int) -> bool {
    page_present(m, a) && m[page_key(a)].flags.user_writable_spec()
}

/// Whether every byte of `[va, va + len)` exists and is writable by user code in `m`.
pub open spec fn range_writable(m: Map<usize, PageState>, va: int, len: nat) -> bool {
    va + len <= usize::MAX + 1 && forall|i: int| 0 <= i < len ==> #[trigger] byte_writable(m, va + i)
}

/// Whether slice `s` lies inside one writable user page of `m`.
pub open spec fn slice_ok(m: Map<usize, PageState>, s: UserSlice) -> bool {
    &&& 0 < s.len
    &&& s.offset + s.len <= PAGE_SIZE
    &&& m.contains_key(s.vpn)
    &&& m[s.vpn].flags.user_writable_spec()
}

/// `m` after storing `bytes` from user address `va` on.
pub open spec fn written(m: Map<usize, PageState>, va: int, bytes: Seq<u8>) -> Map<usize, PageState> {
    Map::new(
        |v: usize| m.contains_key(v),
        |v: usize|
            PageState {
                flags: m[v].flags,
                data: Seq::new(
                    m[v].data.len(),
                    |o: int|
                        if va <= v * PAGE_SIZE + o < va + bytes.len() {
                            bytes[v * PAGE_SIZE + o - va]
                        } else {
                            m[v].data[o]
                        },
                ),
            },
    )
}

/// The addresses of the first `s` slices come first among those of all slices.
proof fn lemma_flatten_prefix(segs: Seq<UserSlice>, s: int)
    requires
        0 <= s <= segs.len(),
    ensures
        flatten(segs.take(s)).len() <= flatten(segs).len(),
        forall|i: int|
            0 <= i < flatten(segs.take(s)).len() ==> #[trigger] flatten(segs.take(s))[i]
                == flatten(segs)[i],
    decreases segs.len(),
{
    if s == segs.len() {
        assert(segs.take(s) =~= segs);
    } else {
        lemma_flatten_prefix(segs.drop_last(), s);
        assert(segs.drop_last().take(s) =~= segs.take(s));
    }
}

/// The slices up to `s + 1` are those up to `s` followed by slice `s`.
proof fn lemma_flatten_step(segs: Seq<UserSlice>, s: int)
    requires
        0 <= s < segs.len(),
    ensures
        flatten(segs.take(s + 1)) == flatten(segs.take(s)) + slice_addrs(segs[s]),
{
    assert(segs.take(s + 1).drop_last() =~= segs.take(s));
}

/// Splits the user range `[va, va + len)` of `space` into per-page slices whose
/// addresses, in order, are exactly that range; refused when any byte of it is
/// unmapped or not writable by user code. Nothing is mapped or unmapped.
pub fn translate_user_range(space: &AddressSpace, va: usize, len: usize) -> (r: Result<
    Vec<UserSlice>,
    MemoryError,
>)
    requires
        space.wf(),
    ensures
        r is Err <==> !range_writable(space@, va as int, len as nat),
        r is Err ==> r == Err::<Vec<UserSlice>, MemoryError>(MemoryError::InvalidUserPointer),
        r is Ok ==> flatten(r->Ok_0@) == span(va as int, len as nat),
        r is Ok ==> forall|k: int|
            0 <= k < r->Ok_0@.len() ==> slice_ok(space@, #[trigger] r->Ok_0@[k]),
{
    if len > 0 && len - 1 > usize::MAX - va {
        return Err(MemoryError::InvalidUserPointer);
    }
    let mut segs: Vec<UserSlice> = Vec::new();
    let mut done: usize = 0;
    assert(flatten(segs@) =~= span(va as int, 0));
    while done < len
        invariant
            done <= len,
            va + len <= usize::MAX + 1,
            space.wf(),
            forall|i: int| 0 <= i < done ==> #[trigger] byte_writable(space@, va + i),
            flatten(segs@) == span(va as int, done as nat),
            forall|k: int| 0 <= k < segs@.len() ==> slice_ok(space@, #[trigger] segs@[k]),
        decreases len - done,
    {
        let cur = va + done;
        let vpn = cur / PAGE_SIZE;
        let off = cur % PAGE_SIZE;
        let room = PAGE_SIZE - off;
        let chunk = if room < len - done { room } else { len - done };
        proof {
            lemma_page_join(cur as int);
            lemma_floor_fits(cur as int);
        }
        let ok = match space.page_flags(vpn) {
            Some(f) => f.user_writable(),
            None => false,
        };
        if !ok {
            assert(!byte_writable(space@, va + done));
            return Err(MemoryError::InvalidUserPointer);
        }
        let seg = UserSlice { vpn, offset: off, len: chunk };
        let ghost before = segs@;
        segs.push(seg);
        proof {
            assert forall|i: int| 0 <= i < done + chunk implies #[trigger] byte_writable(space@, va + i) by {
                if i >= done {
                    lemma_page_split(va + i, vpn as int, off + (i - done));
                    lemma_floor_fits(va + i);
                }
            }
            assert(segs@.drop_last() =~= before);
            assert(flatten(segs@) =~= span(va as int, (done + chunk) as nat));
        }
        done = done + chunk;
    }
    Ok(segs)
}

/// One step of writing: storing `b` after `bytes` equals storing `bytes` and then `b`.
proof fn lemma_written_step(m: Map<usize, PageState>, va: int, bytes: Seq<u8>, b: u8)
    requires
        0 <= va,
        va + bytes.len() <= usize::MAX,
        page_present(m, va + bytes.len()),
        forall|v: usize| #[trigger] m.contains_key(v) ==> m[v].data.len() == PAGE_SIZE,
    ensures
        ({
            let a = va + bytes.len();
            let w = written(m, va, bytes);
            written(m, va, bytes.push(b)) == w.insert(
                page_key(a),
                PageState {
                    flags: w[page_key(a)].flags,
                    data: w[page_key(a)].data.update(page_offset_spec(a), b),
                },
            )
        }),
{
    let a = va + bytes.len();
    let w = written(m, va, bytes);
    let w2 = w.insert(
        page_key(a),
        PageState {
            flags: w[page_key(a)].flags,
            data: w[page_key(a)].data.update(page_offset_spec(a), b),
        },
    );
    let n = written(m, va, bytes.push(b));
    lemma_page_join(a);
    lemma_floor_fits(a);
    assert forall|v: usize| #[trigger] n.contains_key(v) implies n[v] == w2[v] by {
        assert forall|o: int| 0 <= o < n[v].data.len() implies #[trigger] n[v].data[o] == w2[v].data[o] by {
            let x = v * PAGE_SIZE + o;
            lemma_page_split(x, v as int, o);
            if x == a {
                assert(v == page_key(a));
            }
            if v == page_key(a) && o == page_offset_spec(a) {
                assert(x == a);
            }
        }
        assert(n[v].data =~= w2[v].data);
    }
    assert(n =~= w2);
}

/// Stores `bytes` across `segs`, whose addresses are `[va, va + bytes.len())`.
fn write_slices(space: &mut AddressSpace, segs: &Vec<UserSlice>, bytes: &Vec<u8>, Ghost(va): Ghost<int>)
    requires
        old(space).wf(),
        0 <= va,
        va + bytes@.len() <= usize::MAX + 1,
        flatten(segs@) == span(va, bytes@.len()),
        forall|k: int| 0 <= k < segs@.len() ==> slice_ok(old(space)@, #[trigger] segs@[k]),
    ensures
        final(space).wf(),
        final(space)@ == written(old(space)@, va, bytes@),
{
    let n = bytes.len();
    let mut s: usize = 0;
    let mut k: usize = 0;
    assert(written(old(space)@, va, bytes@.take(0)) =~= old(space)@) by {
        assert forall|v: usize| #[trigger] old(space)@.contains_key(v) implies written(old(space)@, va, bytes@.take(0))[v] == old(space)@[v] by {
            assert(written(old(space)@, va, bytes@.take(0))[v].data =~= old(space)@[v].data);
        }
    }
    while s < segs.len()
        invariant
            s <= segs@.len(),
            0 <= va,
            va + bytes@.len() <= usize::MAX + 1,
            flatten(segs@) == span(va, bytes@.len()),
            forall|q: int| 0 <= q < segs@.len() ==> slice_ok(old(space)@, #[trigger] segs@[q]),
            k == flatten(segs@.take(s as int)).len(),
            k <= bytes@.len(),
            n == bytes@.len(),
            space.wf(),
            space@.dom() == old(space)@.dom(),
            space@ == written(old(space)@, va, bytes@.take(k as int)),
        decreases segs@.len() - s,
    {
        let seg = segs[s];
        proof {
            lemma_flatten_step(segs@, s as int);
            lemma_flatten_prefix(segs@, s as int + 1);
        }
        let mut j: usize = 0;
        while j < seg.len
            invariant
                s < segs@.len(),
                seg == segs@[s as int],
                j <= seg.len,
                0 <= va,
                va + bytes@.len() <= usize::MAX + 1,
                flatten(segs@) == span(va, bytes@.len()),
                forall|q: int| 0 <= q < segs@.len() ==> slice_ok(old(space)@, #[trigger] segs@[q]),
                flatten(segs@.take(s as int + 1)) == flatten(segs@.take(s as int)) + slice_addrs(seg),
                flatten(segs@.take(s as int + 1)).len() <= flatten(segs@).len(),
                forall|i: int|
                    0 <= i < flatten(segs@.take(s as int + 1)).len() ==> #[trigger] flatten(segs@.take(s as int + 1))[i]
                        == flatten(segs@)[i],
                k + j == flatten(segs@.take(s as int)).len() + j,
                k + j <= bytes@.len(),
                space.wf(),
                space@.dom() == old(space)@.dom(),
                space@ == written(old(space)@, va, bytes@.take((k + j) as int)),
            decreases seg.len - j,
        {
            let ghost idx = (k + j) as int;
            assert(flatten(segs@.take(s as int + 1))[idx] == va + idx);
            assert(slice_ok(old(space)@, segs@[s as int]));
            let addr = seg.vpn * PAGE_SIZE + seg.offset + j;
            assert(addr == va + idx);
            let b = bytes[k + j];
            proof {
                lemma_written_step(old(space)@, va, bytes@.take(idx), b);
                assert(bytes@.take(idx).push(b) =~= bytes@.take(idx + 1));
                lemma_floor_fits(addr as int);
                lemma_page_join(addr as int);
                lemma_page_split(addr as int, seg.vpn as int, seg.offset + j);
            }
            space.write_byte(addr, b);
            j = j + 1;
            assert(space@.dom() =~= old(space)@.dom());
        }
        assert(k + seg.len == flatten(segs@.take(s as int + 1)).len());
        k = k + seg.len;
        s = s + 1;
    }
    assert(segs@.take(s as int) =~= segs@);
    assert(bytes@.take(k as int) =~= bytes@);
}

/// Copies `bytes` into user memory at `va`, byte by byte across page
/// boundaries; refused, with nothing changed, when any target byte is
/// unmapped or not writable by user code.
pub fn copy_to_user(space: &mut AddressSpace, va: usize, bytes: &Vec<u8>) -> (r: Result<(), MemoryError>)
    requires
        old(space).wf(),
    ensures
        final(space).wf(),
        r is Err <==> !range_writable(old(space)@, va as int, bytes@.len()),
        r is Err ==> r == Err::<(), MemoryError>(MemoryError::InvalidUserPointer)
            && final(space)@ == old(space)@,
        r is Ok ==> final(space)@ == written(old(space)@, va as int, bytes@),
{
    match translate_user_range(space, va, bytes.len()) {
        Ok(segs) => {
            write_slices(space, &segs, bytes, Ghost(va as int));
            Ok(())
        },
        Err(e) => Err(e),
    }
}

/// After a successful copy, the user range reads back exactly the bytes copied.
pub proof fn lemma_written_reads_back(m: Map<usize, PageState>, va: int, bytes: Seq<u8>)
    requires
        0 <= va,
        range_writable(m, va, bytes.len()),
        forall|v: usize| #[trigger] m.contains_key(v) ==> m[v].data.len() == PAGE_SIZE,
    ensures
        user_bytes(written(m, va, bytes), va, bytes.len()) == bytes,
{
    let w = written(m, va, bytes);
    assert forall|i: int| 0 <= i < bytes.len() implies #[trigger] user_bytes(w, va, bytes.len())[i] == bytes[i] by {
        let a = va + i;
        assert(byte_writable(m, a));
        lemma_page_join(a);
        lemma_floor_fits(a);
    }
    assert(user_bytes(w, va, bytes.len()) =~= bytes);
}

/// Where the destination lies does not change what is stored: a copy that
/// straddles a page boundary reads back the same bytes as one inside a single page.
pub proof fn lemma_copy_placement_independent(
    m1: Map<usize, PageState>,
    va1: int,
    m2: Map<usize, PageState>,
    va2: int,
    bytes: Seq<u8>,
)
    requires
        0 <= va1,
        0 <= va2,
        range_writable(m1, va1, bytes.len()),
        range_writable(m2, va2, bytes.len()),
        forall|v: usize| #[trigger] m1.contains_key(v) ==> m1[v].data.len() == PAGE_SIZE,
        forall|v: usize| #[trigger] m2.contains_key(v) ==> m2[v].data.len() == PAGE_SIZE,
    ensures
        user_bytes(written(m1, va1, bytes), va1, bytes.len()) == user_bytes(
            written(m2, va2, bytes),
            va2,
            bytes.len(),
        ),
{
    lemma_written_reads_back(m1, va1, bytes);
    lemma_written_reads_back(m2, va2, bytes);
}

} // verus!
