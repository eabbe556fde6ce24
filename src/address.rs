//! Virtual addresses, page numbers and half-open page ranges.
use vstd::prelude::*;

use vstd::arithmetic::div_mod::lemma_fundamental_div_mod;
use vstd::arithmetic::div_mod::lemma_fundamental_div_mod_converse;

use crate::config::PAGE_SIZE;

verus! {

/// Page number holding the byte at `va` (rounding down).
pub open spec fn floor_spec(va: int) -> int {
    va / PAGE_SIZE as int
}

/// Smallest page number whose start is at or above `va` (rounding up).
pub open spec fn ceil_spec(va: int) -> int {
    (va + PAGE_SIZE as int - 1) / PAGE_SIZE as int
}

/// Whether `va` is the first byte of a page.
pub open spec fn aligned_spec(va: int) -> bool {
    va % PAGE_SIZE as int == 0
}

/// Offset of `va` inside its page.
pub open spec fn page_offset_spec(va: int) -> int {
    va % PAGE_SIZE as int
}

/// Page number that holds `va`.
pub fn floor(va: usize) -> (r: usize)
    ensures
        r as int == floor_spec(va as int),
{
    va / PAGE_SIZE
}

/// Whether `va` lies on a page boundary.
pub fn aligned(va: usize) -> (r: bool)
    ensures
        r == aligned_spec(va as int),
{
    va % PAGE_SIZE == 0
}

/// An address is determined by its page number and its offset in the page.
pub proof fn lemma_page_split(a: int, vpn: int, off: int)
    requires
        0 <= off < PAGE_SIZE as int,
        a == vpn * PAGE_SIZE as int + off,
    ensures
        floor_spec(a) == vpn,
        page_offset_spec(a) == off,
{
    lemma_fundamental_div_mod_converse(a, PAGE_SIZE as int, vpn, off);
}

/// Every address is its page's start plus its offset.
pub proof fn lemma_page_join(a: int)
    ensures
        a == floor_spec(a) * PAGE_SIZE as int + page_offset_spec(a),
        0 <= page_offset_spec(a) < PAGE_SIZE as int,
{
    lemma_fundamental_div_mod(a, PAGE_SIZE as int);
}

/// Half-open range `[start, end)` of page numbers.
#[derive(Clone, Copy, Debug, PartialEq, Eq, Structural)]
pub struct PageRange {
    pub start: usize,
    pub end: usize,
}

impl PageRange {
    /// Ranges keep their bounds in order.
    pub open spec fn wf(&self) -> bool {
        self.start <= self.end
    }

    /// Whether page `vpn` lies inside the range.
    pub open spec fn contains_spec(&self, vpn: int) -> bool {
        self.start <= vpn < self.end
    }

    /// Range `[start, end)`; an inverted pair gives the empty range at `start`.
    pub fn new(start: usize, end: usize) -> (r: PageRange)
        ensures
            r.wf(),
            r.start == start,
            r.end == if end < start { start } else { end },
    {
        if end < start {
            PageRange { start, end: start }
        } else {
            PageRange { start, end }
        }
    }

    /// Pages touched by the bytes `[start, start + len)` of a page-aligned
    /// `start`: from `floor(start)` to `ceil(start + len)`.
    pub fn covering(start: usize, len: usize) -> (r: PageRange)
        requires
            aligned_spec(start as int),
        ensures
            r.wf(),
            r.start as int == floor_spec(start as int),
            r.end as int == ceil_spec(start as int + len as int),
    {
        let first = start / PAGE_SIZE;
        let whole = len / PAGE_SIZE;
        let rest: usize = if len % PAGE_SIZE == 0 { 0 } else { 1 };
        proof {
            let p = PAGE_SIZE as int;
            lemma_page_join(start as int);
            lemma_page_join(len as int);
            let r = len as int % p;
            let q = len as int / p;
            let s = start as int + len as int + p - 1;
            // s == (first + q + rest) * p + (r + p - 1 - rest * p)
            if r == 0 {
                assert(s == (first + q) * p + (p - 1)) by (nonlinear_arith)
                    requires
                        start as int == first * p,
                        len as int == q * p + r,
                        r == 0,
                        s == start as int + len as int + p - 1,
                ;
                lemma_page_split(s, first + q, p - 1);
            } else {
                assert(s == (first + q + 1) * p + (r - 1)) by (nonlinear_arith)
                    requires
                        start as int == first * p,
                        len as int == q * p + r,
                        s == start as int + len as int + p - 1,
                ;
                lemma_page_split(s, first + q + 1, r - 1);
            }
            assert(first + whole + rest <= usize::MAX) by (nonlinear_arith)
                requires
                    first * p <= usize::MAX,
                    whole * p <= usize::MAX,
                    p == 4096,
                    first >= 0,
                    whole >= 0,
                    rest <= 1,
            ;
        }
        PageRange { start: first, end: first + whole + rest }
    }
}

} // verus!
