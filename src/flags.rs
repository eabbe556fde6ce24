//! Page protection flags and their derivation from a request mask.
use vstd::prelude::*;

verus! {

/// Access rights of one mapped page.
#[derive(Clone, Copy, Debug, PartialEq, Eq, Structural)]
pub struct ProtectionFlags {
    pub readable: bool,
    pub writable: bool,
    pub executable: bool,
    pub user: bool,
}

/// A request mask is usable when it asks for at least one of R/W/X and
/// sets no bit at position 3 or above.
pub open spec fn valid_protection(prot: int) -> bool {
    1 <= prot <= 7
}

/// Flags for a user mapping requested with mask `prot`
/// (bit 0 = R, bit 1 = W, bit 2 = X; user access always granted).
pub open spec fn flags_of(prot: usize) -> ProtectionFlags {
    ProtectionFlags {
        readable: prot & 1 != 0,
        writable: prot & 2 != 0,
        executable: prot & 4 != 0,
        user: true,
    }
}

/// A mask has a bit at position 3 or above exactly when it exceeds 7.
pub proof fn lemma_high_bits(prot: usize)
    ensures
        (prot & !7usize != 0) == (prot >= 8),
{
    assert((prot & !7usize != 0) == (prot >= 8)) by (bit_vector);
}

impl ProtectionFlags {
    /// Flags for a user mapping requested with mask `prot`.
    pub fn from_request(prot: usize) -> (r: ProtectionFlags)
        ensures
            r == flags_of(prot),
    {
        ProtectionFlags {
            readable: prot & 1 != 0,
            writable: prot & 2 != 0,
            executable: prot & 4 != 0,
            user: true,
        }
    }

    /// Whether user code may write through a page with these flags.
    pub open spec fn user_writable_spec(&self) -> bool {
        self.user && self.writable
    }

    /// Whether user code may write through a page with these flags.
    pub fn user_writable(&self) -> (r: bool)
        ensures
            r == self.user_writable_spec(),
    {
        self.user && self.writable
    }
}

/// Whether `prot` is an acceptable request mask.
pub fn protection_ok(prot: usize) -> (r: bool)
    ensures
        r == valid_protection(prot as int),
{
    proof {
        lemma_high_bits(prot);
    }
    !(prot & !0x7usize != 0 || prot == 0)
}

} // verus!
