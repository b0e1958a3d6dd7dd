//! Virtual addresses and page numbers.

use vstd::prelude::*;

verus! {

/// Size of one page in bytes.
pub const PAGE_SIZE: usize = 4096;

/// Page number of the page that holds `a`.
pub open spec fn page_of(a: nat) -> nat {
    a / (PAGE_SIZE as nat)
}

/// Number of whole pages needed to cover `[0, a)`, i.e. the page number of
/// the exclusive end address `a` rounded up.
pub open spec fn page_ceil(a: nat) -> nat {
    ((a + PAGE_SIZE - 1) as nat) / (PAGE_SIZE as nat)
}

/// A virtual address in a process's address space.
#[derive(Clone, Copy, Debug, PartialEq, Eq, Structural)]
pub struct VirtAddr(pub usize);

impl VirtAddr {
    /// Whether the address is the first byte of a page.
    pub fn aligned(&self) -> (r: bool)
        ensures
            r == (self.0 % PAGE_SIZE == 0),
    {
        self.0 % PAGE_SIZE == 0
    }

    /// Offset of the address inside its page.
    pub fn page_offset(&self) -> (r: usize)
        ensures
            r as nat == (self.0 as nat) % (PAGE_SIZE as nat),
            r < PAGE_SIZE,
    {
        self.0 % PAGE_SIZE
    }

    /// Page number of the page that holds the address (rounded down).
    pub fn floor(&self) -> (r: usize)
        ensures
            r as nat == page_of(self.0 as nat),
    {
        self.0 / PAGE_SIZE
    }

    /// Page number of the address rounded up to a whole page: the first page
    /// past an exclusive end address.
    pub fn ceil(&self) -> (r: usize)
        ensures
            r as nat == page_ceil(self.0 as nat),
    {
        if self.0 % PAGE_SIZE == 0 {
            proof {
                lemma_ceil_of_aligned(self.0 as nat);
            }
            self.0 / PAGE_SIZE
        } else {
            proof {
                lemma_ceil_of_unaligned(self.0 as nat);
            }
            self.0 / PAGE_SIZE + 1
        }
    }
}

proof fn lemma_ceil_of_aligned(a: nat)
    requires
        a % (PAGE_SIZE as nat) == 0,
    ensures
        page_ceil(a) == page_of(a),
{
    let p = PAGE_SIZE as nat;
    vstd::arithmetic::div_mod::lemma_fundamental_div_mod(a as int, p as int);
    vstd::arithmetic::div_mod::lemma_fundamental_div_mod_converse(
        (a + p - 1) as int,
        p as int,
        (a / p) as int,
        (p - 1) as int,
    );
}

proof fn lemma_ceil_of_unaligned(a: nat)
    requires
        a % (PAGE_SIZE as nat) != 0,
    ensures
        page_ceil(a) == page_of(a) + 1,
{
    let p = PAGE_SIZE as nat;
    vstd::arithmetic::div_mod::lemma_fundamental_div_mod(a as int, p as int);
    vstd::arithmetic::div_mod::lemma_fundamental_div_mod_converse(
        (a + p - 1) as int,
        p as int,
        (a / p + 1) as int,
        (a % p - 1) as int,
    );
}

} // verus!
